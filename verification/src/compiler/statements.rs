//! Statements.

use crate::compiler::{asm_bytes_len, extends, CompileError, Compiler, Opcode};
use crate::grammar;
use crate::grammar::{Draft, FunctionEntry};
use crate::lexer::TokenType;
use vstd::prelude::*;

verus! {

impl Compiler {
    /// Compiles a statement: a block in braces, `if`, `while`, `DRAW`, or an
    /// expression and its semicolon.
    #[verifier::rlimit(100)]
    pub(crate) fn statement(&mut self) -> (r: Result<(), CompileError>)
        requires
            old(self).wf(),
        ensures
            final(self).compiles(
                *old(self),
                r,
                grammar::statement(old(self).token_seq(), Ok(old(self)@)),
            ),
            r is Ok ==> grammar::counts(old(self).token_seq(), old(self)@, final(self)@),
            final(self).statement_law(*old(self), r, 0),
        decreases old(self).token_seq().len() - old(self)@.current, 7int,
    {
        if self.next_is(TokenType::LeftBrace)? {
            self.advance()?;
            if self.scope_depth == u16::MAX {
                return Err(CompileError::NestingTooDeep);
            }
            self.scope_depth += 1;
            self.block()?;
            proof {
                grammar::lemma_clear_scope_leaves_outer(
                    self@.variables,
                    old(self)@.variables.len() as int,
                    self@.scope_depth,
                );
                assert(self@.variables.take(old(self)@.variables.len() as int)
                    =~= old(self)@.variables);
            }
            self.clear_current_scope()?;
            self.scope_depth -= 1;
            Ok(())
        } else if self.next_is(TokenType::If)? {
            self.advance()?;
            self.if_statement()
        } else if self.next_is(TokenType::While)? {
            self.advance()?;
            self.while_statement()
        } else if self.next_is(TokenType::Draw)? {
            self.advance()?;
            self.draw_statement()
        } else {
            self.expression_statement()
        }
    }

    /// Compiles the declarations of a block, and takes the brace that closes it.
    #[verifier::rlimit(100)]
    pub(crate) fn block(&mut self) -> (r: Result<(), CompileError>)
        requires
            old(self).wf(),
        ensures
            final(self).compiles(*old(self), r, grammar::block(old(self).token_seq(), Ok(old(self)@))),
            r is Ok ==> grammar::counts_to_brace(old(self).token_seq(), old(self)@, final(self)@),
            final(self).statement_law(*old(self), r, 0),
        decreases old(self).token_seq().len() - old(self)@.current, 9int,
    {
        loop
            invariant
                self@.scope_depth == old(self)@.scope_depth,
                self.wf(),
                self.token_seq() == old(self).token_seq(),
                grammar::counts(old(self).token_seq(), old(self)@, self@),
                self@.current >= old(self)@.current,
                extends(old(self)@, self@),
                grammar::grows(old(self)@, self@),
                self.statement_law(*old(self), Ok(()), 0),
                grammar::block(self.token_seq(), Ok(self@)) == grammar::block(
                    old(self).token_seq(),
                    Ok(old(self)@),
                ),
            decreases self.tokens.len() - self.current,
        {
            if self.next_is(TokenType::RightBrace)? || self.next_is(TokenType::EndOfFile)? {
                return self.consume(TokenType::RightBrace);
            }
            self.declaration()?;
        }
    }

    /// Compiles `( condition ) statement` and `else statement` where it follows;
    /// `if` has been taken.
    #[verifier::rlimit(100)]
    pub(crate) fn if_statement(&mut self) -> (r: Result<(), CompileError>)
        requires
            old(self).wf(),
        ensures
            final(self).compiles(
                *old(self),
                r,
                grammar::if_statement(old(self).token_seq(), Ok(old(self)@)),
            ),
            r is Ok ==> grammar::counts(old(self).token_seq(), old(self)@, final(self)@),
            final(self).statement_law(*old(self), r, 1),
        decreases old(self).token_seq().len() - old(self)@.current, 7int,
    {
        self.consume(TokenType::LeftParen)?;
        self.expression()?;
        self.consume(TokenType::RightParen)?;

        let jp_index = self.code.len();
        self.emit(Opcode::JP(0))?;
        self.statement()?;

        if self.next_is(TokenType::Else)? {
            self.patch(jp_index, 2)?;
            self.advance()?;
            let jp_index = self.code.len();
            self.emit(Opcode::JP(0))?;
            self.statement()?;
            self.patch(jp_index, 0)
        } else {
            self.patch(jp_index, 0)
        }
    }

    /// Compiles `( condition ) statement`; `while` has been taken.
    #[verifier::rlimit(100)]
    pub(crate) fn while_statement(&mut self) -> (r: Result<(), CompileError>)
        requires
            old(self).wf(),
        ensures
            final(self).compiles(
                *old(self),
                r,
                grammar::while_statement(old(self).token_seq(), Ok(old(self)@)),
            ),
            r is Ok ==> grammar::counts(old(self).token_seq(), old(self)@, final(self)@),
            final(self).statement_law(*old(self), r, 1),
        decreases old(self).token_seq().len() - old(self)@.current, 7int,
    {
        let while_start = asm_bytes_len(self.code.len());

        self.consume(TokenType::LeftParen)?;
        self.expression()?;
        self.consume(TokenType::RightParen)?;

        //jump to after loop if condition not met
        let jp_condition_not_met_index = self.code.len();
        self.emit(Opcode::JP(0))?;
        self.statement()?;

        //jump back to start of while loop to retest condition
        self.emit(Opcode::JP(while_start))?;

        self.patch(jp_condition_not_met_index, 0)
    }

    /// Compiles `( expression , expression , NUMBER ) ;`; `DRAW` has been taken.
    #[verifier::rlimit(100)]
    pub(crate) fn draw_statement(&mut self) -> (r: Result<(), CompileError>)
        requires
            old(self).wf(),
        ensures
            final(self).compiles(
                *old(self),
                r,
                grammar::draw_statement(old(self).token_seq(), Ok(old(self)@)),
            ),
            r is Ok ==> grammar::counts(old(self).token_seq(), old(self)@, final(self)@),
            final(self).statement_law(*old(self), r, 0),
        decreases old(self).token_seq().len() - old(self)@.current, 7int,
    {
        self.consume(TokenType::LeftParen)?;
        self.expression()?;
        self.consume(TokenType::Comma)?;
        self.expression()?;
        self.consume(TokenType::Comma)?;
        match self.next_token()?.token_type {
            TokenType::Number(num) => {
                self.advance()?;
                self.consume(TokenType::RightParen)?;
                if num < 1 || num > 15 {
                    return Err(CompileError::LiteralOutOfRange);
                }
                let x = self.peek_reg_stack(1)?;
                let y = self.peek_reg_stack(0)?;
                self.emit(Opcode::DRWRegRegNibble(x, y, num))?;
                self.pop_reg()?;
                self.pop_reg()?;
                self.consume(TokenType::Semicolon)
            },
            _ => Err(CompileError::ExpectedNumber),
        }
    }

    /// Compiles an expression and its semicolon, and gives the expression's
    /// register back.
    #[verifier::rlimit(100)]
    pub(crate) fn expression_statement(&mut self) -> (r: Result<(), CompileError>)
        requires
            old(self).wf(),
        ensures
            final(self).compiles(
                *old(self),
                r,
                grammar::expression_statement(old(self).token_seq(), Ok(old(self)@)),
            ),
            r is Ok ==> grammar::counts(old(self).token_seq(), old(self)@, final(self)@),
            final(self).statement_law(*old(self), r, 0),
        decreases old(self).token_seq().len() - old(self)@.current, 6int,
    {
        self.expression()?;
        self.consume(TokenType::Semicolon)?;
        self.pop_reg()
    }
}

} // verus!
