//! Programs and declarations.

use crate::compiler::{
    asm_bytes_len, extends, CompileError, Compiler, Function, Opcode, Variable, FIRST_RESERVED_REG,
    LAST_ADDR, ROM_START,
};
use crate::grammar;
use crate::grammar::{Draft, FunctionEntry};
use crate::lexer::TokenType;
use vstd::prelude::*;

verus! {

impl Compiler {
    /// Compiles the whole program: declarations up to the end-of-file marker.
    /// On success every opcode that was added is resolved: no placeholder of
    /// a jump is left, and every jump and call leads into program memory.
    /// The slack is afterwards what it was before, and the tally has kept
    /// count of the tokens: with a new compiler, the next free register is
    /// the number of variables that are left, and as many more as the tokens
    /// outside functions hold `if`, `while`, `and` and `or` more than
    /// comparisons.
    #[verifier::rlimit(100)]
    pub fn compile(&mut self) -> (r: Result<(), CompileError>)
        requires
            old(self).wf(),
        ensures
            final(self).follows(
                *old(self),
                r,
                grammar::program(old(self).token_seq(), Ok(old(self)@)),
            ),
            r is Ok ==> grammar::counts(old(self).token_seq(), old(self)@, final(self)@),
            r is Ok ==> extends(old(self)@, final(self)@),
            r is Ok ==> grammar::grows(old(self)@, final(self)@),
            final(self).statement_law(*old(self), r, 0),
    {
        loop
            invariant
                self@.scope_depth == old(self)@.scope_depth,
                self.wf(),
                self.token_seq() == old(self).token_seq(),
                grammar::counts(old(self).token_seq(), old(self)@, self@),
                self@.current >= old(self)@.current,
                extends(old(self)@, self@),
                grammar::grows(old(self)@, self@),
                self.statement_law(*old(self), Ok(()), 0),
                grammar::program(self.token_seq(), Ok(self@)) == grammar::program(
                    old(self).token_seq(),
                    Ok(old(self)@),
                ),
            decreases self.tokens.len() - self.current,
        {
            if self.next_is(TokenType::EndOfFile)? {
                return Ok(());
            }
            self.declaration()?;
        }
    }

    /// Compiles a function, a variable or a statement.
    #[verifier::rlimit(100)]
    pub fn declaration(&mut self) -> (r: Result<(), CompileError>)
        requires
            old(self).wf(),
        ensures
            final(self).compiles(
                *old(self),
                r,
                grammar::declaration(old(self).token_seq(), Ok(old(self)@)),
            ),
            r is Ok ==> grammar::counts(old(self).token_seq(), old(self)@, final(self)@),
            final(self).statement_law(*old(self), r, 0),
        decreases old(self).token_seq().len() - old(self)@.current, 8int,
    {
        if self.next_is(TokenType::Fn)? {
            self.advance()?;
            self.fn_declaration()
        } else if self.next_is(TokenType::Var)? {
            self.advance()?;
            self.var_declaration()
        } else {
            self.statement()
        }
    }

    /// Takes one parameter of the function declared last.
    #[verifier::rlimit(100)]
    pub(crate) fn parameter(&mut self) -> (r: Result<(), CompileError>)
        requires
            old(self).wf(),
        ensures
            final(self).follows(
                *old(self),
                r,
                grammar::parameter(old(self).token_seq(), Ok(old(self)@)),
            ),
            r is Ok ==> grammar::counts_head(old(self).token_seq(), old(self)@, final(self)@),
            r is Ok ==> final(self)@.code == old(self)@.code,
            r is Ok ==> final(self)@.current > old(self)@.current,
            r is Ok ==> grammar::grows(old(self)@, final(self)@),
            r is Ok ==> final(self)@.reg_stack_top == old(self)@.reg_stack_top,
    {
        reveal(grammar::parameter);
        self.advance()?;
        let token = self.last_token()?;
        match token.token_type {
            TokenType::Identifier(name) => {
                let declared = self.functions.len();
                if declared == 0 {
                    return Err(CompileError::UnknownFunction);
                }
                let index = self.functions[declared - 1].1.args.len();
                if index >= FIRST_RESERVED_REG as usize {
                    return Err(CompileError::OutOfRegisters);
                }
                let ghost before = self@;
                let ghost entries = self.functions@;
                assert(self.functions[declared - 1].1.start_addr >= ROM_START);
                match self.functions.pop() {
                    Some(mut f) => {
                        f.1.args.push(name.clone());
                        self.functions.push(f);
                    },
                    None => {},
                }
                self.variables.push(Variable::new(name, index as u16, self.scope_depth));
                proof {
                    assert(self@.functions =~= before.functions.drop_last().push(
                        FunctionEntry {
                            args: before.functions.last().args.push(name),
                            ..before.functions.last()
                        },
                    ));
                    assert forall|i: int| 0 <= i < self.functions.len() implies {
                        &&& ROM_START <= (#[trigger] self.functions[i]).1.start_addr <= LAST_ADDR
                        &&& self.functions[i].1.start_addr % 2 == 0
                        &&& self.functions[i].1.start_addr <= crate::compiler::rom_addr(self.code.len() as int) + 2
                        &&& self.functions[i].1.args.len() <= FIRST_RESERVED_REG
                    } by {
                        if i < declared - 1 {
                            assert(self.functions[i] == entries[i]);
                        }
                    }
                }
                Ok(())
            },
            _ => Err(CompileError::ExpectedIdentifier),
        }
    }

    /// The parameter list of a function, up to its closing bracket.
    #[verifier::rlimit(100)]
    pub(crate) fn parameters(&mut self) -> (r: Result<(), CompileError>)
        requires
            old(self).wf(),
        ensures
            final(self).follows(
                *old(self),
                r,
                grammar::parameters(old(self).token_seq(), Ok(old(self)@)),
            ),
            r is Ok ==> grammar::counts_head(old(self).token_seq(), old(self)@, final(self)@),
            r is Ok ==> final(self)@.code == old(self)@.code,
            r is Ok ==> grammar::grows(old(self)@, final(self)@),
            r is Ok ==> final(self)@.reg_stack_top == old(self)@.reg_stack_top,
    {
        reveal(grammar::more_parameters);
        if self.next_is(TokenType::RightParen)? {
            return Ok(());
        }
        self.parameter()?;
        loop
            invariant
                self@.scope_depth == old(self)@.scope_depth,
                self.wf(),
                self.token_seq() == old(self).token_seq(),
                grammar::counts_head(old(self).token_seq(), old(self)@, self@),
                self@.current >= old(self)@.current,
                self@.code == old(self)@.code,
                grammar::grows(old(self)@, self@),
                self@.reg_stack_top == old(self)@.reg_stack_top,
                grammar::more_parameters(self.token_seq(), Ok(self@)) == grammar::parameters(
                    old(self).token_seq(),
                    Ok(old(self)@),
                ),
            decreases self.tokens.len() - self.current,
        {
            reveal(grammar::more_parameters);
            if !self.next_is(TokenType::Comma)? {
                return Ok(());
            }
            self.advance()?;
            self.parameter()?;
        }
    }

    /// Compiles a function, whose `fn` has been taken: name, parameters and
    /// body.
    #[verifier::rlimit(100)]
    pub fn fn_declaration(&mut self) -> (r: Result<(), CompileError>)
        requires
            old(self).wf(),
        ensures
            final(self).compiles(
                *old(self),
                r,
                grammar::fn_declaration(old(self).token_seq(), Ok(old(self)@)),
            ),
            final(self).statement_law(*old(self), r, 0),
            r is Ok ==> final(self)@.variables == old(self)@.variables,
            r is Ok ==> grammar::counts_function(old(self).token_seq(), old(self)@, final(self)@),
        decreases old(self).token_seq().len() - old(self)@.current, 7int,
    {
        let token = self.next_token()?;
        match token.token_type {
            TokenType::Identifier(name) => {
                self.advance()?;
                let start = asm_bytes_len(self.code.len()) + 2;
                if start > LAST_ADDR {
                    return Err(CompileError::ProgramTooLarge);
                }
                let ghost before = self@;
                self.functions.push((name, Function::new(start)));
                assert(self@.functions =~= before.functions.push(
                    FunctionEntry { name, start_addr: start, args: Seq::empty() },
                ));
                if self.scope_depth == u16::MAX {
                    return Err(CompileError::NestingTooDeep);
                }
                self.scope_depth += 1;
                self.consume(TokenType::LeftParen)?;
                self.parameters()?;
                self.consume(TokenType::RightParen)?;
                self.consume(TokenType::LeftBrace)?;

                let declared = self.functions.len();
                let arg_count: usize = if declared > 0 {
                    self.functions[declared - 1].1.args.len()
                } else {
                    0
                };
                assert(arg_count <= FIRST_RESERVED_REG) by {
                    if declared > 0 {
                        assert(self.functions[declared - 1].1.args.len() <= FIRST_RESERVED_REG);
                    }
                }
                let reg_stack_top_backup = self.reg_stack_top;
                self.reg_stack_top = arg_count as u16;

                let jp_over_fn_index = self.code.len();
                self.emit(Opcode::JP(0))?;
                self.block()?;
                self.pop_frame()?;
                self.patch(jp_over_fn_index, 0)?;
                proof {
                    grammar::lemma_clear_scope_leaves_outer(
                        self@.variables,
                        old(self)@.variables.len() as int,
                        self@.scope_depth,
                    );
                    assert(self@.variables.take(old(self)@.variables.len() as int)
                        =~= old(self)@.variables);
                }
                self.clear_current_scope()?;
                self.scope_depth -= 1;
                self.reg_stack_top = reg_stack_top_backup;
                proof {
                    self.tally@ = old(self).tally@;
                }
                Ok(())
            },
            _ => Err(CompileError::ExpectedIdentifier),
        }
    }

    /// Compiles a variable, whose `var` has been taken: name, `=` and
    /// initialiser.
    #[verifier::rlimit(100)]
    pub fn var_declaration(&mut self) -> (r: Result<(), CompileError>)
        requires
            old(self).wf(),
        ensures
            final(self).compiles(
                *old(self),
                r,
                grammar::var_declaration(old(self).token_seq(), Ok(old(self)@)),
            ),
            r is Ok ==> grammar::counts(old(self).token_seq(), old(self)@, final(self)@),
            final(self).statement_law(*old(self), r, 0),
        decreases old(self).token_seq().len() - old(self)@.current, 7int,
    {
        let token = self.next_token()?;
        match token.token_type {
            TokenType::Identifier(name) => {
                self.advance()?;
                self.variables.push(Variable::new(name, self.reg_stack_top, self.scope_depth));
                if !self.next_is(TokenType::Equals)? {
                    return Err(CompileError::MissingInitialiser);
                }
                self.advance()?;
                self.expression()?;
                self.consume(TokenType::Semicolon)
            },
            _ => Err(CompileError::ExpectedIdentifier),
        }
    }
}

} // verus!
