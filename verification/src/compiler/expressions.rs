//! Expressions: the precedence climber and the routines that its rules name.

use crate::compiler::{
    extends, CompileError, CompileFn, CompileRuleType, Compiler, Opcode, Precedence, Variable,
    FIRST_RESERVED_REG, ROM_CAPACITY,
};
use crate::grammar;
use crate::grammar::{Draft, FunctionEntry};
use crate::lexer::{TokenKind, TokenType};
use vstd::prelude::*;

verus! {

impl Compiler {
    /// Compiles an expression.
    pub(crate) fn expression(&mut self) -> (r: Result<(), CompileError>)
        requires
            old(self).wf(),
        ensures
            final(self).compiles(
                *old(self),
                r,
                grammar::expression(old(self).token_seq(), Ok(old(self)@)),
            ),
            r is Ok ==> grammar::counts(old(self).token_seq(), old(self)@, final(self)@),
            final(self).expression_law(*old(self), r),
        decreases old(self).token_seq().len() - old(self)@.current, 5int,
    {
        self.compile_precedence(Precedence::Assignment)
    }

    /// Compiles an expression whose operators bind at least as tightly as
    /// `precedence`.
    #[verifier::rlimit(100)]
    pub(crate) fn compile_precedence(&mut self, precedence: Precedence) -> (r: Result<(), CompileError>)
        requires
            old(self).wf(),
        ensures
            final(self).compiles(
                *old(self),
                r,
                grammar::compile_precedence(old(self).token_seq(), Ok(old(self)@), precedence),
            ),
            r is Ok ==> grammar::counts(old(self).token_seq(), old(self)@, final(self)@),
            final(self).expression_law(*old(self), r),
        decreases old(self).token_seq().len() - old(self)@.current, 4int,
    {
        self.advance()?;
        let assign_allowed = precedence.to_u8() <= Precedence::Assignment.to_u8();

        let prev = self.last_token()?;
        match self.get_rule(&prev)?.rule_type {
            CompileRuleType::Prefix { prefix } => self.run(prefix, assign_allowed)?,
            CompileRuleType::PrefixAndInfix { prefix, .. } => self.run(prefix, assign_allowed)?,
            _ => {
                return Err(CompileError::NoPrefixRule);
            },
        }

        loop
            invariant
                self@.scope_depth == old(self)@.scope_depth,
                self.wf(),
                self.token_seq() == old(self).token_seq(),
                grammar::counts(old(self).token_seq(), old(self)@, self@),
                self@.current > old(self)@.current,
                extends(old(self)@, self@),
                assign_allowed == (precedence.level() <= Precedence::Assignment.level()),
                self.expression_law(*old(self), Ok(())),
                grammar::infix_loop(self.token_seq(), Ok(self@), precedence, assign_allowed)
                    == grammar::compile_precedence(
                    old(self).token_seq(),
                    Ok(old(self)@),
                    precedence,
                ),
            decreases self.tokens.len() - self.current,
        {
            let ghost head = self@;
            let cur = self.next_token()?;
            let rule = self.get_rule(&cur)?;
            if !(precedence.to_u8() <= rule.precedence.to_u8()) {
                return Ok(());
            }
            self.advance()?;
            let ghost taken = self@;
            match rule.rule_type {
                CompileRuleType::Infix { infix } => self.run(infix, assign_allowed)?,
                CompileRuleType::PrefixAndInfix { infix, .. } => self.run(infix, assign_allowed)?,
                _ => (),
            }
            proof {
                assert(grammar::slack(taken) == grammar::slack(head) - grammar::weight(
                    grammar::kind_at(self.token_seq(), head.current),
                ));
            }
        }
    }

    /// Runs the routine that a rule names, on the token taken last.
    #[verifier::rlimit(100)]
    pub(crate) fn run(&mut self, routine: CompileFn, assign_allowed: bool) -> (r: Result<(), CompileError>)
        requires
            old(self).wf(),
            grammar::fits_last(old(self).token_seq(), old(self)@, routine),
        ensures
            final(self).follows(
                *old(self),
                r,
                grammar::run(old(self).token_seq(), Ok(old(self)@), routine, assign_allowed),
            ),
            r is Ok ==> grammar::counts(old(self).token_seq(), old(self)@, final(self)@),
            r is Ok ==> extends(old(self)@, final(self)@),
            final(self).routine_law(
                *old(self),
                r,
                grammar::growth(
                    routine,
                    grammar::kind_at(old(self).token_seq(), old(self)@.previous),
                ),
            ),
        decreases old(self).token_seq().len() - old(self)@.current, 13int,
    {
        match routine {
            CompileFn::Number => self.number(),
            CompileFn::Variable => self.variable(assign_allowed),
            CompileFn::Binary => self.binary(),
            CompileFn::And => self.and(),
            CompileFn::Or => self.or(),
            CompileFn::DT => self.DT(assign_allowed),
            CompileFn::ST => self.ST(assign_allowed),
            CompileFn::I => self.I(assign_allowed),
            CompileFn::Rand => self.rand(),
            CompileFn::Key => self.key(),
        }
    }

    /// Compiles the arguments of a call, up to its closing bracket, and
    /// counts them.
    #[verifier::rlimit(100)]
    pub(crate) fn arguments(&mut self) -> (r: Result<usize, CompileError>)
        requires
            old(self).wf(),
        ensures
            match r {
                Ok(count) => {
                    &&& final(self).follows(
                        *old(self),
                        Ok(()),
                        grammar::arguments(old(self).token_seq(), Ok(old(self)@)),
                    )
                    &&& count == grammar::argument_count(old(self).token_seq(), Ok(old(self)@))
                    &&& grammar::counts(old(self).token_seq(), old(self)@, final(self)@)
                    &&& extends(old(self)@, final(self)@)
                    &&& grammar::yields(old(self)@, final(self)@, count as int)
                },
                Err(e) => final(self).follows(
                    *old(self),
                    Err(e),
                    grammar::arguments(old(self).token_seq(), Ok(old(self)@)),
                ),
            },
        decreases old(self).token_seq().len() - old(self)@.current, 11int,
    {
        if self.next_is(TokenType::RightParen)? {
            return Ok(0);
        }
        self.expression()?;
        let mut count: usize = 1;
        loop
            invariant
                self@.scope_depth == old(self)@.scope_depth,
                self.wf(),
                self.token_seq() == old(self).token_seq(),
                grammar::counts(old(self).token_seq(), old(self)@, self@),
                self@.current > old(self)@.current,
                count <= self@.current,
                extends(old(self)@, self@),
                grammar::yields(old(self)@, self@, count as int),
                grammar::more_arguments(self.token_seq(), Ok(self@)) == grammar::arguments(
                    old(self).token_seq(),
                    Ok(old(self)@),
                ),
                count + grammar::more_argument_count(self.token_seq(), Ok(self@))
                    == grammar::argument_count(old(self).token_seq(), Ok(old(self)@)),
            decreases self.tokens.len() - self.current,
        {
            if !self.next_is(TokenType::Comma)? {
                return Ok(count);
            }
            self.advance()?;
            self.expression()?;
            count += 1;
        }
    }

    /// Compiles an identifier: an assignment, a call, or the value of a variable.
    #[verifier::rlimit(100)]
    pub(crate) fn variable(&mut self, assign_allowed: bool) -> (r: Result<(), CompileError>)
        requires
            old(self).wf(),
            grammar::fits_last(old(self).token_seq(), old(self)@, CompileFn::Variable),
        ensures
            final(self).follows(
                *old(self),
                r,
                grammar::variable(old(self).token_seq(), Ok(old(self)@), assign_allowed),
            ),
            r is Ok ==> grammar::counts(old(self).token_seq(), old(self)@, final(self)@),
            r is Ok ==> extends(old(self)@, final(self)@),
            final(self).routine_law(*old(self), r, 1),
        decreases old(self).token_seq().len() - old(self)@.current, 12int,
    {
        let prev = self.last_token()?;
        let assigns = self.next_is(TokenType::Equals)? && assign_allowed;
        let calls = self.next_is(TokenType::LeftParen)?;

        match prev.token_type {
            TokenType::Identifier(name) => {
                if assigns {
                    self.advance()?;
                    self.expression()?;
                    let target = match self.lookup_variable_register(name) {
                        Some(reg) => reg,
                        None => {
                            return Err(CompileError::UnknownVariable);
                        },
                    };
                    let value = self.peek_reg_stack(0)?;
                    self.emit(Opcode::LDRegReg(target, value))?;
                    self.pop_reg()?;
                    self.push_reg()
                } else if calls {
                    //maybe instead call parse precedence here and go thru that way??
                    self.advance()?;
                    self.push_frame()?;
                    let count = self.arguments()?;

                    let (start_addr, num_args) = match self.lookup_function(&name) {
                        Some(found) => found,
                        None => {
                            return Err(CompileError::UnknownFunction);
                        },
                    };
                    if count != num_args {
                        return Err(CompileError::ArityMismatch);
                    }
                    if num_args > self.reg_stack_top as usize {
                        proof {
                            grammar::lemma_emit_all_passes(
                                self.token_seq(),
                                CompileError::RegisterStackUnderflow,
                                grammar::argument_moves(
                                    num_args as int,
                                    self@.reg_stack_top - num_args,
                                ),
                            );
                        }
                        return Err(CompileError::RegisterStackUnderflow);
                    }
                    let base: u16 = self.reg_stack_top - num_args as u16;
                    self.reg_stack_top = base;
                    self.emit_moves(num_args as u16, base)?;
                    self.consume(TokenType::RightParen)?;
                    self.emit(Opcode::CALL(start_addr))?;
                    self.push_reg()
                } else {
                    let source = match self.lookup_variable_register(name) {
                        Some(reg) => reg,
                        None => {
                            return Err(CompileError::UnknownVariable);
                        },
                    };
                    let fresh = self.fresh_reg()?;
                    self.emit(Opcode::LDRegReg(fresh, source))?;
                    self.push_reg()
                }
            },
            _ => Err(CompileError::RuleMismatch),
        }
    }

    /// Emits the opcodes that copy `count` arguments from the registers
    /// `base` and up into V0 and up.
    #[verifier::rlimit(100)]
    pub(crate) fn emit_moves(&mut self, count: u16, base: u16) -> (r: Result<(), CompileError>)
        requires
            old(self).wf(),
            count <= FIRST_RESERVED_REG,
            base + count <= FIRST_RESERVED_REG,
        ensures
            final(self).follows(
                *old(self),
                r,
                grammar::emit_all(
                    old(self).token_seq(),
                    Ok(old(self)@),
                    grammar::argument_moves(count as int, base as int),
                ),
            ),
            r is Ok ==> grammar::counts(old(self).token_seq(), old(self)@, final(self)@),
            r is Ok ==> extends(old(self)@, final(self)@),
            r is Ok ==> grammar::yields(old(self)@, final(self)@, 0),
    {
        let ghost moves = grammar::argument_moves(count as int, base as int);
        reveal(grammar::emit_all);
        proof {
            grammar::lemma_emit_all(self.token_seq(), self@, moves);
        }
        if count == 0 {
            return Ok(());
        }
        if self.previous >= self.tokens.len() {
            return Err(CompileError::UnexpectedEnd);
        }
        if self.code.len() + count as usize > ROM_CAPACITY {
            return Err(CompileError::ProgramTooLarge);
        }
        let mut i: u16 = 0;
        while i < count
            invariant
                i <= count <= FIRST_RESERVED_REG,
                self@.scope_depth == old(self)@.scope_depth,
                base + count <= FIRST_RESERVED_REG,
                moves == grammar::argument_moves(count as int, base as int),
                self.wf(),
                self.token_seq() == old(self).token_seq(),
                grammar::counts(old(self).token_seq(), old(self)@, self@),
                self@.current == old(self)@.current,
                self@.previous == old(self)@.previous,
                grammar::yields(old(self)@, self@, 0),
                self.previous < self.tokens.len(),
                self@.code.len() == old(self)@.code.len() + i,
                old(self)@.code.len() + count <= ROM_CAPACITY,
                extends(old(self)@, self@),
                grammar::emit_all(old(self).token_seq(), Ok(old(self)@), moves.take(i as int))
                    == Ok::<Draft, CompileError>(self@),
            decreases count - i,
        {
            reveal(grammar::emit_all);
            proof {
                assert(moves.take(i + 1).drop_last() =~= moves.take(i as int));
                assert(moves.take(i + 1).last() == Opcode::LDRegReg(i, (base + i) as u16));
            }
            self.emit(Opcode::LDRegReg(i, base + i))?;
            i += 1;
        }
        assert(moves.take(count as int) =~= moves);
        Ok(())
    }

    /// Compiles `DT`: the delay timer's value, or an assignment to the timer.
    #[allow(non_snake_case)]
    #[verifier::rlimit(100)]
    pub(crate) fn DT(&mut self, assign_allowed: bool) -> (r: Result<(), CompileError>)
        requires
            old(self).wf(),
            grammar::fits_last(old(self).token_seq(), old(self)@, CompileFn::DT),
        ensures
            final(self).follows(
                *old(self),
                r,
                grammar::delay_timer(old(self).token_seq(), Ok(old(self)@), assign_allowed),
            ),
            r is Ok ==> grammar::counts(old(self).token_seq(), old(self)@, final(self)@),
            r is Ok ==> extends(old(self)@, final(self)@),
            final(self).routine_law(*old(self), r, 1),
        decreases old(self).token_seq().len() - old(self)@.current, 12int,
    {
        let prev = self.last_token()?;
        let assigns = self.next_is(TokenType::Equals)? && assign_allowed;

        match prev.token_type {
            TokenType::DT => if assigns {
                self.advance()?;
                self.expression()?;
                let value = self.peek_reg_stack(0)?;
                self.emit(Opcode::LDDTReg(value))
            } else {
                let fresh = self.fresh_reg()?;
                self.emit(Opcode::LDRegDT(fresh))?;
                self.push_reg()
            },
            _ => Err(CompileError::RuleMismatch),
        }
    }

    /// Compiles `ST = expression`.
    #[allow(non_snake_case)]
    #[verifier::rlimit(100)]
    pub(crate) fn ST(&mut self, assign_allowed: bool) -> (r: Result<(), CompileError>)
        requires
            old(self).wf(),
            grammar::fits_last(old(self).token_seq(), old(self)@, CompileFn::ST),
        ensures
            final(self).follows(
                *old(self),
                r,
                grammar::sound_timer(old(self).token_seq(), Ok(old(self)@), assign_allowed),
            ),
            r is Ok ==> grammar::counts(old(self).token_seq(), old(self)@, final(self)@),
            r is Ok ==> extends(old(self)@, final(self)@),
            final(self).routine_law(*old(self), r, 1),
        decreases old(self).token_seq().len() - old(self)@.current, 12int,
    {
        let prev = self.last_token()?;
        let assigns = self.next_is(TokenType::Equals)? && assign_allowed;

        match prev.token_type {
            TokenType::ST => if assigns {
                self.advance()?;
                self.expression()?;
                let value = self.peek_reg_stack(0)?;
                self.emit(Opcode::LDSTReg(value))
            } else {
                Err(CompileError::ExpectedEquals)
            },
            _ => Err(CompileError::RuleMismatch),
        }
    }

    /// Compiles the right operand of the operator taken last, and the operator.
    #[verifier::rlimit(100)]
    pub(crate) fn binary(&mut self) -> (r: Result<(), CompileError>)
        requires
            old(self).wf(),
            grammar::fits_last(old(self).token_seq(), old(self)@, CompileFn::Binary),
        ensures
            final(self).follows(*old(self), r, grammar::binary(old(self).token_seq(), Ok(old(self)@))),
            r is Ok ==> grammar::counts(old(self).token_seq(), old(self)@, final(self)@),
            r is Ok ==> extends(old(self)@, final(self)@),
            final(self).routine_law(
                *old(self),
                r,
                grammar::weight(grammar::kind_at(old(self).token_seq(), old(self)@.previous)),
            ),
        decreases old(self).token_seq().len() - old(self)@.current, 12int,
    {
        let operator = self.last_token()?;
        let level = self.get_rule(&operator)?.precedence.to_u8();
        let next_prec = match Precedence::try_from_u8(level + 1) {
            Some(tighter) => tighter,
            None => {
                return Err(CompileError::NoRule);
            },
        };
        reveal(grammar::operate);
        self.compile_precedence(next_prec)?;

        match operator.token_type {
            TokenType::Plus => {
                let left = self.peek_reg_stack(1)?;
                let right = self.peek_reg_stack(0)?;
                self.emit(Opcode::AddRegReg(left, right))?;
                self.pop_reg()
            },
            TokenType::Minus => {
                let left = self.peek_reg_stack(1)?;
                let right = self.peek_reg_stack(0)?;
                self.emit(Opcode::SubRegReg(left, right))?;
                self.pop_reg()
            },
            TokenType::EqualsEquals => {
                let left = self.peek_reg_stack(1)?;
                let right = self.peek_reg_stack(0)?;
                self.emit(Opcode::SERegReg(left, right))?;
                self.pop_reg()?;
                self.pop_reg()
            },
            TokenType::NotEquals => {
                let left = self.peek_reg_stack(1)?;
                let right = self.peek_reg_stack(0)?;
                self.emit(Opcode::SNERegReg(left, right))?;
                self.pop_reg()?;
                self.pop_reg()
            },
            _ => Err(CompileError::RuleMismatch),
        }
    }

    /// Compiles the right operand of `or`, behind the jumps that leave it out
    /// where the left operand holds.
    #[verifier::rlimit(100)]
    pub(crate) fn or(&mut self) -> (r: Result<(), CompileError>)
        requires
            old(self).wf(),
            grammar::fits_last(old(self).token_seq(), old(self)@, CompileFn::Or),
        ensures
            final(self).follows(*old(self), r, grammar::or(old(self).token_seq(), Ok(old(self)@))),
            r is Ok ==> grammar::counts(old(self).token_seq(), old(self)@, final(self)@),
            r is Ok ==> extends(old(self)@, final(self)@),
            final(self).routine_law(*old(self), r, 1),
        decreases old(self).token_seq().len() - old(self)@.current, 12int,
    {
        let jp_condition_not_met_index = self.code.len();
        self.emit(Opcode::JP(0))?;
        let jp_condition_met_index = self.code.len();
        self.emit(Opcode::JP(0))?;

        self.patch(jp_condition_not_met_index, 0)?;
        self.compile_precedence(Precedence::Or)?;
        self.patch(jp_condition_met_index, 2)
    }

    /// Compiles the right operand of `and`, behind the jump that leaves it out
    /// where the left operand does not hold.
    #[verifier::rlimit(100)]
    pub(crate) fn and(&mut self) -> (r: Result<(), CompileError>)
        requires
            old(self).wf(),
            grammar::fits_last(old(self).token_seq(), old(self)@, CompileFn::And),
        ensures
            final(self).follows(*old(self), r, grammar::and(old(self).token_seq(), Ok(old(self)@))),
            r is Ok ==> grammar::counts(old(self).token_seq(), old(self)@, final(self)@),
            r is Ok ==> extends(old(self)@, final(self)@),
            final(self).routine_law(*old(self), r, 1),
        decreases old(self).token_seq().len() - old(self)@.current, 12int,
    {
        let jp_index = self.code.len();
        self.emit(Opcode::JP(0))?;

        self.compile_precedence(Precedence::And)?;

        self.patch(jp_index, 0)
    }
}

} // verus!
