//! What the compiler makes of a token list, as a function of the list and of
//! the compiler's state: the definition against which the compiler is proved.
//!
//! Every function here takes the outcome of the step before it and passes an
//! error through untouched, so that a construct reads as its steps in order.

use crate::compiler::{
    CompileError, CompileFn, CompileRule, CompileRuleType, Opcode, Precedence, Variable,
};
use crate::lexer::{Token, TokenKind, TokenType};
use vstd::prelude::*;

verus! {

/// A function that the program has declared.
pub ghost struct FunctionEntry {
    pub name: String,
    pub start_addr: u16,
    pub args: Seq<String>,
}

/// The compiler's state, without its tokens.
pub ghost struct Draft {
    /// The place of the next token.
    pub current: int,
    /// The place of the token taken last.
    pub previous: int,
    /// The next free register.
    pub reg_stack_top: int,
    /// How many scopes are open.
    pub scope_depth: int,
    /// The live variables, the newest last.
    pub variables: Seq<Variable>,
    /// The declared functions, the newest last.
    pub functions: Seq<FunctionEntry>,
    /// The opcodes emitted so far.
    pub code: Seq<Opcode>,
    /// For the address of each emitted opcode, the source line it came from.
    pub ram_line_map: Map<u16, u32>,
    /// The weights of the tokens taken so far, added up; the tokens of a
    /// function that is closed do not count.
    pub tally: int,
}

/// What a step of the compiler gives: the state after it, or the error that
/// ended the compilation.
pub type Outcome = Result<Draft, CompileError>;

/// A bound on the tokens still to be taken, which every construct lowers.
pub open spec fn left(t: Seq<Token>, r: Outcome) -> nat {
    match r {
        Ok(s) => if s.current < t.len() {
            (t.len() - s.current + 1) as nat
        } else {
            1
        },
        Err(_) => 0,
    }
}

/// An error stays; a state gives way to the error `e`.
pub open spec fn fail(r: Outcome, e: CompileError) -> Outcome {
    match r {
        Ok(_) => Err(e),
        Err(_) => r,
    }
}

/// The outcome `after` of a construct that began at `before`, which must have
/// taken at least one token.
pub open spec fn moved(t: Seq<Token>, before: Outcome, after: Outcome) -> Outcome {
    match (before, after) {
        (Ok(b), Ok(a)) => if b.current < a.current && b.current < t.len() {
            after
        } else {
            Err(CompileError::Stalled)
        },
        (Err(_), _) => before,
        (_, Err(_)) => after,
    }
}

/// The next token.
pub open spec fn next_token(t: Seq<Token>, r: Outcome) -> Result<Token, CompileError> {
    match r {
        Ok(s) => if 0 <= s.current < t.len() {
            Ok(t[s.current])
        } else {
            Err(CompileError::UnexpectedEnd)
        },
        Err(e) => Err(e),
    }
}

/// The kind of the next token.
pub open spec fn next_kind(t: Seq<Token>, r: Outcome) -> Result<TokenKind, CompileError> {
    match next_token(t, r) {
        Ok(token) => Ok(token.token_type@),
        Err(e) => Err(e),
    }
}

/// The token taken last.
pub open spec fn last_token(t: Seq<Token>, r: Outcome) -> Result<Token, CompileError> {
    match r {
        Ok(s) => if 0 <= s.previous < t.len() {
            Ok(t[s.previous])
        } else {
            Err(CompileError::UnexpectedEnd)
        },
        Err(e) => Err(e),
    }
}

/// Takes the next token, and adds its weight to the tally.
pub open spec fn advance(t: Seq<Token>, r: Outcome) -> Outcome {
    match r {
        Ok(s) => if 0 <= s.current < t.len() {
            Ok(
                Draft {
                    previous: s.current,
                    current: s.current + 1,
                    tally: s.tally + weight(t[s.current].token_type@),
                    ..s
                },
            )
        } else {
            Err(CompileError::UnexpectedEnd)
        },
        Err(_) => r,
    }
}

/// Takes the next token, which must be of kind `kind`.
pub open spec fn consume(t: Seq<Token>, r: Outcome, kind: TokenKind) -> Outcome {
    match next_kind(t, r) {
        Ok(k) => if k == kind {
            advance(t, r)
        } else {
            Err(CompileError::UnexpectedToken)
        },
        Err(e) => Err(e),
    }
}

/// How many opcodes have been emitted.
pub open spec fn code_len(r: Outcome) -> int {
    match r {
        Ok(s) => s.code.len() as int,
        Err(_) => 0,
    }
}

/// The next free register.
pub open spec fn top(r: Outcome) -> int {
    match r {
        Ok(s) => s.reg_stack_top,
        Err(_) => 0,
    }
}

/// Appends one opcode, and records the line of the token taken last for its
/// address. The program may not outgrow memory.
pub open spec fn emit(t: Seq<Token>, r: Outcome, op: Opcode) -> Outcome {
    match last_token(t, r) {
        Ok(token) => {
            let s = r->Ok_0;
            if s.code.len() >= 1792 {
                Err(CompileError::ProgramTooLarge)
            } else {
                Ok(
                    Draft {
                        code: s.code.push(op),
                        ram_line_map: s.ram_line_map.insert(
                            (2 * s.code.len() + 0x200) as u16,
                            token.line,
                        ),
                        ..s
                    },
                )
            }
        },
        Err(e) => Err(e),
    }
}

/// Appends opcodes one after the other.
#[verifier::opaque]
pub open spec fn emit_all(t: Seq<Token>, r: Outcome, ops: Seq<Opcode>) -> Outcome
    decreases ops.len(),
{
    if ops.len() == 0 {
        r
    } else {
        emit(t, emit_all(t, r, ops.drop_last()), ops.last())
    }
}

/// Replaces the opcode at `index` by a jump to the address `ahead` bytes past
/// the end of the program as it stands; the target must lie in memory.
pub open spec fn patch(r: Outcome, index: int, ahead: int) -> Outcome {
    match r {
        Ok(s) => {
            let target = 2 * s.code.len() + 0x200 + ahead;
            if target > 0xFFF {
                Err(CompileError::ProgramTooLarge)
            } else if 0 <= index < s.code.len() {
                Ok(Draft { code: s.code.update(index, Opcode::JP(target as u16)), ..s })
            } else {
                r
            }
        },
        Err(_) => r,
    }
}

/// Hands out the next free register; V13 and those above it are reserved.
pub open spec fn push_reg(r: Outcome) -> Outcome {
    match r {
        Ok(s) => if s.reg_stack_top >= 13 {
            Err(CompileError::OutOfRegisters)
        } else {
            Ok(Draft { reg_stack_top: s.reg_stack_top + 1, ..s })
        },
        Err(_) => r,
    }
}

/// Gives back the `n` registers handed out last.
pub open spec fn drop_regs(r: Outcome, n: int) -> Outcome {
    match r {
        Ok(s) => if s.reg_stack_top < n {
            Err(CompileError::RegisterStackUnderflow)
        } else {
            Ok(Draft { reg_stack_top: s.reg_stack_top - n, ..s })
        },
        Err(_) => r,
    }
}

/// Gives back the register handed out last.
pub open spec fn pop_reg(r: Outcome) -> Outcome {
    drop_regs(r, 1)
}

/// Emits an opcode that writes the next free register, and hands that
/// register out.
pub open spec fn emit_new(t: Seq<Token>, r: Outcome, make: spec_fn(u16) -> Opcode) -> Outcome {
    match r {
        Ok(s) => if s.reg_stack_top >= 13 {
            Err(CompileError::OutOfRegisters)
        } else {
            push_reg(emit(t, r, make(s.reg_stack_top as u16)))
        },
        Err(_) => r,
    }
}

/// Emits an opcode on the register handed out last.
pub open spec fn emit_top(t: Seq<Token>, r: Outcome, make: spec_fn(u16) -> Opcode) -> Outcome {
    match r {
        Ok(s) => if s.reg_stack_top < 1 {
            Err(CompileError::RegisterStackUnderflow)
        } else {
            emit(t, r, make((s.reg_stack_top - 1) as u16))
        },
        Err(_) => r,
    }
}

/// Emits an opcode on the two registers handed out last, the older first.
pub open spec fn emit_top2(
    t: Seq<Token>,
    r: Outcome,
    make: spec_fn(u16, u16) -> Opcode,
) -> Outcome {
    match r {
        Ok(s) => if s.reg_stack_top < 2 {
            Err(CompileError::RegisterStackUnderflow)
        } else {
            emit(t, r, make((s.reg_stack_top - 2) as u16, (s.reg_stack_top - 1) as u16))
        },
        Err(_) => r,
    }
}

/// A number literal must fit the field it is compiled into.
pub open spec fn literal(r: Outcome, n: u16, low: int, high: int) -> Outcome {
    match r {
        Ok(_) => if low <= n <= high {
            r
        } else {
            Err(CompileError::LiteralOutOfRange)
        },
        Err(_) => r,
    }
}

/// The register of the newest variable called `name`.
pub open spec fn lookup_variable(variables: Seq<Variable>, name: Seq<char>) -> Option<u16>
    decreases variables.len(),
{
    if variables.len() == 0 {
        None
    } else if variables.last().name@ == name {
        Some(variables.last().reg_index)
    } else {
        lookup_variable(variables.drop_last(), name)
    }
}

/// The newest function called `name`.
pub open spec fn lookup_function(functions: Seq<FunctionEntry>, name: Seq<char>) -> Option<
    FunctionEntry,
>
    decreases functions.len(),
{
    if functions.len() == 0 {
        None
    } else if functions.last().name@ == name {
        Some(functions.last())
    } else {
        lookup_function(functions.drop_last(), name)
    }
}

/// The register of a variable, as an outcome.
pub open spec fn variable_register(r: Outcome, name: Seq<char>) -> Result<u16, CompileError> {
    match r {
        Ok(s) => match lookup_variable(s.variables, name) {
            Some(reg) => Ok(reg),
            None => Err(CompileError::UnknownVariable),
        },
        Err(e) => Err(e),
    }
}

/// Opens a scope.
pub open spec fn enter_scope(r: Outcome) -> Outcome {
    match r {
        Ok(s) => if s.scope_depth >= 0xFFFF {
            Err(CompileError::NestingTooDeep)
        } else {
            Ok(Draft { scope_depth: s.scope_depth + 1, ..s })
        },
        Err(_) => r,
    }
}

/// Closes a scope that `clear_scope` has emptied.
pub open spec fn leave_scope(r: Outcome) -> Outcome {
    match r {
        Ok(s) => Ok(Draft { scope_depth: s.scope_depth - 1, ..s }),
        Err(_) => r,
    }
}

/// Whether a variable was declared at another depth than `depth`.
pub open spec fn outside_scope(depth: int) -> spec_fn(Variable) -> bool {
    |v: Variable| v.scope_depth != depth
}

/// Forgets the variables of the innermost scope, and gives back one register
/// for each.
pub open spec fn clear_scope(r: Outcome) -> Outcome {
    match r {
        Ok(s) => {
            let kept = s.variables.filter(outside_scope(s.scope_depth));
            drop_regs(Ok(Draft { variables: kept, ..s }), s.variables.len() - kept.len())
        },
        Err(_) => r,
    }
}

/// The tally of the tokens taken so far.
pub open spec fn tally_of(r: Outcome) -> int {
    match r {
        Ok(s) => s.tally,
        Err(_) => 0,
    }
}

/// Sets the tally.
pub open spec fn set_tally(r: Outcome, tally: int) -> Outcome {
    match r {
        Ok(s) => Ok(Draft { tally, ..s }),
        Err(_) => r,
    }
}

/// Sets the next free register.
pub open spec fn set_top(r: Outcome, top: int) -> Outcome {
    match r {
        Ok(s) => Ok(Draft { reg_stack_top: top, ..s }),
        Err(_) => r,
    }
}

/// What a call emits first: the caller's V0..V2 are stored at the frame that
/// V13 points to, and V13 moves on by three.
pub open spec fn push_frame(t: Seq<Token>, r: Outcome) -> Outcome {
    let r1 = emit(t, r, Opcode::LDFReg(0xD));
    let r2 = emit(t, r1, Opcode::LDIReg(0xD));
    let r3 = emit(t, r2, Opcode::LDRegByte(0xE, 3));
    emit(t, r3, Opcode::AddRegReg(0xD, 0xE))
}

/// What a function ends with: V13 moves back by three, V0..V2 are loaded from
/// the frame it then points to, and the function returns.
pub open spec fn pop_frame(t: Seq<Token>, r: Outcome) -> Outcome {
    let r1 = emit(t, r, Opcode::LDRegByte(0xE, 3));
    let r2 = emit(t, r1, Opcode::SubRegReg(0xD, 0xE));
    let r3 = emit(t, r2, Opcode::LDFReg(0xD));
    let r4 = emit(t, r3, Opcode::LDRegI(0xD));
    emit(t, r4, Opcode::RET)
}

/// The opcodes that copy `n` arguments from the registers `base` and up into
/// V0 and up.
pub open spec fn argument_moves(n: int, base: int) -> Seq<Opcode> {
    Seq::new(n as nat, |i: int| Opcode::LDRegReg(i as u16, (base + i) as u16))
}

/// The rule of each kind of token that may stand in an expression or end one.
pub open spec fn rule(kind: TokenKind) -> Option<CompileRule> {
    match kind {
        TokenKind::Plus | TokenKind::Minus => Some(
            CompileRule {
                precedence: Precedence::Term,
                rule_type: CompileRuleType::Infix { infix: CompileFn::Binary },
            },
        ),
        TokenKind::Equals | TokenKind::Semicolon | TokenKind::RightParen | TokenKind::Comma => Some(
            CompileRule { precedence: Precedence::Lowest, rule_type: CompileRuleType::Neither },
        ),
        TokenKind::Number(_) => Some(
            CompileRule {
                precedence: Precedence::Lowest,
                rule_type: CompileRuleType::Prefix { prefix: CompileFn::Number },
            },
        ),
        TokenKind::Identifier(_) => Some(
            CompileRule {
                precedence: Precedence::Lowest,
                rule_type: CompileRuleType::Prefix { prefix: CompileFn::Variable },
            },
        ),
        TokenKind::EqualsEquals | TokenKind::NotEquals => Some(
            CompileRule {
                precedence: Precedence::Equality,
                rule_type: CompileRuleType::Infix { infix: CompileFn::Binary },
            },
        ),
        TokenKind::And => Some(
            CompileRule {
                precedence: Precedence::And,
                rule_type: CompileRuleType::Infix { infix: CompileFn::And },
            },
        ),
        TokenKind::Or => Some(
            CompileRule {
                precedence: Precedence::Or,
                rule_type: CompileRuleType::Infix { infix: CompileFn::Or },
            },
        ),
        TokenKind::DT => Some(
            CompileRule {
                precedence: Precedence::Lowest,
                rule_type: CompileRuleType::Prefix { prefix: CompileFn::DT },
            },
        ),
        TokenKind::ST => Some(
            CompileRule {
                precedence: Precedence::Lowest,
                rule_type: CompileRuleType::Prefix { prefix: CompileFn::ST },
            },
        ),
        TokenKind::I => Some(
            CompileRule {
                precedence: Precedence::Lowest,
                rule_type: CompileRuleType::Prefix { prefix: CompileFn::I },
            },
        ),
        TokenKind::Rand => Some(
            CompileRule {
                precedence: Precedence::Lowest,
                rule_type: CompileRuleType::Prefix { prefix: CompileFn::Rand },
            },
        ),
        TokenKind::Key => Some(
            CompileRule {
                precedence: Precedence::Lowest,
                rule_type: CompileRuleType::Prefix { prefix: CompileFn::Key },
            },
        ),
        _ => None,
    }
}

/// The rule of a token, as an outcome.
pub open spec fn rule_of(token: Result<Token, CompileError>) -> Result<CompileRule, CompileError> {
    match token {
        Ok(tok) => match rule(tok.token_type@) {
            Some(rule) => Ok(rule),
            None => Err(CompileError::NoRule),
        },
        Err(e) => Err(e),
    }
}

/// A number literal: loads it into the next free register.
#[verifier::opaque]
pub open spec fn number(t: Seq<Token>, r: Outcome) -> Outcome {
    match last_token(t, r) {
        Ok(token) => match token.token_type {
            TokenType::Number(n) => emit_new(
                t,
                literal(r, n, 0, 255),
                |reg: u16| Opcode::LDRegByte(reg, n),
            ),
            _ => Err(CompileError::RuleMismatch),
        },
        Err(e) => Err(e),
    }
}

/// `I = NUMBER`: sets the index register. It takes a register though it
/// fills none.
#[verifier::opaque]
pub open spec fn index_register(t: Seq<Token>, r: Outcome, assign_allowed: bool) -> Outcome {
    match (last_token(t, r), next_kind(t, r)) {
        (Ok(last), Ok(next)) => if last.token_type@ != TokenKind::I {
            Err(CompileError::RuleMismatch)
        } else if next == TokenKind::Equals && assign_allowed {
            let r1 = advance(t, r);
            match next_token(t, r1) {
                Ok(token) => match token.token_type {
                    TokenType::Number(n) => push_reg(
                        emit(t, literal(advance(t, r1), n, 0, 0xFFF), Opcode::LDIAddr(n)),
                    ),
                    _ => Err(CompileError::ExpectedNumber),
                },
                Err(e) => Err(e),
            }
        } else {
            Err(CompileError::ExpectedEquals)
        },
        (Err(e), _) => Err(e),
        (_, Err(e)) => Err(e),
    }
}

/// `RAND(NUMBER)`: loads a random byte, masked by the literal, into the next
/// free register.
#[verifier::opaque]
pub open spec fn rand(t: Seq<Token>, r: Outcome) -> Outcome {
    match (last_token(t, r), next_kind(t, r)) {
        (Ok(last), Ok(next)) => if last.token_type@ != TokenKind::Rand {
            Err(CompileError::RuleMismatch)
        } else if next == TokenKind::LeftParen {
            let r1 = consume(t, r, TokenKind::LeftParen);
            match next_token(t, r1) {
                Ok(token) => match token.token_type {
                    TokenType::Number(n) => emit_new(
                        t,
                        literal(consume(t, advance(t, r1), TokenKind::RightParen), n, 0, 255),
                        |reg: u16| Opcode::RNDRegByte(reg, n),
                    ),
                    _ => Err(CompileError::ExpectedNumber),
                },
                Err(e) => Err(e),
            }
        } else {
            Err(CompileError::ExpectedParen)
        },
        (Err(e), _) => Err(e),
        (_, Err(e)) => Err(e),
    }
}

/// `KEY()`: waits for a key and loads it into the next free register.
#[verifier::opaque]
pub open spec fn key(t: Seq<Token>, r: Outcome) -> Outcome {
    match (last_token(t, r), next_kind(t, r)) {
        (Ok(last), Ok(next)) => if last.token_type@ != TokenKind::Key {
            Err(CompileError::RuleMismatch)
        } else if next == TokenKind::LeftParen {
            emit_new(
                t,
                consume(t, consume(t, r, TokenKind::LeftParen), TokenKind::RightParen),
                |reg: u16| Opcode::LDRegKey(reg),
            )
        } else {
            Err(CompileError::ExpectedParen)
        },
        (Err(e), _) => Err(e),
        (_, Err(e)) => Err(e),
    }
}

/// Records a function called `name`, whose body starts one instruction past
/// the end of the program as it stands.
pub open spec fn declare_function(r: Outcome, name: String) -> Outcome {
    match r {
        Ok(s) => {
            let start = 2 * s.code.len() + 0x200 + 2;
            if start > 0xFFF {
                Err(CompileError::ProgramTooLarge)
            } else {
                Ok(
                    Draft {
                        functions: s.functions.push(
                            FunctionEntry { name, start_addr: start as u16, args: Seq::empty() },
                        ),
                        ..s
                    },
                )
            }
        },
        Err(_) => r,
    }
}

/// Takes one parameter of the function declared last: the next token, an
/// identifier. It becomes a variable of the function's scope, which is open,
/// in the register after those of the parameters before it.
#[verifier::opaque]
pub open spec fn parameter(t: Seq<Token>, r: Outcome) -> Outcome {
    let r1 = advance(t, r);
    match last_token(t, r1) {
        Ok(token) => match token.token_type {
            TokenType::Identifier(name) => {
                let s = r1->Ok_0;
                if s.functions.len() == 0 {
                    Err(CompileError::UnknownFunction)
                } else if s.functions.last().args.len() >= 13 {
                    Err(CompileError::OutOfRegisters)
                } else {
                    let f = s.functions.last();
                    Ok(
                        Draft {
                            functions: s.functions.drop_last().push(
                                FunctionEntry { args: f.args.push(name), ..f },
                            ),
                            variables: s.variables.push(
                                Variable {
                                    name,
                                    reg_index: f.args.len() as u16,
                                    scope_depth: s.scope_depth as u16,
                                },
                            ),
                            ..s
                        },
                    )
                }
            },
            _ => Err(CompileError::ExpectedIdentifier),
        },
        Err(e) => Err(e),
    }
}

/// The parameters after the first, each after a comma.
#[verifier::opaque]
pub open spec fn more_parameters(t: Seq<Token>, r: Outcome) -> Outcome
    decreases left(t, r),
{
    match next_kind(t, r) {
        Ok(kind) => if kind == TokenKind::Comma {
            proof {
                reveal(parameter);
            }
            let next = parameter(t, advance(t, r));
            if next is Err {
                next
            } else {
                more_parameters(t, next)
            }
        } else {
            r
        },
        Err(e) => Err(e),
    }
}

/// The parameter list of a function, up to its closing bracket.
pub open spec fn parameters(t: Seq<Token>, r: Outcome) -> Outcome {
    match next_kind(t, r) {
        Ok(kind) => if kind == TokenKind::RightParen {
            r
        } else {
            more_parameters(t, parameter(t, r))
        },
        Err(e) => Err(e),
    }
}

/// How many parameters the function declared last has.
pub open spec fn parameter_count(r: Outcome) -> int {
    match r {
        Ok(s) => if s.functions.len() > 0 {
            s.functions.last().args.len() as int
        } else {
            0
        },
        Err(_) => 0,
    }
}

/// A parameter list takes tokens and gives none back.
pub proof fn lemma_parameters_move_on(t: Seq<Token>, r: Outcome)
    ensures
        more_parameters(t, r) is Ok ==> r is Ok && more_parameters(t, r)->Ok_0.current
            >= r->Ok_0.current,
        parameters(t, r) is Ok ==> r is Ok && parameters(t, r)->Ok_0.current >= r->Ok_0.current,
    decreases left(t, r),
{
    reveal(more_parameters);
    reveal(parameter);
    if next_kind(t, r) is Ok {
        if next_kind(t, r)->Ok_0 == TokenKind::Comma {
            lemma_parameters_move_on(t, parameter(t, advance(t, r)));
        }
        if next_kind(t, r)->Ok_0 != TokenKind::RightParen {
            lemma_parameters_move_on(t, parameter(t, r));
        }
    }
}

/// Where the opcodes fit into memory, `emit_all` appends them all and takes
/// no token; where they do not, the program is too large.
pub proof fn lemma_emit_all(t: Seq<Token>, s: Draft, ops: Seq<Opcode>)
    requires
        s.code.len() <= 1792,
    ensures
        !(0 <= s.previous < t.len()) && ops.len() > 0 ==> emit_all(t, Ok(s), ops) == Err::<
            Draft,
            CompileError,
        >(CompileError::UnexpectedEnd),
        0 <= s.previous < t.len() && s.code.len() + ops.len() <= 1792 ==> {
            let after = emit_all(t, Ok(s), ops);
            &&& after is Ok
            &&& after->Ok_0.code == s.code + ops
            &&& after->Ok_0.current == s.current
            &&& after->Ok_0.previous == s.previous
        },
        0 <= s.previous < t.len() && s.code.len() + ops.len() > 1792 ==> emit_all(
            t,
            Ok(s),
            ops,
        ) == Err::<
            Draft,
            CompileError,
        >(CompileError::ProgramTooLarge),
    decreases ops.len(),
{
    reveal(emit_all);
    if ops.len() > 0 {
        lemma_emit_all(t, s, ops.drop_last());
        if s.code.len() + ops.len() <= 1792 {
            assert((s.code + ops.drop_last()).push(ops.last()) =~= s.code + ops);
        }
    } else {
        assert(s.code + ops =~= s.code);
    }
}

/// `emit_all` passes an error through.
pub proof fn lemma_emit_all_passes(t: Seq<Token>, e: CompileError, ops: Seq<Opcode>)
    ensures
        emit_all(t, Err(e), ops) == Err::<Draft, CompileError>(e),
    decreases ops.len(),
{
    reveal(emit_all);
    if ops.len() > 0 {
        lemma_emit_all_passes(t, e, ops.drop_last());
    }
}

/// A whole program: declarations up to the end-of-file marker.
pub open spec fn program(t: Seq<Token>, r: Outcome) -> Outcome
    decreases left(t, r), 10int,
{
    match next_kind(t, r) {
        Ok(kind) => if kind == TokenKind::EndOfFile {
            r
        } else {
            let next = moved(t, r, declaration(t, r));
            if next is Err {
                next
            } else {
                program(t, next)
            }
        },
        Err(e) => Err(e),
    }
}

/// The declarations of a block, and the brace that closes it.
pub open spec fn block(t: Seq<Token>, r: Outcome) -> Outcome
    decreases left(t, r), 9int,
{
    match next_kind(t, r) {
        Ok(kind) => if kind == TokenKind::RightBrace || kind == TokenKind::EndOfFile {
            consume(t, r, TokenKind::RightBrace)
        } else {
            let next = moved(t, r, declaration(t, r));
            if next is Err {
                next
            } else {
                block(t, next)
            }
        },
        Err(e) => Err(e),
    }
}

/// A function, a variable or a statement.
pub open spec fn declaration(t: Seq<Token>, r: Outcome) -> Outcome
    decreases left(t, r), 8int,
{
    match next_kind(t, r) {
        Ok(kind) => if kind == TokenKind::Fn {
            fn_declaration(t, advance(t, r))
        } else if kind == TokenKind::Var {
            var_declaration(t, advance(t, r))
        } else {
            statement(t, r)
        },
        Err(e) => Err(e),
    }
}

/// `IDENT ( parameters ) { body }`, after `fn`. The function's scope holds
/// its parameters, which lie in V0 and up, and the variables of its body; the
/// body is compiled in place behind a jump that leads past it, and ends with
/// the frame's epilogue. When the scope closes, parameters and variables are
/// forgotten, and the register stack is what it was before the function.
pub open spec fn fn_declaration(t: Seq<Token>, r: Outcome) -> Outcome
    decreases left(t, r), 7int,
{
    match next_token(t, r) {
        Ok(token) => match token.token_type {
            TokenType::Identifier(name) => {
                let r1 = consume(
                    t,
                    enter_scope(declare_function(advance(t, r), name)),
                    TokenKind::LeftParen,
                );
                let r2 = parameters(t, r1);
                let r3 = consume(
                    t,
                    consume(t, r2, TokenKind::RightParen),
                    TokenKind::LeftBrace,
                );
                let r4 = set_top(r3, parameter_count(r3));
                let r5 = emit(t, r4, Opcode::JP(0));
                proof {
                    lemma_parameters_move_on(t, r1);
                }
                let r6 = pop_frame(t, block(t, r5));
                let r7 = clear_scope(patch(r6, code_len(r4), 0));
                set_tally(set_top(leave_scope(r7), top(r3)), tally_of(r))
            },
            _ => Err(CompileError::ExpectedIdentifier),
        },
        Err(e) => Err(e),
    }
}

/// `IDENT = expression ;`, after `var`. The variable takes the next free
/// register, which the initialiser then fills.
pub open spec fn var_declaration(t: Seq<Token>, r: Outcome) -> Outcome
    decreases left(t, r), 7int,
{
    match next_token(t, r) {
        Ok(token) => match token.token_type {
            TokenType::Identifier(name) => {
                let s = r->Ok_0;
                let r1 = advance(
                    t,
                    Ok(
                        Draft {
                            variables: s.variables.push(
                                Variable {
                                    name,
                                    reg_index: s.reg_stack_top as u16,
                                    scope_depth: s.scope_depth as u16,
                                },
                            ),
                            ..s
                        },
                    ),
                );
                match next_kind(t, r1) {
                    Ok(kind) => if kind == TokenKind::Equals {
                        consume(t, expression(t, advance(t, r1)), TokenKind::Semicolon)
                    } else {
                        Err(CompileError::MissingInitialiser)
                    },
                    Err(e) => Err(e),
                }
            },
            _ => Err(CompileError::ExpectedIdentifier),
        },
        Err(e) => Err(e),
    }
}

/// A block in braces, `if`, `while`, `DRAW`, or an expression and its
/// semicolon.
pub open spec fn statement(t: Seq<Token>, r: Outcome) -> Outcome
    decreases left(t, r), 7int,
{
    match next_kind(t, r) {
        Ok(kind) => if kind == TokenKind::LeftBrace {
            leave_scope(clear_scope(block(t, enter_scope(advance(t, r)))))
        } else if kind == TokenKind::If {
            if_statement(t, advance(t, r))
        } else if kind == TokenKind::While {
            while_statement(t, advance(t, r))
        } else if kind == TokenKind::Draw {
            draw_statement(t, advance(t, r))
        } else {
            expression_statement(t, r)
        },
        Err(e) => Err(e),
    }
}

/// `( condition ) statement`, and `else statement` where it follows, after
/// `if`. Behind the condition stands a jump, which a true condition skips:
/// past the statement, or to the `else` branch, which the statement in turn
/// ends by jumping over.
pub open spec fn if_statement(t: Seq<Token>, r: Outcome) -> Outcome
    decreases left(t, r), 7int,
{
    if r is Err {
        r
    } else {
        let r1 = consume(t, r, TokenKind::LeftParen);
        let r2 = consume(t, moved(t, r1, expression(t, r1)), TokenKind::RightParen);
        let r3 = emit(t, r2, Opcode::JP(0));
        let r4 = moved(t, r3, statement(t, r3));
        match next_kind(t, r4) {
            Ok(kind) => if kind == TokenKind::Else {
                let r5 = advance(t, patch(r4, code_len(r2), 2));
                let r6 = statement(t, emit(t, r5, Opcode::JP(0)));
                patch(r6, code_len(r5), 0)
            } else {
                patch(r4, code_len(r2), 0)
            },
            Err(e) => Err(e),
        }
    }
}

/// `( condition ) statement`, after `while`. Behind the condition stands a
/// jump past the loop, which a true condition skips; the statement ends with
/// a jump back to the condition.
pub open spec fn while_statement(t: Seq<Token>, r: Outcome) -> Outcome
    decreases left(t, r), 7int,
{
    if r is Err {
        r
    } else {
        let r1 = consume(t, r, TokenKind::LeftParen);
        let r2 = consume(t, moved(t, r1, expression(t, r1)), TokenKind::RightParen);
        let r3 = statement(t, emit(t, r2, Opcode::JP(0)));
        patch(emit(t, r3, Opcode::JP(loop_start(r))), code_len(r2), 0)
    }
}

/// The address of the next instruction to be emitted, to which a loop that
/// starts here jumps back.
pub open spec fn loop_start(r: Outcome) -> u16 {
    if code_len(r) <= 1792 {
        (2 * code_len(r) + 0x200) as u16
    } else {
        0
    }
}

/// `( expression , expression , NUMBER ) ;`, after `DRAW`: draws the sprite
/// of that many rows, one to fifteen, at the two coordinates.
pub open spec fn draw_statement(t: Seq<Token>, r: Outcome) -> Outcome
    decreases left(t, r), 7int,
{
    if r is Err {
        r
    } else {
        let r1 = consume(t, r, TokenKind::LeftParen);
        let r2 = consume(t, moved(t, r1, expression(t, r1)), TokenKind::Comma);
        let r3 = consume(t, expression(t, r2), TokenKind::Comma);
        match next_token(t, r3) {
            Ok(token) => match token.token_type {
                TokenType::Number(n) => {
                    let r4 = literal(
                        consume(t, advance(t, r3), TokenKind::RightParen),
                        n,
                        1,
                        15,
                    );
                    let r5 = emit_top2(
                        t,
                        r4,
                        |x: u16, y: u16| Opcode::DRWRegRegNibble(x, y, n),
                    );
                    consume(t, pop_reg(pop_reg(r5)), TokenKind::Semicolon)
                },
                _ => Err(CompileError::ExpectedNumber),
            },
            Err(e) => Err(e),
        }
    }
}

/// An expression and its semicolon; the expression's register is given back.
pub open spec fn expression_statement(t: Seq<Token>, r: Outcome) -> Outcome
    decreases left(t, r), 6int,
{
    pop_reg(consume(t, expression(t, r), TokenKind::Semicolon))
}

/// An expression: operators of every precedence from assignment up.
pub open spec fn expression(t: Seq<Token>, r: Outcome) -> Outcome
    decreases left(t, r), 5int,
{
    compile_precedence(t, r, Precedence::Assignment)
}

/// An expression whose operators bind at least as tightly as `precedence`:
/// the next token's prefix routine, then, as long as the token that follows
/// binds tightly enough, that token's infix routine.
pub open spec fn compile_precedence(t: Seq<Token>, r: Outcome, precedence: Precedence) -> Outcome
    decreases left(t, r), 4int,
{
    let assign_allowed = precedence.level() <= Precedence::Assignment.level();
    let r1 = advance(t, r);
    match rule_of(last_token(t, r1)) {
        Ok(rule) => match rule.rule_type.prefix_fn() {
            Some(prefix) => infix_loop(
                t,
                moved(t, r, run(t, r1, prefix, assign_allowed)),
                precedence,
                assign_allowed,
            ),
            None => Err(CompileError::NoPrefixRule),
        },
        Err(e) => Err(e),
    }
}

/// The operators and right operands of an expression whose left operand has
/// been compiled.
pub open spec fn infix_loop(
    t: Seq<Token>,
    r: Outcome,
    precedence: Precedence,
    assign_allowed: bool,
) -> Outcome
    decreases left(t, r), 3int,
{
    match rule_of(next_token(t, r)) {
        Ok(rule) => if precedence.level() <= rule.precedence.level() {
            let r1 = advance(t, r);
            let r2 = match rule.rule_type.infix_fn() {
                Some(infix) => run(t, r1, infix, assign_allowed),
                None => r1,
            };
            let next = moved(t, r, r2);
            if next is Err {
                next
            } else {
                infix_loop(t, next, precedence, assign_allowed)
            }
        } else {
            r
        },
        Err(e) => Err(e),
    }
}

/// The routine that a rule names, on the token taken last.
pub open spec fn run(t: Seq<Token>, r: Outcome, routine: CompileFn, assign_allowed: bool) -> Outcome
    decreases left(t, r), 13int,
{
    if r is Err {
        r
    } else {
        match routine {
            CompileFn::Number => number(t, r),
            CompileFn::Variable => variable(t, r, assign_allowed),
            CompileFn::Binary => binary(t, r),
            CompileFn::And => and(t, r),
            CompileFn::Or => or(t, r),
            CompileFn::DT => delay_timer(t, r, assign_allowed),
            CompileFn::ST => sound_timer(t, r, assign_allowed),
            CompileFn::I => index_register(t, r, assign_allowed),
            CompileFn::Rand => rand(t, r),
            CompileFn::Key => key(t, r),
        }
    }
}

/// An identifier: an assignment where `=` follows and assignment is allowed,
/// a call where `(` follows, and else the variable's value in the next free
/// register. Each of the three takes one register. A call must have as many
/// arguments as the function has parameters.
pub open spec fn variable(t: Seq<Token>, r: Outcome, assign_allowed: bool) -> Outcome
    decreases left(t, r), 12int,
{
    match (last_token(t, r), next_kind(t, r)) {
        (Ok(last), Ok(next)) => match last.token_type {
            TokenType::Identifier(name) => if next == TokenKind::Equals && assign_allowed {
                let r1 = expression(t, advance(t, r));
                match variable_register(r1, name@) {
                    Ok(reg) => push_reg(
                        pop_reg(emit_top(t, r1, |value: u16| Opcode::LDRegReg(reg, value))),
                    ),
                    Err(e) => Err(e),
                }
            } else if next == TokenKind::LeftParen {
                let r0 = push_frame(t, advance(t, r));
                let r1 = arguments(t, r0);
                match r1 {
                    Ok(s) => match lookup_function(s.functions, name@) {
                        Some(f) => {
                            let n = f.args.len() as int;
                            if argument_count(t, r0) != n {
                                Err(CompileError::ArityMismatch)
                            } else {
                                let r2 = emit_all(
                                    t,
                                    drop_regs(r1, n),
                                    argument_moves(n, s.reg_stack_top - n),
                                );
                                push_reg(
                                    emit(
                                        t,
                                        consume(t, r2, TokenKind::RightParen),
                                        Opcode::CALL(f.start_addr),
                                    ),
                                )
                            }
                        },
                        None => Err(CompileError::UnknownFunction),
                    },
                    Err(e) => Err(e),
                }
            } else {
                match variable_register(r, name@) {
                    Ok(reg) => emit_new(t, r, |fresh: u16| Opcode::LDRegReg(fresh, reg)),
                    Err(e) => Err(e),
                }
            },
            _ => Err(CompileError::RuleMismatch),
        },
        (Err(e), _) => Err(e),
        (_, Err(e)) => Err(e),
    }
}

/// The arguments of a call, up to its closing bracket.
pub open spec fn arguments(t: Seq<Token>, r: Outcome) -> Outcome
    decreases left(t, r), 11int,
{
    match next_kind(t, r) {
        Ok(kind) => if kind == TokenKind::RightParen {
            r
        } else {
            more_arguments(t, moved(t, r, expression(t, r)))
        },
        Err(e) => Err(e),
    }
}

/// The arguments after the first, each after a comma.
pub open spec fn more_arguments(t: Seq<Token>, r: Outcome) -> Outcome
    decreases left(t, r), 11int,
{
    match next_kind(t, r) {
        Ok(kind) => if kind == TokenKind::Comma {
            let next = moved(t, r, expression(t, advance(t, r)));
            if next is Err {
                next
            } else {
                more_arguments(t, next)
            }
        } else {
            r
        },
        Err(e) => Err(e),
    }
}

/// How many arguments a call has.
pub open spec fn argument_count(t: Seq<Token>, r: Outcome) -> int
    decreases left(t, r), 11int,
{
    match next_kind(t, r) {
        Ok(kind) => if kind == TokenKind::RightParen {
            0
        } else {
            1 + more_argument_count(t, moved(t, r, expression(t, r)))
        },
        Err(_) => 0,
    }
}

/// How many arguments of a call follow the first ones, each after a comma.
pub open spec fn more_argument_count(t: Seq<Token>, r: Outcome) -> int
    decreases left(t, r), 11int,
{
    match next_kind(t, r) {
        Ok(kind) => if kind == TokenKind::Comma {
            let next = moved(t, r, expression(t, advance(t, r)));
            if next is Err {
                0
            } else {
                1 + more_argument_count(t, next)
            }
        } else {
            0
        },
        Err(_) => 0,
    }
}

/// `DT`: the delay timer's value in the next free register; or, where `=`
/// follows and assignment is allowed, the expression after it, whose value
/// is also stored in the timer.
pub open spec fn delay_timer(t: Seq<Token>, r: Outcome, assign_allowed: bool) -> Outcome
    decreases left(t, r), 12int,
{
    match (last_token(t, r), next_kind(t, r)) {
        (Ok(last), Ok(next)) => if last.token_type@ != TokenKind::DT {
            Err(CompileError::RuleMismatch)
        } else if next == TokenKind::Equals && assign_allowed {
            emit_top(t, expression(t, advance(t, r)), |value: u16| Opcode::LDDTReg(value))
        } else {
            emit_new(t, r, |fresh: u16| Opcode::LDRegDT(fresh))
        },
        (Err(e), _) => Err(e),
        (_, Err(e)) => Err(e),
    }
}

/// `ST = expression`: the expression, whose value is also stored in the
/// sound timer. The sound timer cannot be read.
pub open spec fn sound_timer(t: Seq<Token>, r: Outcome, assign_allowed: bool) -> Outcome
    decreases left(t, r), 12int,
{
    match (last_token(t, r), next_kind(t, r)) {
        (Ok(last), Ok(next)) => if last.token_type@ != TokenKind::ST {
            Err(CompileError::RuleMismatch)
        } else if next == TokenKind::Equals && assign_allowed {
            emit_top(t, expression(t, advance(t, r)), |value: u16| Opcode::LDSTReg(value))
        } else {
            Err(CompileError::ExpectedEquals)
        },
        (Err(e), _) => Err(e),
        (_, Err(e)) => Err(e),
    }
}

/// What an operator emits once both operands lie in the two registers handed
/// out last: a sum or a difference replaces them by one register; a
/// comparison gives both back, and skips the next instruction where it holds.
#[verifier::opaque]
pub open spec fn operate(t: Seq<Token>, r: Outcome, operator: TokenKind) -> Outcome {
    match operator {
        TokenKind::Plus => pop_reg(emit_top2(t, r, |a: u16, b: u16| Opcode::AddRegReg(a, b))),
        TokenKind::Minus => pop_reg(emit_top2(t, r, |a: u16, b: u16| Opcode::SubRegReg(a, b))),
        TokenKind::EqualsEquals => pop_reg(
            pop_reg(emit_top2(t, r, |a: u16, b: u16| Opcode::SERegReg(a, b))),
        ),
        TokenKind::NotEquals => pop_reg(
            pop_reg(emit_top2(t, r, |a: u16, b: u16| Opcode::SNERegReg(a, b))),
        ),
        _ => fail(r, CompileError::RuleMismatch),
    }
}

/// The right operand of the operator taken last, which binds one level
/// tighter than the operator, and then the operator itself.
pub open spec fn binary(t: Seq<Token>, r: Outcome) -> Outcome
    decreases left(t, r), 12int,
{
    match rule_of(last_token(t, r)) {
        Ok(rule) => match Precedence::at_level(rule.precedence.level() + 1) {
            Some(tighter) => operate(
                t,
                compile_precedence(t, r, tighter),
                last_token(t, r)->Ok_0.token_type@,
            ),
            None => Err(CompileError::NoRule),
        },
        Err(e) => Err(e),
    }
}

/// `or`, after its left operand: a jump to the right operand, which a true
/// left operand skips, then a jump past the instruction that follows the
/// right operand.
pub open spec fn or(t: Seq<Token>, r: Outcome) -> Outcome
    decreases left(t, r), 12int,
{
    let r1 = patch(emit(t, emit(t, r, Opcode::JP(0)), Opcode::JP(0)), code_len(r), 0);
    patch(compile_precedence(t, r1, Precedence::Or), code_len(r) + 1, 2)
}

/// `and`, after its left operand: a jump past the right operand, which a
/// true left operand skips.
pub open spec fn and(t: Seq<Token>, r: Outcome) -> Outcome
    decreases left(t, r), 12int,
{
    patch(compile_precedence(t, emit(t, r, Opcode::JP(0)), Precedence::And), code_len(r), 0)
}

/// The kind of the token at place `p`.
pub open spec fn kind_at(t: Seq<Token>, p: int) -> TokenKind {
    t[p].token_type@
}

/// What a token adds to the registers that are left in use behind the
/// statement it stands in: a condition leaves one behind `if` and behind
/// `while`, a right operand leaves one behind `and` and behind `or`, and a
/// comparison gives back the one that its left operand took.
pub open spec fn weight(kind: TokenKind) -> int {
    if kind == TokenKind::If || kind == TokenKind::While || kind == TokenKind::And || kind
        == TokenKind::Or {
        1
    } else if kind == TokenKind::EqualsEquals || kind == TokenKind::NotEquals {
        -1
    } else {
        0
    }
}

/// Where a place in the tokens lies: outside every function, in the head of
/// a function between `fn` and the brace that opens its body, or inside the
/// body of a function, in so many blocks of it that are open.
pub ghost enum Region {
    Outside,
    Head,
    Inside(nat),
}

/// Where the place behind a token lies, by where the token lies.
pub open spec fn region_step(region: Region, kind: TokenKind) -> Region {
    match region {
        Region::Outside => if kind == TokenKind::Fn {
            Region::Head
        } else {
            Region::Outside
        },
        Region::Head => if kind == TokenKind::LeftBrace {
            Region::Inside(0)
        } else {
            Region::Head
        },
        Region::Inside(blocks) => if kind == TokenKind::LeftBrace {
            Region::Inside(blocks + 1)
        } else if kind == TokenKind::RightBrace {
            if blocks == 0 {
                Region::Outside
            } else {
                Region::Inside((blocks - 1) as nat)
            }
        } else {
            Region::Inside(blocks)
        },
    }
}

/// Where place `upto` of the tokens lies.
#[verifier::opaque]
pub open spec fn region(t: Seq<Token>, upto: int) -> Region
    decreases upto,
{
    if upto <= 0 {
        Region::Outside
    } else if upto > t.len() {
        region(t, upto - 1)
    } else {
        region_step(region(t, upto - 1), kind_at(t, upto - 1))
    }
}

/// The weights of the tokens before place `upto` that lie outside every
/// function, added up.
#[verifier::opaque]
pub open spec fn outer_tally(t: Seq<Token>, upto: int) -> int
    decreases upto,
{
    if upto <= 0 {
        0
    } else if upto > t.len() || !(region(t, upto - 1) is Outside) {
        outer_tally(t, upto - 1)
    } else {
        outer_tally(t, upto - 1) + weight(kind_at(t, upto - 1))
    }
}

/// From `before` to `after` the tally has kept count of the tokens: where
/// the tokens that were taken start outside every function, they end there,
/// and the tally has grown by the weights of those of them that lie outside
/// every function; where they start inside a function, they end in the same
/// block of it, and none of them lies outside.
pub open spec fn counts(t: Seq<Token>, before: Draft, after: Draft) -> bool {
    match region(t, before.current) {
        Region::Outside => region(t, after.current) is Outside && after.tally - before.tally
            == outer_tally(t, after.current) - outer_tally(t, before.current),
        Region::Inside(blocks) => region(t, after.current) == Region::Inside(blocks)
            && outer_tally(t, after.current) == outer_tally(t, before.current),
        Region::Head => true,
    }
}

/// What `counts` says, for tokens that end with the brace that closes a
/// block: where they start inside a function, they end behind that block.
pub open spec fn counts_to_brace(t: Seq<Token>, before: Draft, after: Draft) -> bool {
    match region(t, before.current) {
        Region::Outside => region(t, after.current) is Outside && after.tally - before.tally
            == outer_tally(t, after.current) - outer_tally(t, before.current),
        Region::Inside(blocks) => region(t, after.current) == region_step(
            Region::Inside(blocks),
            TokenKind::RightBrace,
        ) && outer_tally(t, after.current) == outer_tally(t, before.current),
        Region::Head => true,
    }
}

/// What `counts` says, for the tokens of a function behind its `fn`: where
/// they start in the head of a function, they end outside it with the tally
/// unchanged.
pub open spec fn counts_function(t: Seq<Token>, before: Draft, after: Draft) -> bool {
    match region(t, before.current) {
        Region::Head => region(t, after.current) is Outside && after.tally == before.tally
            && outer_tally(t, after.current) == outer_tally(t, before.current),
        Region::Inside(blocks) => region(t, after.current) == Region::Inside(blocks)
            && outer_tally(t, after.current) == outer_tally(t, before.current),
        Region::Outside => true,
    }
}

/// What `counts` says, for the tokens of a parameter list: they start and
/// end in the head of a function, or in the same block inside one.
pub open spec fn counts_head(t: Seq<Token>, before: Draft, after: Draft) -> bool {
    match region(t, before.current) {
        Region::Head => region(t, after.current) is Head && outer_tally(t, after.current)
            == outer_tally(t, before.current),
        Region::Inside(blocks) => region(t, after.current) == Region::Inside(blocks)
            && outer_tally(t, after.current) == outer_tally(t, before.current),
        Region::Outside => true,
    }
}

/// What taking one token does to the place in the tokens and to their
/// tally.
pub open spec fn counts_token(t: Seq<Token>, before: Draft, after: Draft) -> bool {
    &&& after.current == before.current + 1
    &&& region(t, after.current) == region_step(
        region(t, before.current),
        kind_at(t, before.current),
    )
    &&& outer_tally(t, after.current) == outer_tally(t, before.current) + if region(
        t,
        before.current,
    ) is Outside {
        weight(kind_at(t, before.current))
    } else {
        0
    }
    &&& after.tally == before.tally + weight(kind_at(t, before.current))
}

/// The registers in use that neither a variable nor the tally accounts for.
pub open spec fn slack(s: Draft) -> int {
    s.reg_stack_top - s.variables.len() - s.tally
}

/// From `before` to `after` the slack has grown by `grown`, and no variable
/// has come or gone.
pub open spec fn yields(before: Draft, after: Draft, grown: int) -> bool {
    &&& slack(after) == slack(before) + grown
    &&& after.variables == before.variables
}

/// From `before` to `after` the slack has grown by `grown`.
pub open spec fn keeps_balance(before: Draft, after: Draft, grown: int) -> bool {
    slack(after) == slack(before) + grown
}

/// From `before` to `after` the variables have only grown, by variables of
/// the scope that is open.
pub open spec fn grows(before: Draft, after: Draft) -> bool {
    &&& before.variables.len() <= after.variables.len()
    &&& forall|i: int|
        0 <= i < before.variables.len() ==> after.variables[i] == before.variables[i]
    &&& forall|i: int|
        before.variables.len() <= i < after.variables.len() ==> (
        #[trigger] after.variables[i]).scope_depth == before.scope_depth
}

/// Where the first `n` variables belong to other scopes than the one at
/// `depth` and the others belong to it, forgetting that scope leaves the
/// first `n`.
pub proof fn lemma_clear_scope_leaves_outer(variables: Seq<Variable>, n: int, depth: int)
    requires
        0 <= n <= variables.len(),
        forall|i: int| 0 <= i < n ==> (#[trigger] variables[i]).scope_depth != depth,
        forall|i: int| n <= i < variables.len() ==> (#[trigger] variables[i]).scope_depth == depth,
    ensures
        variables.filter(outside_scope(depth)) == variables.take(n),
    decreases variables.len(),
{
    reveal(Seq::filter);
    if variables.len() == 0 {
        assert(variables.take(n) =~= variables);
    } else if variables.len() == n {
        lemma_clear_scope_leaves_outer(variables.drop_last(), n - 1, depth);
        assert(variables.drop_last().take(n - 1).push(variables.last()) =~= variables.take(n));
    } else {
        lemma_clear_scope_leaves_outer(variables.drop_last(), n, depth);
        assert(variables.drop_last().take(n) =~= variables.take(n));
    }
}

/// After a whole program, compiled from its start with an empty register
/// stack, the next free register is the number of variables that are left
/// and as many more as the tokens outside functions hold `if`, `while`,
/// `and` and `or` more than comparisons.
pub proof fn lemma_registers_of_a_program(t: Seq<Token>, before: Draft, after: Draft)
    requires
        keeps_balance(before, after, 0),
        counts(t, before, after),
        before.current == 0,
        before.reg_stack_top == before.variables.len(),
    ensures
        after.reg_stack_top == after.variables.len() + outer_tally(t, after.current),
{
    reveal(region);
    reveal(outer_tally);
}

/// After a whole program, compiled from its start with an empty register
/// stack, whose tokens outside functions hold as many comparisons as they
/// hold `if`, `while`, `and` and `or`, the next free register is the number
/// of variables that are left.
pub proof fn lemma_one_register_for_each_variable(t: Seq<Token>, before: Draft, after: Draft)
    requires
        keeps_balance(before, after, 0),
        counts(t, before, after),
        before.current == 0,
        before.reg_stack_top == before.variables.len(),
        outer_tally(t, after.current) == 0,
    ensures
        after.reg_stack_top == after.variables.len(),
{
    lemma_registers_of_a_program(t, before, after);
}

/// Whether a routine is the one for a kind of token: the routine that the
/// kind's rule names for the start of an expression or for the place between
/// two operands.
pub open spec fn fits(routine: CompileFn, kind: TokenKind) -> bool {
    match rule(kind) {
        Some(rule) => rule.rule_type.prefix_fn() == Some(routine) || rule.rule_type.infix_fn()
            == Some(routine),
        None => false,
    }
}

/// Whether a routine is the one for the token taken last, where there is
/// such a token.
pub open spec fn fits_last(t: Seq<Token>, s: Draft, routine: CompileFn) -> bool {
    0 <= s.previous < t.len() ==> fits(routine, kind_at(t, s.previous))
}

/// By how much a routine that is run on a token of kind `kind` lets the
/// slack grow: an operator's routine by the operator's weight, and every
/// other routine by the register that holds its value.
pub open spec fn growth(routine: CompileFn, kind: TokenKind) -> int {
    if routine == CompileFn::Binary || routine == CompileFn::And || routine == CompileFn::Or {
        weight(kind)
    } else {
        1
    }
}

} // verus!
