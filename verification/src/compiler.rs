//! The single-pass compiler: from tokens to symbolic CHIP-8 opcodes.

use crate::grammar;
use crate::grammar::{Draft, FunctionEntry, Outcome};
use crate::lexer::{Lexer, Token, TokenKind, TokenType};
use crate::text::{decimal_text, join, joined, push_decimal};
use std::collections::HashMap;
use vstd::prelude::*;
use vstd::string::*;

mod declarations;
mod expressions;
mod statements;

verus! {

/// The address at which a program is loaded.
pub const ROM_START: u16 = 0x200;

/// The last address of memory.
pub const LAST_ADDR: u16 = 0xFFF;

/// How many instructions fit between `ROM_START` and the end of memory.
pub const ROM_CAPACITY: usize = 1792;

/// The first register that the register stack may not hand out: V13 is the
/// frame pointer, V14 a scratch register and V15 the flag register.
pub const FIRST_RESERVED_REG: u16 = 13;

/// How tightly an operator binds, from `Lowest` to `Primary`.
#[derive(Debug, Clone, Copy, PartialEq, Eq, PartialOrd, Structural)]
pub enum Precedence {
    Lowest,
    Assignment,
    Or,
    And,
    Equality,
    Term,  /* + and - */
    Factor,  /* * and / */
    Primary,
}

impl Precedence {
    /// The place of the precedence in the order from `Lowest` to
    /// `Primary`, the highest.
    pub open spec fn level(self) -> u8 {
        match self {
            Precedence::Lowest => 0,
            Precedence::Assignment => 1,
            Precedence::Or => 2,
            Precedence::And => 3,
            Precedence::Equality => 4,
            Precedence::Term => 5,
            Precedence::Factor => 6,
            Precedence::Primary => 7,
        }
    }

    /// The precedence at a place in the order, if there is one.
    pub open spec fn at_level(level: int) -> Option<Precedence> {
        if level == 0 {
            Some(Precedence::Lowest)
        } else if level == 1 {
            Some(Precedence::Assignment)
        } else if level == 2 {
            Some(Precedence::Or)
        } else if level == 3 {
            Some(Precedence::And)
        } else if level == 4 {
            Some(Precedence::Equality)
        } else if level == 5 {
            Some(Precedence::Term)
        } else if level == 6 {
            Some(Precedence::Factor)
        } else if level == 7 {
            Some(Precedence::Primary)
        } else {
            None
        }
    }

    /// The place of the precedence in the order.
    pub fn to_u8(self) -> (r: u8)
        ensures
            r == self.level(),
    {
        match self {
            Precedence::Lowest => 0,
            Precedence::Assignment => 1,
            Precedence::Or => 2,
            Precedence::And => 3,
            Precedence::Equality => 4,
            Precedence::Term => 5,
            Precedence::Factor => 6,
            Precedence::Primary => 7,
        }
    }

    /// The precedence at a place in the order; `None` past `Primary`.
    pub fn try_from_u8(level: u8) -> (r: Option<Precedence>)
        ensures
            r == Precedence::at_level(level as int),
    {
        if level == 0 {
            Some(Precedence::Lowest)
        } else if level == 1 {
            Some(Precedence::Assignment)
        } else if level == 2 {
            Some(Precedence::Or)
        } else if level == 3 {
            Some(Precedence::And)
        } else if level == 4 {
            Some(Precedence::Equality)
        } else if level == 5 {
            Some(Precedence::Term)
        } else if level == 6 {
            Some(Precedence::Factor)
        } else if level == 7 {
            Some(Precedence::Primary)
        } else {
            None
        }
    }
}

/// Why a program was not compiled.
#[derive(Debug, Clone, Copy, PartialEq, Eq, Structural)]
pub enum CompileError {
    /// The tokens ended where one more was needed.
    UnexpectedEnd,
    /// A token of one kind was required, and another was found.
    UnexpectedToken,
    /// A token stands in or behind an expression that has no rule there.
    NoRule,
    /// A token stands at the start of an expression that cannot start one.
    NoPrefixRule,
    /// A routine was run on a token that is not its own. The compiler runs
    /// the routine that a token's rule names, and no function of the
    /// compiler returns this.
    RuleMismatch,
    /// The name of a function, a parameter or a variable is missing.
    ExpectedIdentifier,
    /// A variable is declared without `=` and a value.
    MissingInitialiser,
    /// A number literal is required; a variable or an expression will not do.
    ExpectedNumber,
    /// `ST` or `I` is read; they can only be assigned to.
    ExpectedEquals,
    /// `RAND` or `KEY` is not followed by `(`.
    ExpectedParen,
    /// A variable is used that no live declaration names.
    UnknownVariable,
    /// A function is called that no declaration names.
    UnknownFunction,
    /// A function is called with more or fewer arguments than it has
    /// parameters.
    ArityMismatch,
    /// A number literal does not fit the field of its instruction.
    LiteralOutOfRange,
    /// Variables and temporaries need more than the thirteen free registers.
    OutOfRegisters,
    /// A register is given back when none is held.
    RegisterStackUnderflow,
    /// The program, or a jump in it, reaches past the end of memory.
    ProgramTooLarge,
    /// More scopes are open than a 16-bit counter counts.
    NestingTooDeep,
    /// A construct ended without having taken a token. The grammar has no
    /// such construct, and no function of the compiler returns this.
    Stalled,
}

/// A variable: its name, its register, and the depth of the scope that
/// declared it.
#[derive(Debug)]
pub struct Variable {
    pub name: String,
    pub reg_index: u16,
    pub scope_depth: u16,
}

impl Clone for Variable {
    fn clone(&self) -> (r: Self)
        ensures
            r == *self,
    {
        Variable {
            name: self.name.clone(),
            reg_index: self.reg_index,
            scope_depth: self.scope_depth,
        }
    }
}

impl Variable {
    /// A variable of that name, register and depth.
    pub fn new(name: String, reg_index: u16, scope_depth: u16) -> (r: Variable)
        ensures
            r == (Variable { name, reg_index, scope_depth }),
    {
        Variable { name, reg_index, scope_depth }
    }
}

/// A function: the address of the first instruction of its body, and the
/// names of its parameters.
#[derive(Debug)]
pub struct Function {
    pub start_addr: u16,
    pub args: Vec<String>,
}

impl Function {
    /// A function at that address, without parameters.
    pub fn new(start_addr: u16) -> (r: Function)
        ensures
            r.start_addr == start_addr,
            r.args@ == Seq::<String>::empty(),
    {
        Function { start_addr, args: Vec::new() }
    }
}

/// The routine that compiles a token met at the start of an expression or
/// between two operands.
#[derive(Debug, Clone, Copy, PartialEq, Eq, Structural)]
pub enum CompileFn {
    Number,
    Variable,
    Binary,
    And,
    Or,
    DT,
    ST,
    I,
    Rand,
    Key,
}

/// The routines that a token has: one for the start of an expression, one
/// for the place between two operands, both or neither.
#[derive(Debug, Clone, Copy, PartialEq, Eq, Structural)]
pub enum CompileRuleType {
    Prefix { prefix: CompileFn },
    Infix { infix: CompileFn },
    PrefixAndInfix { prefix: CompileFn, infix: CompileFn },
    Neither,
}

impl CompileRuleType {
    /// The routine for the token at the start of an expression, if it has one.
    pub open spec fn prefix_fn(self) -> Option<CompileFn> {
        match self {
            CompileRuleType::Prefix { prefix } => Some(prefix),
            CompileRuleType::PrefixAndInfix { prefix, .. } => Some(prefix),
            _ => None,
        }
    }

    /// The routine for the token between two operands, if it has one.
    pub open spec fn infix_fn(self) -> Option<CompileFn> {
        match self {
            CompileRuleType::Infix { infix } => Some(infix),
            CompileRuleType::PrefixAndInfix { infix, .. } => Some(infix),
            _ => None,
        }
    }
}

/// The rule of a token: its precedence and its routines.
#[derive(Debug, Clone, Copy, PartialEq, Eq, Structural)]
pub struct CompileRule {
    pub precedence: Precedence,
    pub rule_type: CompileRuleType,
}

impl CompileRule {
    /// The rule with that precedence and those routines.
    pub fn new(precedence: Precedence, rule_type: CompileRuleType) -> (r: CompileRule)
        ensures
            r == (CompileRule { precedence, rule_type }),
    {
        CompileRule { precedence: precedence, rule_type: rule_type }
    }
}

/// A CHIP-8 instruction in symbolic form, its operands as numbers.
#[derive(Debug, Clone, Copy, PartialEq, Eq, Structural)]
pub enum Opcode {
    LDRegByte(u16, u16),
    LDRegReg(u16, u16),
    AddRegReg(u16, u16),
    SubRegReg(u16, u16),
    SERegReg(u16, u16),
    SNERegReg(u16, u16),
    LDFReg(u16),
    LDIReg(u16),
    LDRegI(u16),
    LDDTReg(u16),
    LDRegDT(u16),
    LDSTReg(u16),
    LDRegKey(u16),
    LDIAddr(u16),
    RNDRegByte(u16, u16),
    DRWRegRegNibble(u16, u16, u16),
    JP(u16),
    CALL(u16),
    RET,
}

impl Opcode {
    /// Every operand fits its field: a register is below 16, a byte below
    /// 256, a nibble below 16 and an address below 4096.
    pub open spec fn wf(self) -> bool {
        match self {
            Opcode::LDRegByte(reg, byte) => reg < 16 && byte < 256,
            Opcode::LDRegReg(reg1, reg2) => reg1 < 16 && reg2 < 16,
            Opcode::AddRegReg(reg1, reg2) => reg1 < 16 && reg2 < 16,
            Opcode::SubRegReg(reg1, reg2) => reg1 < 16 && reg2 < 16,
            Opcode::SERegReg(reg1, reg2) => reg1 < 16 && reg2 < 16,
            Opcode::SNERegReg(reg1, reg2) => reg1 < 16 && reg2 < 16,
            Opcode::LDFReg(reg) => reg < 16,
            Opcode::LDIReg(reg) => reg < 16,
            Opcode::LDRegI(reg) => reg < 16,
            Opcode::LDDTReg(reg) => reg < 16,
            Opcode::LDRegDT(reg) => reg < 16,
            Opcode::LDSTReg(reg) => reg < 16,
            Opcode::LDRegKey(reg) => reg < 16,
            Opcode::LDIAddr(addr) => addr < 4096,
            Opcode::RNDRegByte(reg, byte) => reg < 16 && byte < 256,
            Opcode::DRWRegRegNibble(reg1, reg2, nib) => reg1 < 16 && reg2 < 16 && nib < 16,
            Opcode::JP(addr) => addr < 4096,
            Opcode::CALL(addr) => addr < 4096,
            Opcode::RET => true,
        }
    }

    /// The opcode is well formed, and where it jumps or calls, its target
    /// is the address of an instruction in the program's part of memory.
    pub open spec fn resolved(self) -> bool {
        &&& self.wf()
        &&& match self {
            Opcode::JP(addr) => addr >= ROM_START && addr % 2 == 0,
            Opcode::CALL(addr) => addr >= ROM_START && addr % 2 == 0,
            _ => true,
        }
    }

    /// Where the opcode jumps or calls, its target lies no further than one
    /// instruction past the end of a program of `len` instructions.
    pub open spec fn lands(self, len: int) -> bool {
        match self {
            Opcode::JP(addr) => addr <= rom_addr(len) + 2,
            Opcode::CALL(addr) => addr <= rom_addr(len) + 2,
            _ => true,
        }
    }

    /// The name of the variant.
    pub open spec fn name(self) -> Seq<char> {
        match self {
            Opcode::LDRegByte(..) => "LDRegByte"@,
            Opcode::LDRegReg(..) => "LDRegReg"@,
            Opcode::AddRegReg(..) => "AddRegReg"@,
            Opcode::SubRegReg(..) => "SubRegReg"@,
            Opcode::SERegReg(..) => "SERegReg"@,
            Opcode::SNERegReg(..) => "SNERegReg"@,
            Opcode::LDFReg(..) => "LDFReg"@,
            Opcode::LDIReg(..) => "LDIReg"@,
            Opcode::LDRegI(..) => "LDRegI"@,
            Opcode::LDDTReg(..) => "LDDTReg"@,
            Opcode::LDRegDT(..) => "LDRegDT"@,
            Opcode::LDSTReg(..) => "LDSTReg"@,
            Opcode::LDRegKey(..) => "LDRegKey"@,
            Opcode::LDIAddr(..) => "LDIAddr"@,
            Opcode::RNDRegByte(..) => "RNDRegByte"@,
            Opcode::DRWRegRegNibble(..) => "DRWRegRegNibble"@,
            Opcode::JP(..) => "JP"@,
            Opcode::CALL(..) => "CALL"@,
            Opcode::RET => "RET"@,
        }
    }

    /// The operands in the order in which they are written.
    pub open spec fn operands(self) -> Seq<u16> {
        match self {
            Opcode::LDRegByte(a, b) => seq![a, b],
            Opcode::LDRegReg(a, b) => seq![a, b],
            Opcode::AddRegReg(a, b) => seq![a, b],
            Opcode::SubRegReg(a, b) => seq![a, b],
            Opcode::SERegReg(a, b) => seq![a, b],
            Opcode::SNERegReg(a, b) => seq![a, b],
            Opcode::LDFReg(a) => seq![a],
            Opcode::LDIReg(a) => seq![a],
            Opcode::LDRegI(a) => seq![a],
            Opcode::LDDTReg(a) => seq![a],
            Opcode::LDRegDT(a) => seq![a],
            Opcode::LDSTReg(a) => seq![a],
            Opcode::LDRegKey(a) => seq![a],
            Opcode::LDIAddr(a) => seq![a],
            Opcode::RNDRegByte(a, b) => seq![a, b],
            Opcode::DRWRegRegNibble(a, b, c) => seq![a, b, c],
            Opcode::JP(a) => seq![a],
            Opcode::CALL(a) => seq![a],
            Opcode::RET => seq![],
        }
    }

    /// The opcode as a listing shows it: the variant's name, then, where it
    /// has operands, their decimal numerals in round brackets with a comma
    /// and a space between them.
    pub open spec fn text(self) -> Seq<char> {
        if self.operands().len() == 0 {
            self.name()
        } else {
            self.name() + "("@ + joined(
                self.operands().map_values(|n: u16| decimal_text(n as nat)),
                ", "@,
            ) + ")"@
        }
    }

    fn name_str(&self) -> (r: &'static str)
        ensures
            r@ == self.name(),
    {
        match self {
            Opcode::LDRegByte(..) => "LDRegByte",
            Opcode::LDRegReg(..) => "LDRegReg",
            Opcode::AddRegReg(..) => "AddRegReg",
            Opcode::SubRegReg(..) => "SubRegReg",
            Opcode::SERegReg(..) => "SERegReg",
            Opcode::SNERegReg(..) => "SNERegReg",
            Opcode::LDFReg(..) => "LDFReg",
            Opcode::LDIReg(..) => "LDIReg",
            Opcode::LDRegI(..) => "LDRegI",
            Opcode::LDDTReg(..) => "LDDTReg",
            Opcode::LDRegDT(..) => "LDRegDT",
            Opcode::LDSTReg(..) => "LDSTReg",
            Opcode::LDRegKey(..) => "LDRegKey",
            Opcode::LDIAddr(..) => "LDIAddr",
            Opcode::RNDRegByte(..) => "RNDRegByte",
            Opcode::DRWRegRegNibble(..) => "DRWRegRegNibble",
            Opcode::JP(..) => "JP",
            Opcode::CALL(..) => "CALL",
            Opcode::RET => "RET",
        }
    }

    fn operand_vec(&self) -> (r: Vec<u16>)
        ensures
            r@ == self.operands(),
    {
        let mut v: Vec<u16> = Vec::new();
        match self {
            Opcode::LDRegByte(a, b)
            | Opcode::LDRegReg(a, b)
            | Opcode::AddRegReg(a, b)
            | Opcode::SubRegReg(a, b)
            | Opcode::SERegReg(a, b)
            | Opcode::SNERegReg(a, b)
            | Opcode::RNDRegByte(a, b) => {
                v.push(*a);
                v.push(*b);
            },
            Opcode::LDFReg(a)
            | Opcode::LDIReg(a)
            | Opcode::LDRegI(a)
            | Opcode::LDDTReg(a)
            | Opcode::LDRegDT(a)
            | Opcode::LDSTReg(a)
            | Opcode::LDRegKey(a)
            | Opcode::LDIAddr(a)
            | Opcode::JP(a)
            | Opcode::CALL(a) => {
                v.push(*a);
            },
            Opcode::DRWRegRegNibble(a, b, c) => {
                v.push(*a);
                v.push(*b);
                v.push(*c);
            },
            Opcode::RET => {},
        }
        assert(v@ =~= self.operands());
        v
    }

    /// The opcode as a listing shows it.
    pub fn to_string(&self) -> (r: String)
        ensures
            r@ == self.text(),
    {
        let mut out = String::from_str(self.name_str());
        let operands = self.operand_vec();
        if operands.len() > 0 {
            let mut parts: Vec<String> = Vec::new();
            let mut i: usize = 0;
            while i < operands.len()
                invariant
                    i <= operands.len(),
                    parts@.len() == i,
                    forall|k: int|
                        0 <= k < i ==> (#[trigger] parts@[k])@ == decimal_text(operands@[k] as nat),
                decreases operands.len() - i,
            {
                let mut part = String::new();
                push_decimal(&mut part, operands[i]);
                assert(Seq::<char>::empty() + decimal_text(operands@[i as int] as nat)
                    =~= decimal_text(operands@[i as int] as nat));
                parts.push(part);
                i += 1;
            }
            assert(parts@.map_values(|p: String| p@) =~= self.operands().map_values(
                |n: u16| decimal_text(n as nat),
            ));
            out.append("(");
            let list = join(&parts, ", ");
            out.append(list.as_str());
            out.append(")");
        }
        out
    }
}

/// The address of the instruction at place `len` of a program: two bytes for
/// each instruction before it, from `ROM_START` on.
pub open spec fn rom_addr(len: int) -> int {
    2 * len + 0x200
}

/// The address of the instruction at place `len` of a program.
pub fn asm_bytes_len(len: usize) -> (r: u16)
    requires
        rom_addr(len as int) <= u16::MAX,
    ensures
        r == rom_addr(len as int),
{
    (len as u16 * 2) + 0x200
}

/// What a declared function is to a contract.
pub open spec fn entry_of(f: (String, Function)) -> FunctionEntry {
    FunctionEntry { name: f.0, start_addr: f.1.start_addr, args: f.1.args@ }
}

/// A call that returned `r` and left the state `after` did what `model` says:
/// on success the state is the model's, and on failure the error is.
pub open spec fn agrees(r: Result<(), CompileError>, after: Draft, model: Outcome) -> bool {
    match model {
        Ok(s) => r is Ok && after == s,
        Err(e) => r == Err::<(), CompileError>(e),
    }
}

/// From `before` to `after` the program has only grown, and what was added
/// is resolved: no placeholder of a jump is left in it, and every jump and
/// call leads to an instruction of the program, or to the place of the next
/// or the next but one.
pub open spec fn extends(before: Draft, after: Draft) -> bool {
    &&& before.code.len() <= after.code.len()
    &&& forall|i: int| 0 <= i < before.code.len() ==> after.code[i] == before.code[i]
    &&& forall|i: int|
        before.code.len() <= i < after.code.len() ==> (#[trigger] after.code[i]).resolved()
            && after.code[i].lands(after.code.len() as int)
}

/// The compiler: its tokens and cursors, the register stack, the scopes with
/// their variables, the functions, and what has been emitted.
pub struct Compiler {
    tokens: Vec<Token>,
    current: usize,
    previous: usize,
    reg_stack_top: u16,
    scope_depth: u16,
    variables: Vec<Variable>,
    functions: Vec<(String, Function)>,
    code: Vec<Opcode>,
    ram_line_map: HashMap<u16, u32>,
    tally: Ghost<int>,
}

impl View for Compiler {
    type V = Draft;

    closed spec fn view(&self) -> Draft {
        Draft {
            current: self.current as int,
            previous: self.previous as int,
            reg_stack_top: self.reg_stack_top as int,
            scope_depth: self.scope_depth as int,
            variables: self.variables@,
            functions: self.functions@.map_values(|f: (String, Function)| entry_of(f)),
            code: self.code@,
            ram_line_map: self.ram_line_map@,
            tally: self.tally@,
        }
    }
}

impl Compiler {
    /// The tokens that the compiler reads.
    pub closed spec fn token_seq(&self) -> Seq<Token> {
        self.tokens@
    }

    /// The cursors lie in the token list, the register stack below the
    /// reserved registers, the program in memory; every variable has a
    /// register and belongs to a scope that is open, and every function has
    /// an address in the program's memory.
    pub closed spec fn wf(&self) -> bool {
        &&& self.current <= self.tokens.len()
        &&& self.previous <= self.current
        &&& self.tokens.len() > 0 ==> self.previous < self.tokens.len()
        &&& self.reg_stack_top <= FIRST_RESERVED_REG
        &&& self.code.len() <= ROM_CAPACITY
        &&& forall|i: int|
            0 <= i < self.variables.len() ==> (#[trigger] self.variables[i]).reg_index
                <= FIRST_RESERVED_REG
        &&& forall|i: int|
            0 <= i < self.variables.len() ==> (#[trigger] self.variables[i]).scope_depth
                <= self.scope_depth
        &&& forall|i: int|
            0 <= i < self.functions.len() ==> {
                &&& ROM_START <= (#[trigger] self.functions[i]).1.start_addr <= LAST_ADDR
                &&& self.functions[i].1.start_addr % 2 == 0
                &&& self.functions[i].1.start_addr <= rom_addr(self.code.len() as int) + 2
                &&& self.functions[i].1.args.len() <= FIRST_RESERVED_REG
            }
    }

    /// What every step of the compiler keeps and gives: a well-formed
    /// state over the same tokens, whose program fits into memory and whose
    /// register stack lies below the reserved registers; the outcome that
    /// `model` names, a cursor that has not moved back, and as many open
    /// scopes as before. No step stalls, and none runs a routine on a token
    /// that is not its own.
    pub open spec fn follows(
        self,
        before: Compiler,
        r: Result<(), CompileError>,
        model: Outcome,
    ) -> bool {
        &&& self.wf()
        &&& self.token_seq() == before.token_seq()
        &&& agrees(r, self@, model)
        &&& r != Err::<(), CompileError>(CompileError::Stalled)
        &&& r != Err::<(), CompileError>(CompileError::RuleMismatch)
        &&& self@.code.len() <= ROM_CAPACITY
        &&& 0 <= self@.reg_stack_top <= FIRST_RESERVED_REG
        &&& r is Ok ==> self@.current >= before@.current
        &&& r is Ok ==> self@.scope_depth == before@.scope_depth
    }

    /// What every construct of the grammar gives besides: it has taken a
    /// token, the program has grown by resolved opcodes only, and the
    /// variables by variables of the open scope only.
    pub open spec fn compiles(
        self,
        before: Compiler,
        r: Result<(), CompileError>,
        model: Outcome,
    ) -> bool {
        &&& self.follows(before, r, model)
        &&& r is Ok ==> self@.current > before@.current
        &&& r is Ok ==> extends(before@, self@)
        &&& r is Ok ==> grammar::grows(before@, self@)
    }

    /// A routine that is run on the token taken last lets the slack grow by
    /// `grown`, and changes no variable.
    pub open spec fn routine_law(
        self,
        before: Compiler,
        r: Result<(), CompileError>,
        grown: int,
    ) -> bool {
        r is Ok ==> grammar::yields(before@, self@, grown)
    }

    /// An expression lets the slack grow by the register that holds its
    /// value, and changes no variable.
    pub open spec fn expression_law(self, before: Compiler, r: Result<(), CompileError>) -> bool {
        r is Ok ==> grammar::yields(before@, self@, 1)
    }

    /// A statement or a declaration lets the slack grow by `grown`: by
    /// nothing, but by one where the keyword of the statement has been taken
    /// before.
    pub open spec fn statement_law(
        self,
        before: Compiler,
        r: Result<(), CompileError>,
        grown: int,
    ) -> bool {
        r is Ok ==> grammar::keeps_balance(before@, self@, grown)
    }

    /// A well-formed compiler's program fits into memory, and its register
    /// stack lies below the reserved registers.
    pub proof fn lemma_wf_bounds(&self)
        requires
            self.wf(),
        ensures
            self@.code.len() <= ROM_CAPACITY,
            0 <= self@.reg_stack_top <= FIRST_RESERVED_REG,
    {
    }

    /// A compiler at the start of a copy of the lexer's tokens, with nothing
    /// declared and nothing emitted.
    pub fn new_from_lexer(lexer: &Lexer) -> (r: Compiler)
        ensures
            r.wf(),
            r.token_seq() == lexer.token_seq(),
            r@ == (Draft {
                current: 0,
                previous: 0,
                reg_stack_top: 0,
                scope_depth: 0,
                variables: Seq::empty(),
                functions: Seq::empty(),
                code: Seq::empty(),
                ram_line_map: Map::empty(),
                tally: 0,
            }),
    {
        let tokens = lexer.tokens();
        let mut copy: Vec<Token> = Vec::new();
        let mut i: usize = 0;
        while i < tokens.len()
            invariant
                i <= tokens.len(),
                copy@ == tokens@.take(i as int),
            decreases tokens.len() - i,
        {
            copy.push(tokens[i].clone());
            assert(tokens@.take(i as int).push(tokens@[i as int]) =~= tokens@.take(i + 1));
            i += 1;
        }
        assert(tokens@.take(tokens.len() as int) =~= tokens@);
        let r = Compiler {
            tokens: copy,
            current: 0,
            previous: 0,
            reg_stack_top: 0,
            scope_depth: 0,
            variables: Vec::new(),
            functions: Vec::new(),
            code: Vec::new(),
            ram_line_map: HashMap::new(),
            tally: Ghost(0),
        };
        assert(r@.functions =~= Seq::empty());
        r
    }

    /// The opcodes emitted so far.
    pub fn opcodes(&self) -> (r: &Vec<Opcode>)
        ensures
            r@ == self@.code,
    {
        &self.code
    }

    /// The next free register.
    pub fn reg_stack_top(&self) -> (r: u16)
        ensures
            r == self@.reg_stack_top,
    {
        self.reg_stack_top
    }

    /// How many variables are live.
    pub fn live_variables(&self) -> (r: usize)
        ensures
            r == self@.variables.len(),
    {
        self.variables.len()
    }

    /// For the address of each emitted opcode, the source line it came from.
    pub fn ram_line_map(&self) -> (r: &HashMap<u16, u32>)
        ensures
            r@ == self@.ram_line_map,
    {
        &self.ram_line_map
    }

    /// The source line recorded for the opcode at `addr`.
    pub fn line_of(&self, addr: u16) -> (r: Option<u32>)
        ensures
            r == if self@.ram_line_map.contains_key(addr) {
                Some(self@.ram_line_map[addr])
            } else {
                None
            },
    {
        broadcast use vstd::std_specs::hash::group_hash_axioms;

        match self.ram_line_map.get(&addr) {
            Some(line) => Some(*line),
            None => None,
        }
    }

    /// Whether the next token is of the kind of `token`.
    pub fn check(&self, token: TokenType) -> (r: bool)
        requires
            self@.current < self.token_seq().len(),
        ensures
            grammar::next_kind(self.token_seq(), Ok(self@)) == Ok::<TokenKind, CompileError>(
                self.token_seq()[self@.current].token_type@,
            ),
            r == (self.token_seq()[self@.current].token_type@ == token@),
    {
        self.tokens[self.current].token_type == token
    }

    /// Whether the next token is of the kind of `token`; an error at the end
    /// of the tokens.
    pub(crate) fn next_is(&self, token: TokenType) -> (r: Result<bool, CompileError>)
        ensures
            match grammar::next_kind(self.token_seq(), Ok(self@)) {
                Ok(kind) => r == Ok::<bool, CompileError>(kind == token@),
                Err(e) => r == Err::<bool, CompileError>(e),
            },
            r != Err::<bool, CompileError>(CompileError::Stalled),
    {
        if self.current >= self.tokens.len() {
            return Err(CompileError::UnexpectedEnd);
        }
        Ok(self.check(token))
    }

    /// The next token.
    pub(crate) fn next_token(&self) -> (r: Result<Token, CompileError>)
        ensures
            r == grammar::next_token(self.token_seq(), Ok(self@)),
            r != Err::<Token, CompileError>(CompileError::Stalled),
    {
        if self.current >= self.tokens.len() {
            return Err(CompileError::UnexpectedEnd);
        }
        Ok(self.tokens[self.current].clone())
    }

    /// The token taken last.
    pub(crate) fn last_token(&self) -> (r: Result<Token, CompileError>)
        ensures
            r == grammar::last_token(self.token_seq(), Ok(self@)),
            r != Err::<Token, CompileError>(CompileError::Stalled),
    {
        if self.previous >= self.tokens.len() {
            return Err(CompileError::UnexpectedEnd);
        }
        Ok(self.tokens[self.previous].clone())
    }

    /// Takes the next token.
    pub(crate) fn advance(&mut self) -> (r: Result<(), CompileError>)
        requires
            old(self).wf(),
        ensures
            final(self).follows(*old(self), r, grammar::advance(old(self).token_seq(), Ok(old(self)@))),
            r is Ok ==> grammar::counts_token(old(self).token_seq(), old(self)@, final(self)@),
            r is Ok ==> final(self)@.current > old(self)@.current,
    {
        if self.current >= self.tokens.len() {
            return Err(CompileError::UnexpectedEnd);
        }
        proof {
            reveal(grammar::region);
            reveal(grammar::outer_tally);
            self.tally@ = self.tally@ + grammar::weight(self.tokens[self.current as int].token_type@);
        }
        self.previous = self.current;
        self.current += 1;
        Ok(())
    }

    /// Takes the next token, which must be of the kind of `token`.
    pub(crate) fn consume(&mut self, token: TokenType) -> (r: Result<(), CompileError>)
        requires
            old(self).wf(),
        ensures
            final(self).follows(
                *old(self),
                r,
                grammar::consume(old(self).token_seq(), Ok(old(self)@), token@),
            ),
            r is Ok ==> grammar::counts_token(old(self).token_seq(), old(self)@, final(self)@),
            r is Ok ==> final(self)@.current > old(self)@.current,
    {
        if !self.next_is(token)? {
            return Err(CompileError::UnexpectedToken);
        }
        self.advance()
    }

    /// Appends one opcode, and records the line of the token taken last for
    /// its address.
    pub(crate) fn emit(&mut self, opcode: Opcode) -> (r: Result<(), CompileError>)
        requires
            old(self).wf(),
        ensures
            final(self).follows(
                *old(self),
                r,
                grammar::emit(old(self).token_seq(), Ok(old(self)@), opcode),
            ),
            r is Ok ==> grammar::counts(old(self).token_seq(), old(self)@, final(self)@),
    {
        broadcast use vstd::std_specs::hash::group_hash_axioms;

        if self.previous >= self.tokens.len() {
            return Err(CompileError::UnexpectedEnd);
        }
        if self.code.len() >= ROM_CAPACITY {
            return Err(CompileError::ProgramTooLarge);
        }
        let line = self.tokens[self.previous].line;
        self.ram_line_map.insert(asm_bytes_len(self.code.len()), line);
        self.code.push(opcode);
        Ok(())
    }

    /// Replaces the opcode at `index` by a jump to the address `ahead` bytes
    /// past the end of the program as it stands.
    pub(crate) fn patch(&mut self, index: usize, ahead: u16) -> (r: Result<(), CompileError>)
        requires
            old(self).wf(),
            index < old(self)@.code.len(),
            ahead <= 2,
        ensures
            final(self).follows(*old(self), r, grammar::patch(Ok(old(self)@), index as int, ahead as int)),
            r is Ok ==> grammar::counts(old(self).token_seq(), old(self)@, final(self)@),
    {
        let target = asm_bytes_len(self.code.len()) + ahead;
        if target > LAST_ADDR {
            return Err(CompileError::ProgramTooLarge);
        }
        self.code[index] = Opcode::JP(target);
        Ok(())
    }

    /// Hands out the next free register, which must not be a reserved one.
    pub fn inc_reg_stack_top(&mut self)
        requires
            old(self).wf(),
            old(self)@.reg_stack_top < FIRST_RESERVED_REG,
        ensures
            final(self).follows(*old(self), Ok(()), grammar::push_reg(Ok(old(self)@))),
    {
        self.reg_stack_top += 1;
    }

    /// Gives back the register handed out last; one must be held.
    pub fn dec_reg_stack_top(&mut self)
        requires
            old(self).wf(),
            old(self)@.reg_stack_top > 0,
        ensures
            final(self).follows(*old(self), Ok(()), grammar::pop_reg(Ok(old(self)@))),
    {
        self.reg_stack_top -= 1;
    }

    /// Hands out the next free register.
    pub(crate) fn push_reg(&mut self) -> (r: Result<(), CompileError>)
        requires
            old(self).wf(),
        ensures
            final(self).follows(*old(self), r, grammar::push_reg(Ok(old(self)@))),
            r is Ok ==> grammar::counts(old(self).token_seq(), old(self)@, final(self)@),
    {
        if self.reg_stack_top >= FIRST_RESERVED_REG {
            return Err(CompileError::OutOfRegisters);
        }
        self.inc_reg_stack_top();
        Ok(())
    }

    /// Gives back the register handed out last.
    pub(crate) fn pop_reg(&mut self) -> (r: Result<(), CompileError>)
        requires
            old(self).wf(),
        ensures
            final(self).follows(*old(self), r, grammar::pop_reg(Ok(old(self)@))),
            r is Ok ==> grammar::counts(old(self).token_seq(), old(self)@, final(self)@),
    {
        if self.reg_stack_top == 0 {
            return Err(CompileError::RegisterStackUnderflow);
        }
        self.dec_reg_stack_top();
        Ok(())
    }

    /// The register `depth` places below the one handed out last.
    pub(crate) fn peek_reg_stack(&self, depth: u16) -> (r: Result<u16, CompileError>)
        requires
            self.wf(),
            depth <= 1,
        ensures
            match r {
                Ok(reg) => reg == self@.reg_stack_top - 1 - depth && reg < FIRST_RESERVED_REG,
                Err(e) => e == CompileError::RegisterStackUnderflow && self@.reg_stack_top < 1
                    + depth,
            },
    {
        if self.reg_stack_top < 1 + depth {
            return Err(CompileError::RegisterStackUnderflow);
        }
        Ok(self.reg_stack_top - 1 - depth)
    }

    /// The next free register, where one is left.
    pub(crate) fn fresh_reg(&self) -> (r: Result<u16, CompileError>)
        requires
            self.wf(),
        ensures
            match r {
                Ok(reg) => reg == self@.reg_stack_top && reg < FIRST_RESERVED_REG,
                Err(e) => e == CompileError::OutOfRegisters && self@.reg_stack_top
                    >= FIRST_RESERVED_REG,
            },
    {
        if self.reg_stack_top >= FIRST_RESERVED_REG {
            return Err(CompileError::OutOfRegisters);
        }
        Ok(self.reg_stack_top)
    }

    /// The rule of a token.
    pub(crate) fn get_rule(&self, token: &Token) -> (r: Result<CompileRule, CompileError>)
        ensures
            r == grammar::rule_of(Ok(*token)),
            r != Err::<CompileRule, CompileError>(CompileError::Stalled),
    {
        match token.token_type {
            TokenType::Plus | TokenType::Minus => Ok(
                CompileRule::new(
                    Precedence::Term,
                    CompileRuleType::Infix { infix: CompileFn::Binary },
                ),
            ),
            TokenType::Equals
            | TokenType::Semicolon
            | TokenType::RightParen
            | TokenType::Comma => Ok(CompileRule::new(Precedence::Lowest, CompileRuleType::Neither)),
            TokenType::Number(_) => Ok(
                CompileRule::new(
                    Precedence::Lowest,
                    CompileRuleType::Prefix { prefix: CompileFn::Number },
                ),
            ),
            TokenType::Identifier(_) => Ok(
                CompileRule::new(
                    Precedence::Lowest,
                    CompileRuleType::Prefix { prefix: CompileFn::Variable },
                ),
            ),
            TokenType::EqualsEquals | TokenType::NotEquals => Ok(
                CompileRule::new(
                    Precedence::Equality,
                    CompileRuleType::Infix { infix: CompileFn::Binary },
                ),
            ),
            TokenType::And => Ok(
                CompileRule::new(Precedence::And, CompileRuleType::Infix { infix: CompileFn::And }),
            ),
            TokenType::Or => Ok(
                CompileRule::new(Precedence::Or, CompileRuleType::Infix { infix: CompileFn::Or }),
            ),
            TokenType::DT => Ok(
                CompileRule::new(
                    Precedence::Lowest,
                    CompileRuleType::Prefix { prefix: CompileFn::DT },
                ),
            ),
            TokenType::ST => Ok(
                CompileRule::new(
                    Precedence::Lowest,
                    CompileRuleType::Prefix { prefix: CompileFn::ST },
                ),
            ),
            TokenType::I => Ok(
                CompileRule::new(Precedence::Lowest, CompileRuleType::Prefix { prefix: CompileFn::I }),
            ),
            TokenType::Rand => Ok(
                CompileRule::new(
                    Precedence::Lowest,
                    CompileRuleType::Prefix { prefix: CompileFn::Rand },
                ),
            ),
            TokenType::Key => Ok(
                CompileRule::new(
                    Precedence::Lowest,
                    CompileRuleType::Prefix { prefix: CompileFn::Key },
                ),
            ),
            _ => Err(CompileError::NoRule),
        }
    }

    /// The register of the newest variable called `name`.
    pub fn lookup_variable_register(&self, name: String) -> (r: Option<u16>)
        requires
            self.wf(),
        ensures
            r == grammar::lookup_variable(self@.variables, name@),
            r is Some ==> r->Some_0 <= FIRST_RESERVED_REG,
    {
        let mut i: usize = self.variables.len();
        assert(self.variables@.take(i as int) =~= self.variables@);
        while i > 0
            invariant
                i <= self.variables.len(),
                self.wf(),
                grammar::lookup_variable(self.variables@, name@) == grammar::lookup_variable(
                    self.variables@.take(i as int),
                    name@,
                ),
            decreases i,
        {
            let ghost rest = self.variables@.take(i as int);
            assert(rest.drop_last() =~= self.variables@.take(i - 1));
            assert(rest.last() == self.variables@[i - 1]);
            if self.variables[i - 1].name == name {
                assert(self.variables[i - 1].reg_index <= FIRST_RESERVED_REG);
                return Some(self.variables[i - 1].reg_index);
            }
            i -= 1;
        }
        assert(self.variables@.take(0).len() == 0);
        None
    }

    /// The start address and the number of parameters of the newest function
    /// called `name`.
    pub(crate) fn lookup_function(&self, name: &String) -> (r: Option<(u16, usize)>)
        requires
            self.wf(),
        ensures
            match grammar::lookup_function(self@.functions, name@) {
                Some(f) => r == Some((f.start_addr, f.args.len() as usize)) && ROM_START
                    <= f.start_addr <= LAST_ADDR && f.start_addr % 2 == 0 && f.start_addr
                    <= rom_addr(self@.code.len() as int) + 2 && f.args.len() <= FIRST_RESERVED_REG,
                None => r is None,
            },
    {
        let ghost entries = self@.functions;
        let mut i: usize = self.functions.len();
        assert(entries.take(i as int) =~= entries);
        while i > 0
            invariant
                i <= self.functions.len(),
                self.wf(),
                entries == self@.functions,
                entries.len() == self.functions.len(),
                grammar::lookup_function(entries, name@) == grammar::lookup_function(
                    entries.take(i as int),
                    name@,
                ),
            decreases i,
        {
            let ghost rest = entries.take(i as int);
            assert(rest.drop_last() =~= entries.take(i - 1));
            assert(rest.last() == entry_of(self.functions@[i - 1]));
            if self.functions[i - 1].0 == *name {
                assert(self.functions[i - 1].1.start_addr >= ROM_START);
                let f = &self.functions[i - 1].1;
                return Some((f.start_addr, f.args.len()));
            }
            i -= 1;
        }
        assert(entries.take(0).len() == 0);
        None
    }

    /// Forgets the variables of the innermost scope, and gives back one
    /// register for each.
    #[verifier::rlimit(100)]
    pub fn clear_current_scope(&mut self) -> (r: Result<(), CompileError>)
        requires
            old(self).wf(),
        ensures
            final(self).follows(*old(self), r, grammar::clear_scope(Ok(old(self)@))),
            r is Ok ==> grammar::counts(old(self).token_seq(), old(self)@, final(self)@),
            r is Ok ==> final(self)@.code == old(self)@.code,
    {
        let ghost all = self.variables@;
        let ghost keep = grammar::outside_scope(self.scope_depth as int);
        let mut kept: Vec<Variable> = Vec::new();
        let mut i: usize = 0;
        while i < self.variables.len()
            invariant
                i <= self.variables.len(),
                self.variables@ == all,
                *self == *old(self),
                self.wf(),
                keep == grammar::outside_scope(self.scope_depth as int),
                kept@ == all.take(i as int).filter(keep),
                forall|k: int| 0 <= k < kept.len() ==> (#[trigger] kept[k]).reg_index <= FIRST_RESERVED_REG,
                forall|k: int|
                    0 <= k < kept.len() ==> (#[trigger] kept[k]).scope_depth <= self.scope_depth,
            decreases self.variables.len() - i,
        {
            proof {
                reveal(Seq::filter);
                assert(all.take(i + 1).drop_last() =~= all.take(i as int));
                assert(all.take(i + 1).last() == all[i as int]);
            }
            if self.variables[i].scope_depth != self.scope_depth {
                assert(self.variables[i as int].reg_index <= FIRST_RESERVED_REG);
                assert(self.variables[i as int].scope_depth <= self.scope_depth);
                kept.push(self.variables[i].clone());
            }
            i += 1;
        }
        proof {
            assert(all.take(all.len() as int) =~= all);
            all.lemma_filter_len(keep);
        }
        let removed: usize = self.variables.len() - kept.len();
        if removed > self.reg_stack_top as usize {
            return Err(CompileError::RegisterStackUnderflow);
        }
        self.variables = kept;
        self.reg_stack_top = self.reg_stack_top - removed as u16;
        Ok(())
    }

    /// The opcodes emitted so far, one to a line.
    pub fn stringify_asm(&self) -> (r: String)
        ensures
            r@ == joined(self@.code.map_values(|op: Opcode| op.text()), "\n"@),
    {
        let mut parts: Vec<String> = Vec::new();
        let mut i: usize = 0;
        while i < self.code.len()
            invariant
                i <= self.code.len(),
                parts@.len() == i,
                forall|k: int| 0 <= k < i ==> (#[trigger] parts@[k])@ == self.code@[k].text(),
            decreases self.code.len() - i,
        {
            parts.push(self.code[i].to_string());
            i += 1;
        }
        assert(parts@.map_values(|p: String| p@) =~= self@.code.map_values(
            |op: Opcode| op.text(),
        ));
        join(&parts, "\n")
    }

    /// Emits what a call starts with: V0..V2 are stored at the frame that V13
    /// points to, and V13 moves on by three.
    pub fn push_frame(&mut self) -> (r: Result<(), CompileError>)
        requires
            old(self).wf(),
        ensures
            final(self).follows(
                *old(self),
                r,
                grammar::push_frame(old(self).token_seq(), Ok(old(self)@)),
            ),
            r is Ok ==> grammar::counts(old(self).token_seq(), old(self)@, final(self)@),
            r is Ok ==> extends(old(self)@, final(self)@),
    {
        self.emit(Opcode::LDFReg(0xD))?;
        self.emit(Opcode::LDIReg(0xD))?;
        self.emit(Opcode::LDRegByte(0xE, 3))?;
        self.emit(Opcode::AddRegReg(0xD, 0xE))
    }

    /// Emits what a function ends with: V13 moves back by three, V0..V2 are
    /// loaded from the frame it then points to, and the function returns.
    pub fn pop_frame(&mut self) -> (r: Result<(), CompileError>)
        requires
            old(self).wf(),
        ensures
            final(self).follows(
                *old(self),
                r,
                grammar::pop_frame(old(self).token_seq(), Ok(old(self)@)),
            ),
            r is Ok ==> grammar::counts(old(self).token_seq(), old(self)@, final(self)@),
            r is Ok ==> extends(old(self)@, final(self)@),
    {
        self.emit(Opcode::LDRegByte(0xE, 3))?;
        self.emit(Opcode::SubRegReg(0xD, 0xE))?;
        self.emit(Opcode::LDFReg(0xD))?;
        self.emit(Opcode::LDRegI(0xD))?;
        self.emit(Opcode::RET)
    }

    /// Compiles a number literal.
    #[verifier::rlimit(100)]
    pub(crate) fn number(&mut self) -> (r: Result<(), CompileError>)
        requires
            old(self).wf(),
            grammar::fits_last(old(self).token_seq(), old(self)@, CompileFn::Number),
        ensures
            final(self).follows(*old(self), r, grammar::number(old(self).token_seq(), Ok(old(self)@))),
            r is Ok ==> grammar::counts(old(self).token_seq(), old(self)@, final(self)@),
            r is Ok ==> extends(old(self)@, final(self)@),
            final(self).routine_law(*old(self), r, 1),
    {
        reveal(grammar::number);
        let prev = self.last_token()?;
        match prev.token_type {
            TokenType::Number(num) => {
                if num > 255 {
                    return Err(CompileError::LiteralOutOfRange);
                }
                let reg = self.fresh_reg()?;
                self.emit(Opcode::LDRegByte(reg, num))?;
                self.push_reg()
            },
            _ => Err(CompileError::RuleMismatch),
        }
    }

    /// Compiles `I = NUMBER`.
    #[allow(non_snake_case)]
    #[verifier::rlimit(100)]
    pub(crate) fn I(&mut self, assign_allowed: bool) -> (r: Result<(), CompileError>)
        requires
            old(self).wf(),
            grammar::fits_last(old(self).token_seq(), old(self)@, CompileFn::I),
        ensures
            final(self).follows(
                *old(self),
                r,
                grammar::index_register(old(self).token_seq(), Ok(old(self)@), assign_allowed),
            ),
            r is Ok ==> grammar::counts(old(self).token_seq(), old(self)@, final(self)@),
            r is Ok ==> extends(old(self)@, final(self)@),
            final(self).routine_law(*old(self), r, 1),
    {
        reveal(grammar::index_register);
        let prev = self.last_token()?;
        let assigns = self.next_is(TokenType::Equals)? && assign_allowed;
        match prev.token_type {
            TokenType::I => if assigns {
                self.advance()?;
                match self.next_token()?.token_type {
                    TokenType::Number(num) => {
                        self.advance()?;
                        if num > LAST_ADDR {
                            return Err(CompileError::LiteralOutOfRange);
                        }
                        self.emit(Opcode::LDIAddr(num))?;
                        self.push_reg()
                    },
                    _ => Err(CompileError::ExpectedNumber),
                }
            } else {
                Err(CompileError::ExpectedEquals)
            },
            _ => Err(CompileError::RuleMismatch),
        }
    }

    /// Compiles `RAND(NUMBER)`.
    #[verifier::rlimit(100)]
    pub(crate) fn rand(&mut self) -> (r: Result<(), CompileError>)
        requires
            old(self).wf(),
            grammar::fits_last(old(self).token_seq(), old(self)@, CompileFn::Rand),
        ensures
            final(self).follows(*old(self), r, grammar::rand(old(self).token_seq(), Ok(old(self)@))),
            r is Ok ==> grammar::counts(old(self).token_seq(), old(self)@, final(self)@),
            r is Ok ==> extends(old(self)@, final(self)@),
            final(self).routine_law(*old(self), r, 1),
    {
        reveal(grammar::rand);
        let prev = self.last_token()?;
        let cur = self.next_token()?;
        match prev.token_type {
            TokenType::Rand => match cur.token_type {
                TokenType::LeftParen => {
                    self.consume(TokenType::LeftParen)?;
                    match self.next_token()?.token_type {
                        TokenType::Number(num) => {
                            self.advance()?;
                            self.consume(TokenType::RightParen)?;
                            if num > 255 {
                                return Err(CompileError::LiteralOutOfRange);
                            }
                            let reg = self.fresh_reg()?;
                            self.emit(Opcode::RNDRegByte(reg, num))?;
                            self.push_reg()
                        },
                        _ => Err(CompileError::ExpectedNumber),
                    }
                },
                _ => Err(CompileError::ExpectedParen),
            },
            _ => Err(CompileError::RuleMismatch),
        }
    }

    /// Compiles `KEY()`.
    #[verifier::rlimit(100)]
    pub(crate) fn key(&mut self) -> (r: Result<(), CompileError>)
        requires
            old(self).wf(),
            grammar::fits_last(old(self).token_seq(), old(self)@, CompileFn::Key),
        ensures
            final(self).follows(*old(self), r, grammar::key(old(self).token_seq(), Ok(old(self)@))),
            r is Ok ==> grammar::counts(old(self).token_seq(), old(self)@, final(self)@),
            r is Ok ==> extends(old(self)@, final(self)@),
            final(self).routine_law(*old(self), r, 1),
    {
        reveal(grammar::key);
        let prev = self.last_token()?;
        let cur = self.next_token()?;
        match prev.token_type {
            TokenType::Key => match cur.token_type {
                TokenType::LeftParen => {
                    self.consume(TokenType::LeftParen)?;
                    self.consume(TokenType::RightParen)?;
                    let reg = self.fresh_reg()?;
                    self.emit(Opcode::LDRegKey(reg))?;
                    self.push_reg()
                },
                _ => Err(CompileError::ExpectedParen),
            },
            _ => Err(CompileError::RuleMismatch),
        }
    }
}

} // verus!
