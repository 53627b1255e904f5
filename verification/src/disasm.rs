//! The text of each instruction, as a disassembly shows it.

use crate::machine::{address, decode, low_byte, low_nibble, reg_x, reg_y, Operation};
use crate::text::{hex_text, push_hex};
use vstd::prelude::*;
use vstd::string::*;

verus! {

/// The operands that an instruction's text shows.
#[derive(Debug, Clone, Copy, PartialEq, Eq, Structural)]
pub enum Operands {
    /// None.
    Nothing,
    /// The address `nnn`.
    Nnn,
    /// The register `x` and the byte `kk`.
    Xkk,
    /// The registers `x` and `y`.
    Xy,
    /// The registers `x` and `y`, and the nibble `n`.
    Xyn,
    /// The register `x`.
    X,
}

impl Operation {
    /// What the text of an instruction starts with.
    pub open spec fn head(self) -> Seq<char> {
        match self {
            Operation::Jp => "JP "@,
            Operation::Call => "CALL "@,
            Operation::SeByte => "SE "@,
            Operation::SneByte => "SNE "@,
            Operation::SeReg => "SE "@,
            Operation::LdByte => "LD "@,
            Operation::AddByte => "ADD "@,
            Operation::SneReg => "SNE "@,
            Operation::LdI => "LD I, "@,
            Operation::JpV0 => "JP V0, "@,
            Operation::Rnd => "RND "@,
            Operation::Drw => "DRW "@,
            Operation::Cls => "CLS"@,
            Operation::Ret => "RET"@,
            Operation::LdReg => "LD "@,
            Operation::Or => "OR "@,
            Operation::And => "AND "@,
            Operation::Xor => "XOR "@,
            Operation::AddReg => "ADD "@,
            Operation::SubReg => "SUB "@,
            Operation::Shr => "SHR "@,
            Operation::Subn => "SUBN "@,
            Operation::Shl => "SHL "@,
            Operation::Skp => "SKP "@,
            Operation::Sknp => "SKNP "@,
            Operation::LdRegDt => "LD "@,
            Operation::LdRegKey => "LD "@,
            Operation::LdDtReg => "LD DT, "@,
            Operation::LdStReg => "LD ST, "@,
            Operation::AddI => "ADD I, "@,
            Operation::LdF => "LD F, "@,
            Operation::LdB => "LD B, "@,
            Operation::LdIReg => "LD [I], "@,
            Operation::LdRegI => "LD "@,
            Operation::Null
            | Operation::Lookup0
            | Operation::Lookup8
            | Operation::LookupE
            | Operation::LookupF => "null"@,
        }
    }

    /// The operands that the text of an instruction shows.
    pub open spec fn operands(self) -> Operands {
        match self {
            Operation::Jp | Operation::Call | Operation::LdI | Operation::JpV0 => Operands::Nnn,
            Operation::SeByte
            | Operation::SneByte
            | Operation::LdByte
            | Operation::AddByte
            | Operation::Rnd => Operands::Xkk,
            Operation::SeReg
            | Operation::SneReg
            | Operation::LdReg
            | Operation::Or
            | Operation::And
            | Operation::Xor
            | Operation::AddReg
            | Operation::SubReg
            | Operation::Shr
            | Operation::Subn
            | Operation::Shl => Operands::Xy,
            Operation::Drw => Operands::Xyn,
            Operation::Skp
            | Operation::Sknp
            | Operation::LdRegDt
            | Operation::LdRegKey
            | Operation::LdDtReg
            | Operation::LdStReg
            | Operation::AddI
            | Operation::LdF
            | Operation::LdB
            | Operation::LdIReg
            | Operation::LdRegI => Operands::X,
            _ => Operands::Nothing,
        }
    }

    /// What the text of an instruction ends with.
    pub open spec fn tail(self) -> Seq<char> {
        match self {
            Operation::LdRegDt => ", DT"@,
            Operation::LdRegKey => ", K"@,
            Operation::LdRegI => ", [I]"@,
            _ => ""@,
        }
    }

    fn head_str(self) -> (r: &'static str)
        ensures
            r@ == self.head(),
    {
        match self {
            Operation::Jp => "JP ",
            Operation::Call => "CALL ",
            Operation::SeByte => "SE ",
            Operation::SneByte => "SNE ",
            Operation::SeReg => "SE ",
            Operation::LdByte => "LD ",
            Operation::AddByte => "ADD ",
            Operation::SneReg => "SNE ",
            Operation::LdI => "LD I, ",
            Operation::JpV0 => "JP V0, ",
            Operation::Rnd => "RND ",
            Operation::Drw => "DRW ",
            Operation::Cls => "CLS",
            Operation::Ret => "RET",
            Operation::LdReg => "LD ",
            Operation::Or => "OR ",
            Operation::And => "AND ",
            Operation::Xor => "XOR ",
            Operation::AddReg => "ADD ",
            Operation::SubReg => "SUB ",
            Operation::Shr => "SHR ",
            Operation::Subn => "SUBN ",
            Operation::Shl => "SHL ",
            Operation::Skp => "SKP ",
            Operation::Sknp => "SKNP ",
            Operation::LdRegDt => "LD ",
            Operation::LdRegKey => "LD ",
            Operation::LdDtReg => "LD DT, ",
            Operation::LdStReg => "LD ST, ",
            Operation::AddI => "ADD I, ",
            Operation::LdF => "LD F, ",
            Operation::LdB => "LD B, ",
            Operation::LdIReg => "LD [I], ",
            Operation::LdRegI => "LD ",
            Operation::Null
            | Operation::Lookup0
            | Operation::Lookup8
            | Operation::LookupE
            | Operation::LookupF => "null",
        }
    }

    fn operand_kind(self) -> (r: Operands)
        ensures
            r == self.operands(),
    {
        match self {
            Operation::Jp | Operation::Call | Operation::LdI | Operation::JpV0 => Operands::Nnn,
            Operation::SeByte
            | Operation::SneByte
            | Operation::LdByte
            | Operation::AddByte
            | Operation::Rnd => Operands::Xkk,
            Operation::SeReg
            | Operation::SneReg
            | Operation::LdReg
            | Operation::Or
            | Operation::And
            | Operation::Xor
            | Operation::AddReg
            | Operation::SubReg
            | Operation::Shr
            | Operation::Subn
            | Operation::Shl => Operands::Xy,
            Operation::Drw => Operands::Xyn,
            Operation::Skp
            | Operation::Sknp
            | Operation::LdRegDt
            | Operation::LdRegKey
            | Operation::LdDtReg
            | Operation::LdStReg
            | Operation::AddI
            | Operation::LdF
            | Operation::LdB
            | Operation::LdIReg
            | Operation::LdRegI => Operands::X,
            _ => Operands::Nothing,
        }
    }

    fn tail_str(self) -> (r: &'static str)
        ensures
            r@ == self.tail(),
    {
        match self {
            Operation::LdRegDt => ", DT",
            Operation::LdRegKey => ", K",
            Operation::LdRegI => ", [I]",
            _ => "",
        }
    }
}

/// A register: `V` and its number as a hexadecimal digit.
pub open spec fn register_text(reg: int) -> Seq<char> {
    "V"@ + hex_text(reg as nat)
}

/// The address `nnn` in hexadecimal.
pub open spec fn args_nnn(opcode: u16) -> Seq<char> {
    hex_text(address(opcode) as nat)
}

/// The register `x`, and the byte `kk` in hexadecimal.
pub open spec fn args_xkk(opcode: u16) -> Seq<char> {
    register_text(reg_x(opcode)) + ", "@ + hex_text(low_byte(opcode) as nat)
}

/// The registers `x` and `y`.
pub open spec fn args_xy(opcode: u16) -> Seq<char> {
    register_text(reg_x(opcode)) + ", "@ + register_text(reg_y(opcode))
}

/// The registers `x` and `y`, and the nibble `n` in hexadecimal.
pub open spec fn args_xyn(opcode: u16) -> Seq<char> {
    register_text(reg_x(opcode)) + ", "@ + register_text(reg_y(opcode)) + ", "@ + hex_text(
        low_nibble(opcode) as nat,
    )
}

/// The register `x`.
pub open spec fn args_x(opcode: u16) -> Seq<char> {
    register_text(reg_x(opcode))
}

/// The operands of an instruction, as its text shows them.
pub open spec fn operand_text(operands: Operands, opcode: u16) -> Seq<char> {
    match operands {
        Operands::Nothing => ""@,
        Operands::Nnn => args_nnn(opcode),
        Operands::Xkk => args_xkk(opcode),
        Operands::Xy => args_xy(opcode),
        Operands::Xyn => args_xyn(opcode),
        Operands::X => args_x(opcode),
    }
}

/// The text of an instruction: what it does, with its operands in
/// hexadecimal; `null` for what is no instruction.
pub open spec fn mnemonic(opcode: u16) -> Seq<char> {
    decode(opcode).head() + operand_text(decode(opcode).operands(), opcode) + decode(
        opcode,
    ).tail()
}

fn push_register(out: &mut String, reg: u16)
    ensures
        final(out)@ == old(out)@ + register_text(reg as int),
{
    out.append("V");
    push_hex(out, reg);
    assert(old(out)@ + "V"@ + hex_text(reg as nat) =~= old(out)@ + register_text(reg as int));
}

/// The address `nnn` of an instruction in hexadecimal.
pub fn get_args_disasm_nnn(opcode: u16) -> (r: String)
    ensures
        r@ == args_nnn(opcode),
{
    let nnn = crate::chip8::nnn_of(opcode);
    let mut out = String::new();
    push_hex(&mut out, nnn);
    assert(Seq::<char>::empty() + hex_text(nnn as nat) =~= hex_text(nnn as nat));
    out
}

/// The register `x` and the byte `kk` of an instruction.
pub fn get_args_disasm_xkk(opcode: u16) -> (r: String)
    ensures
        r@ == args_xkk(opcode),
{
    let x = crate::chip8::x_of(opcode) as u16;
    let kk = crate::chip8::kk_of(opcode) as u16;
    let mut out = String::new();
    push_register(&mut out, x);
    out.append(", ");
    push_hex(&mut out, kk);
    assert(out@ =~= args_xkk(opcode));
    out
}

/// The registers `x` and `y` of an instruction.
pub fn get_args_disasm_xy(opcode: u16) -> (r: String)
    ensures
        r@ == args_xy(opcode),
{
    let x = crate::chip8::x_of(opcode) as u16;
    let y = crate::chip8::y_of(opcode) as u16;
    let mut out = String::new();
    push_register(&mut out, x);
    out.append(", ");
    push_register(&mut out, y);
    assert(out@ =~= args_xy(opcode));
    out
}

/// The registers `x` and `y` and the nibble `n` of an instruction.
pub fn get_args_disasm_xyn(opcode: u16) -> (r: String)
    ensures
        r@ == args_xyn(opcode),
{
    let x = crate::chip8::x_of(opcode) as u16;
    let y = crate::chip8::y_of(opcode) as u16;
    let n = crate::chip8::n_of(opcode);
    let mut out = String::new();
    push_register(&mut out, x);
    out.append(", ");
    push_register(&mut out, y);
    out.append(", ");
    push_hex(&mut out, n);
    assert(out@ =~= args_xyn(opcode));
    out
}

/// The register `x` of an instruction.
pub fn get_args_disasm_x(opcode: u16) -> (r: String)
    ensures
        r@ == args_x(opcode),
{
    let x = crate::chip8::x_of(opcode) as u16;
    let mut out = String::new();
    push_register(&mut out, x);
    assert(out@ =~= args_x(opcode));
    out
}

/// The text of the instruction `opcode`, which does `operation`.
pub fn disasm_text(operation: Operation, opcode: u16) -> (r: String)
    requires
        operation == decode(opcode),
    ensures
        r@ == mnemonic(opcode),
{
    let mut out = String::from_str(operation.head_str());
    let args = match operation.operand_kind() {
        Operands::Nothing => String::new(),
        Operands::Nnn => get_args_disasm_nnn(opcode),
        Operands::Xkk => get_args_disasm_xkk(opcode),
        Operands::Xy => get_args_disasm_xy(opcode),
        Operands::Xyn => get_args_disasm_xyn(opcode),
        Operands::X => get_args_disasm_x(opcode),
    };
    proof {
        reveal_strlit("");
        assert(""@ =~= Seq::<char>::empty());
    }
    out.append(args.as_str());
    out.append(operation.tail_str());
    out
}

} // verus!
