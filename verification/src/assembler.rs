//! Packs symbolic opcodes into big-endian 16-bit CHIP-8 instructions.

use crate::compiler::{Compiler, Opcode};
use crate::text::{hex_text_padded, join, joined, push_hex_padded};
use vstd::prelude::*;

verus! {

/// The 16-bit instruction of an opcode: the instruction's fixed bits, the
/// first register from bit 8 up, the second from bit 4 up, and a byte, a
/// nibble or an address in the low bits.
pub open spec fn encode(op: Opcode) -> u16 {
    match op {
        Opcode::LDRegByte(reg, byte) => 0x6000u16 | (reg << 8) | byte,
        Opcode::LDRegReg(reg1, reg2) => 0x8000u16 | (reg1 << 8) | (reg2 << 4) | 0x0u16,
        Opcode::AddRegReg(reg1, reg2) => 0x8000u16 | (reg1 << 8) | (reg2 << 4) | 0x4u16,
        Opcode::SubRegReg(reg1, reg2) => 0x8000u16 | (reg1 << 8) | (reg2 << 4) | 0x5u16,
        Opcode::SERegReg(reg1, reg2) => 0x5000u16 | (reg1 << 8) | (reg2 << 4) | 0x0u16,
        Opcode::SNERegReg(reg1, reg2) => 0x9000u16 | (reg1 << 8) | (reg2 << 4) | 0x0u16,
        Opcode::LDFReg(reg) => 0xF000u16 | (reg << 8) | 0x29u16,
        Opcode::LDIReg(reg) => 0xF000u16 | (reg << 8) | 0x55u16,
        Opcode::LDRegI(reg) => 0xF000u16 | (reg << 8) | 0x65u16,
        Opcode::LDDTReg(reg) => 0xF000u16 | (reg << 8) | 0x15u16,
        Opcode::LDRegDT(reg) => 0xF000u16 | (reg << 8) | 0x07u16,
        Opcode::LDSTReg(reg) => 0xF000u16 | (reg << 8) | 0x18u16,
        Opcode::LDRegKey(reg) => 0xF000u16 | (reg << 8) | 0x0Au16,
        Opcode::LDIAddr(addr) => 0xA000u16 | addr,
        Opcode::RNDRegByte(reg, byte) => 0xC000u16 | (reg << 8) | byte,
        Opcode::DRWRegRegNibble(reg1, reg2, nib) => 0xD000u16 | (reg1 << 8) | (reg2 << 4) | nib,
        Opcode::JP(addr) => 0x1000u16 | addr,
        Opcode::CALL(addr) => 0x2000u16 | addr,
        Opcode::RET => 0x00EEu16,
    }
}

/// The high byte of a word.
pub open spec fn high_byte(word: u16) -> u8 {
    (word >> 8) as u8
}

/// The low byte of a word.
pub open spec fn low_byte(word: u16) -> u8 {
    (word & 0xFF) as u8
}

/// The bytes of a list of words, the high byte of each word first.
pub open spec fn big_endian(words: Seq<u16>) -> Seq<u8> {
    Seq::new(
        2 * words.len(),
        |i: int|
            if i % 2 == 0 {
                high_byte(words[i / 2])
            } else {
                low_byte(words[i / 2])
            },
    )
}

/// The instructions of a list of opcodes.
pub open spec fn encode_all(ops: Seq<Opcode>) -> Seq<u16> {
    ops.map_values(|op: Opcode| encode(op))
}

/// Symbolic opcodes, and the words and bytes assembled from them.
pub struct Assembler {
    code: Vec<Opcode>,
    binary_u16: Vec<u16>,
    binary: Vec<u8>,
}

impl Assembler {
    /// The opcodes to assemble.
    pub closed spec fn opcodes(&self) -> Seq<Opcode> {
        self.code@
    }

    /// The instructions assembled so far.
    pub closed spec fn words(&self) -> Seq<u16> {
        self.binary_u16@
    }

    /// The bytes assembled so far.
    pub closed spec fn bytes(&self) -> Seq<u8> {
        self.binary@
    }

    /// An assembler for the opcodes that a compiler has emitted, with nothing
    /// assembled yet.
    pub fn new_from_compiler(compiler: &Compiler) -> (r: Assembler)
        ensures
            r.opcodes() == compiler@.code,
            r.words() == Seq::<u16>::empty(),
            r.bytes() == Seq::<u8>::empty(),
    {
        let source = compiler.opcodes();
        let mut code: Vec<Opcode> = Vec::new();
        let mut i: usize = 0;
        while i < source.len()
            invariant
                i <= source.len(),
                code@ == source@.take(i as int),
            decreases source.len() - i,
        {
            code.push(source[i]);
            assert(source@.take(i as int).push(source@[i as int]) =~= source@.take(i + 1));
            i += 1;
        }
        assert(source@.take(source.len() as int) =~= source@);
        Assembler { code, binary_u16: Vec::new(), binary: Vec::new() }
    }

    /// The 16-bit instruction of an opcode.
    pub fn opcode_to_u16(op: &Opcode) -> (r: u16)
        ensures
            r == encode(*op),
    {
        match *op {
            Opcode::LDRegByte(reg, byte) => 0x6000u16 | (reg << 8) | byte,
            Opcode::LDRegReg(reg1, reg2) => 0x8000u16 | (reg1 << 8) | (reg2 << 4) | 0x0u16,
            Opcode::AddRegReg(reg1, reg2) => 0x8000u16 | (reg1 << 8) | (reg2 << 4) | 0x4u16,
            Opcode::SubRegReg(reg1, reg2) => 0x8000u16 | (reg1 << 8) | (reg2 << 4) | 0x5u16,
            Opcode::SERegReg(reg1, reg2) => 0x5000u16 | (reg1 << 8) | (reg2 << 4) | 0x0u16,
            Opcode::SNERegReg(reg1, reg2) => 0x9000u16 | (reg1 << 8) | (reg2 << 4) | 0x0u16,
            Opcode::LDFReg(reg) => 0xF000u16 | (reg << 8) | 0x29u16,
            Opcode::LDIReg(reg) => 0xF000u16 | (reg << 8) | 0x55u16,
            Opcode::LDRegI(reg) => 0xF000u16 | (reg << 8) | 0x65u16,
            Opcode::LDDTReg(reg) => 0xF000u16 | (reg << 8) | 0x15u16,
            Opcode::LDRegDT(reg) => 0xF000u16 | (reg << 8) | 0x07u16,
            Opcode::LDSTReg(reg) => 0xF000u16 | (reg << 8) | 0x18u16,
            Opcode::LDRegKey(reg) => 0xF000u16 | (reg << 8) | 0x0Au16,
            Opcode::LDIAddr(addr) => 0xA000u16 | addr,
            Opcode::RNDRegByte(reg, byte) => 0xC000u16 | (reg << 8) | byte,
            Opcode::DRWRegRegNibble(reg1, reg2, nib) => 0xD000u16 | (reg1 << 8) | (reg2 << 4) | nib,
            Opcode::JP(addr) => 0x1000u16 | addr,
            Opcode::CALL(addr) => 0x2000u16 | addr,
            Opcode::RET => 0x00EEu16,
        }
    }

    /// Appends the instruction of every opcode to the words, and its two
    /// bytes, the high one first, to the bytes.
    pub fn assemble(&mut self)
        ensures
            final(self).opcodes() == old(self).opcodes(),
            final(self).words() == old(self).words() + encode_all(old(self).opcodes()),
            final(self).bytes() == old(self).bytes() + big_endian(encode_all(old(self).opcodes())),
    {
        let ghost all = encode_all(self.code@);
        let mut i: usize = 0;
        while i < self.code.len()
            invariant
                i <= self.code.len(),
                self.code == old(self).code,
                all == encode_all(self.code@),
                self.binary_u16@ == old(self).binary_u16@ + all.take(i as int),
                self.binary@ == old(self).binary@ + big_endian(all.take(i as int)),
            decreases self.code.len() - i,
        {
            let word = Assembler::opcode_to_u16(&self.code[i]);
            self.binary_u16.push(word);
            assert(word >> 8 <= 0xFF && word & 0xFF <= 0xFF) by (bit_vector);
            let high = (word >> 8) as u8;
            let low = (word & 0xFF) as u8;
            self.binary.push(high);
            self.binary.push(low);
            proof {
                assert(all.take(i as int).push(word) =~= all.take(i + 1));
                assert(self.binary_u16@ =~= old(self).binary_u16@ + all.take(i + 1));
                assert(big_endian(all.take(i as int)).push(high).push(low) =~= big_endian(
                    all.take(i + 1),
                ));
                assert(self.binary@ =~= old(self).binary@ + big_endian(all.take(i + 1)));
            }
            i += 1;
        }
        assert(all.take(self.code.len() as int) =~= all);
    }

    /// The instructions assembled so far in hexadecimal, at least two digits
    /// each, a space between each two.
    pub fn stringify_binary(&self) -> (r: String)
        ensures
            r@ == joined(self.words().map_values(|w: u16| hex_text_padded(w as nat)), " "@),
    {
        let mut parts: Vec<String> = Vec::new();
        let mut i: usize = 0;
        while i < self.binary_u16.len()
            invariant
                i <= self.binary_u16.len(),
                parts@.len() == i,
                forall|k: int|
                    0 <= k < i ==> (#[trigger] parts@[k])@ == hex_text_padded(
                        self.binary_u16@[k] as nat,
                    ),
            decreases self.binary_u16.len() - i,
        {
            let mut part = String::new();
            push_hex_padded(&mut part, self.binary_u16[i]);
            assert(Seq::<char>::empty() + hex_text_padded(self.binary_u16@[i as int] as nat)
                =~= hex_text_padded(self.binary_u16@[i as int] as nat));
            parts.push(part);
            i += 1;
        }
        assert(parts@.map_values(|p: String| p@) =~= self.words().map_values(
            |w: u16| hex_text_padded(w as nat),
        ));
        join(&parts, " ")
    }

    /// The bytes assembled so far.
    pub fn binary(&self) -> (r: &Vec<u8>)
        ensures
            r@ == self.bytes(),
    {
        &self.binary
    }
}

} // verus!
