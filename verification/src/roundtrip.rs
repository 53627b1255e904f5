//! From opcodes to bytes and back to text: what a disassembly shows of an
//! assembled program, and what a tick keeps true of a machine.

use crate::assembler::{big_endian, encode, encode_all, high_byte, low_byte as low_byte_of_word};
use crate::chip8::{disassembly};
use crate::compiler::Opcode;
use crate::disasm::{mnemonic, register_text};
use crate::machine::{
    address, decode, execute, fault, fetched, flag, flipped, loaded_machine, low_byte, low_nibble,
    pressed_key, reg_x, reg_y, sprite_collides, sprite_covers, sprite_drawn, step, word_at,
    Machine, Operation, PIXEL_OFF, PIXEL_ON,
};
use crate::text::hex_text;
use vstd::prelude::*;

verus! {

/// The text that a disassembly shows for an opcode.
pub open spec fn opcode_text(op: Opcode) -> Seq<char> {
    match op {
        Opcode::LDRegByte(reg, byte) => "LD "@ + register_text(reg as int) + ", "@ + hex_text(
            byte as nat,
        ),
        Opcode::LDRegReg(reg1, reg2) => "LD "@ + register_text(reg1 as int) + ", "@
            + register_text(reg2 as int),
        Opcode::AddRegReg(reg1, reg2) => "ADD "@ + register_text(reg1 as int) + ", "@
            + register_text(reg2 as int),
        Opcode::SubRegReg(reg1, reg2) => "SUB "@ + register_text(reg1 as int) + ", "@
            + register_text(reg2 as int),
        Opcode::SERegReg(reg1, reg2) => "SE "@ + register_text(reg1 as int) + ", "@
            + register_text(reg2 as int),
        Opcode::SNERegReg(reg1, reg2) => "SNE "@ + register_text(reg1 as int) + ", "@
            + register_text(reg2 as int),
        Opcode::LDFReg(reg) => "LD F, "@ + register_text(reg as int),
        Opcode::LDIReg(reg) => "LD [I], "@ + register_text(reg as int),
        Opcode::LDRegI(reg) => "LD "@ + register_text(reg as int) + ", [I]"@,
        Opcode::LDDTReg(reg) => "LD DT, "@ + register_text(reg as int),
        Opcode::LDRegDT(reg) => "LD "@ + register_text(reg as int) + ", DT"@,
        Opcode::LDSTReg(reg) => "LD ST, "@ + register_text(reg as int),
        Opcode::LDRegKey(reg) => "LD "@ + register_text(reg as int) + ", K"@,
        Opcode::LDIAddr(addr) => "LD I, "@ + hex_text(addr as nat),
        Opcode::RNDRegByte(reg, byte) => "RND "@ + register_text(reg as int) + ", "@ + hex_text(
            byte as nat,
        ),
        Opcode::DRWRegRegNibble(reg1, reg2, nib) => "DRW "@ + register_text(reg1 as int) + ", "@
            + register_text(reg2 as int) + ", "@ + hex_text(nib as nat),
        Opcode::JP(addr) => "JP "@ + hex_text(addr as nat),
        Opcode::CALL(addr) => "CALL "@ + hex_text(addr as nat),
        Opcode::RET => "RET"@,
    }
}

/// An instruction made of a high nibble, a register and a byte gives them
/// back.
proof fn lemma_fields_xkk(base: u16, reg: u16, byte: u16)
    requires
        base % 4096 == 0,
        reg < 16,
        byte < 256,
    ensures
        (base | (reg << 8) | byte) / 4096 == base / 4096,
        ((base | (reg << 8) | byte) / 256) % 16 == reg,
        (base | (reg << 8) | byte) % 256 == byte,
{
    assert(base % 4096 == 0 && reg < 16 && byte < 256 ==> (base | (reg << 8) | byte) / 4096
        == base / 4096 && ((base | (reg << 8) | byte) / 256) % 16 == reg && (base | (reg << 8)
        | byte) % 256 == byte) by (bit_vector);
}

/// An instruction made of a high nibble, two registers and a low nibble
/// gives them back.
proof fn lemma_fields_xyn(base: u16, reg1: u16, reg2: u16, nib: u16)
    requires
        base % 4096 == 0,
        reg1 < 16,
        reg2 < 16,
        nib < 16,
    ensures
        (base | (reg1 << 8) | (reg2 << 4) | nib) / 4096 == base / 4096,
        ((base | (reg1 << 8) | (reg2 << 4) | nib) / 256) % 16 == reg1,
        ((base | (reg1 << 8) | (reg2 << 4) | nib) / 16) % 16 == reg2,
        (base | (reg1 << 8) | (reg2 << 4) | nib) % 16 == nib,
{
    assert(base % 4096 == 0 && reg1 < 16 && reg2 < 16 && nib < 16 ==> (base | (reg1 << 8) | (
    reg2 << 4) | nib) / 4096 == base / 4096 && ((base | (reg1 << 8) | (reg2 << 4) | nib) / 256)
        % 16 == reg1 && ((base | (reg1 << 8) | (reg2 << 4) | nib) / 16) % 16 == reg2 && (base | (
    reg1 << 8) | (reg2 << 4) | nib) % 16 == nib) by (bit_vector);
}

/// An instruction made of a high nibble and an address gives them back.
proof fn lemma_fields_nnn(base: u16, addr: u16)
    requires
        base % 4096 == 0,
        addr < 4096,
    ensures
        (base | addr) / 4096 == base / 4096,
        (base | addr) % 4096 == addr,
{
    assert(base % 4096 == 0 && addr < 4096 ==> (base | addr) / 4096 == base / 4096 && (base
        | addr) % 4096 == addr) by (bit_vector);
}

/// The disassembly of the instruction of a well-formed opcode is the
/// opcode's text: assembling loses nothing that the text shows.
pub proof fn lemma_disassembly_of_opcode(op: Opcode)
    requires
        op.wf(),
    ensures
        mnemonic(encode(op)) == opcode_text(op),
{
    reveal_strlit("");
    assert(""@ =~= Seq::<char>::empty());
    let w = encode(op);
    match op {
        Opcode::LDRegByte(reg, byte) => {
            lemma_fields_xkk(0x6000, reg, byte);
            assert(decode(w) == Operation::LdByte);
            assert(mnemonic(w) =~= opcode_text(op));
        },
        Opcode::RNDRegByte(reg, byte) => {
            lemma_fields_xkk(0xC000, reg, byte);
            assert(decode(w) == Operation::Rnd);
            assert(mnemonic(w) =~= opcode_text(op));
        },
        Opcode::LDRegReg(reg1, reg2) => {
            lemma_fields_xyn(0x8000, reg1, reg2, 0);
            assert(decode(w) == Operation::LdReg);
            assert(mnemonic(w) =~= opcode_text(op));
        },
        Opcode::AddRegReg(reg1, reg2) => {
            lemma_fields_xyn(0x8000, reg1, reg2, 4);
            assert(decode(w) == Operation::AddReg);
            assert(mnemonic(w) =~= opcode_text(op));
        },
        Opcode::SubRegReg(reg1, reg2) => {
            lemma_fields_xyn(0x8000, reg1, reg2, 5);
            assert(decode(w) == Operation::SubReg);
            assert(mnemonic(w) =~= opcode_text(op));
        },
        Opcode::SERegReg(reg1, reg2) => {
            lemma_fields_xyn(0x5000, reg1, reg2, 0);
            assert(decode(w) == Operation::SeReg);
            assert(mnemonic(w) =~= opcode_text(op));
        },
        Opcode::SNERegReg(reg1, reg2) => {
            lemma_fields_xyn(0x9000, reg1, reg2, 0);
            assert(decode(w) == Operation::SneReg);
            assert(mnemonic(w) =~= opcode_text(op));
        },
        Opcode::DRWRegRegNibble(reg1, reg2, nib) => {
            lemma_fields_xyn(0xD000, reg1, reg2, nib);
            assert(decode(w) == Operation::Drw);
            assert(mnemonic(w) =~= opcode_text(op));
        },
        Opcode::LDFReg(reg) => {
            lemma_fields_xkk(0xF000, reg, 0x29);
            assert(decode(w) == Operation::LdF);
            assert(mnemonic(w) =~= opcode_text(op));
        },
        Opcode::LDIReg(reg) => {
            lemma_fields_xkk(0xF000, reg, 0x55);
            assert(decode(w) == Operation::LdIReg);
            assert(mnemonic(w) =~= opcode_text(op));
        },
        Opcode::LDRegI(reg) => {
            lemma_fields_xkk(0xF000, reg, 0x65);
            assert(decode(w) == Operation::LdRegI);
            assert(mnemonic(w) =~= opcode_text(op));
        },
        Opcode::LDDTReg(reg) => {
            lemma_fields_xkk(0xF000, reg, 0x15);
            assert(decode(w) == Operation::LdDtReg);
            assert(mnemonic(w) =~= opcode_text(op));
        },
        Opcode::LDRegDT(reg) => {
            lemma_fields_xkk(0xF000, reg, 0x07);
            assert(decode(w) == Operation::LdRegDt);
            assert(mnemonic(w) =~= opcode_text(op));
        },
        Opcode::LDSTReg(reg) => {
            lemma_fields_xkk(0xF000, reg, 0x18);
            assert(decode(w) == Operation::LdStReg);
            assert(mnemonic(w) =~= opcode_text(op));
        },
        Opcode::LDRegKey(reg) => {
            lemma_fields_xkk(0xF000, reg, 0x0A);
            assert(decode(w) == Operation::LdRegKey);
            assert(mnemonic(w) =~= opcode_text(op));
        },
        Opcode::LDIAddr(addr) => {
            lemma_fields_nnn(0xA000, addr);
            assert(decode(w) == Operation::LdI);
            assert(mnemonic(w) =~= opcode_text(op));
        },
        Opcode::JP(addr) => {
            lemma_fields_nnn(0x1000, addr);
            assert(decode(w) == Operation::Jp);
            assert(mnemonic(w) =~= opcode_text(op));
        },
        Opcode::CALL(addr) => {
            lemma_fields_nnn(0x2000, addr);
            assert(decode(w) == Operation::Call);
            assert(mnemonic(w) =~= opcode_text(op));
        },
        Opcode::RET => {
            assert(decode(0x00EEu16) == Operation::Ret);
            assert(mnemonic(w) =~= opcode_text(op));
        },
    }
}

/// A program of well-formed opcodes that fits into memory is assembled,
/// loaded and disassembled: the listing then shows, at the address of each
/// opcode, that opcode's text.
pub proof fn lemma_disassembly_of_program(ops: Seq<Opcode>, i: int)
    requires
        forall|k: int| 0 <= k < ops.len() ==> (#[trigger] ops[k]).wf(),
        ops.len() <= 1792,
        0 <= i < ops.len(),
    ensures
        disassembly(loaded_machine(big_endian(encode_all(ops))).ram).contains_key(
            (0x200 + 2 * i) as u16,
        ),
        disassembly(loaded_machine(big_endian(encode_all(ops))).ram)[(0x200 + 2 * i) as u16]
            == opcode_text(ops[i]),
{
    let words = encode_all(ops);
    let bytes = big_endian(words);
    let ram = loaded_machine(bytes).ram;
    let pc = 0x200 + 2 * i;
    let w = words[i];
    assert(ram[pc] == high_byte(w));
    assert(ram[pc + 1] == low_byte_of_word(w));
    assert((w >> 8) as u8 as u16 * 256 + (w & 0xFF) as u8 as u16 == w) by (bit_vector);
    assert(word_at(ram, pc) == w);
    lemma_disassembly_of_opcode(ops[i]);
}

/// Whether a tick that runs leaves `pc` past the end of memory: a jump to
/// `V0 + nnn` that is too far, a return to an address that a call at the
/// last word of memory has stored, or an instruction at one of the last
/// words of memory after which `pc` moves on by two, or by four where the
/// instruction skips.
pub open spec fn runs_off(m: Machine) -> bool {
    let f = fetched(m);
    let x = reg_x(f.opcode);
    let y = reg_y(f.opcode);
    let kk = low_byte(f.opcode);
    let past = |skips: bool|
        if skips {
            m.pc + 4 > 0xFFF
        } else {
            m.pc + 2 > 0xFFF
        };
    match decode(f.opcode) {
        Operation::Jp | Operation::Call => false,
        Operation::JpV0 => m.v[0] + address(f.opcode) > 0xFFF,
        Operation::Ret => m.stack[m.sp - 1] > 0xFFF,
        Operation::SeByte => past(m.v[x] == kk),
        Operation::SneByte => past(m.v[x] != kk),
        Operation::SeReg => past(m.v[x] == m.v[y]),
        Operation::SneReg => past(m.v[x] != m.v[y]),
        Operation::Skp => past(m.keys[m.v[x] as int] != 0),
        Operation::Sknp => past(m.keys[m.v[x] as int] == 0),
        Operation::LdRegKey => pressed_key(m.keys) is Some && m.pc + 2 > 0xFFF,
        _ => m.pc + 2 > 0xFFF,
    }
}

/// A tick that runs keeps the machine well formed: the stack holds at most
/// sixteen addresses, and every pixel is on or off. It leaves `pc` in memory,
/// but where it runs off the end.
pub proof fn lemma_tick_keeps_machine(m: Machine, random: u8)
    requires
        m.wf(),
        step(m, random) is Ok,
    ensures
        step(m, random)->Ok_0.wf(),
        step(m, random)->Ok_0.sp <= 16,
        forall|k: int|
            0 <= k < 2048 ==> {
                let pixel = #[trigger] step(m, random)->Ok_0.framebuffer[k];
                pixel == PIXEL_OFF || pixel == PIXEL_ON
            },
        m.pc <= 0xFFE,
        step(m, random)->Ok_0.pc <= 0xFFF <==> !runs_off(m),
{
    let f = fetched(m);
    let after = execute(f, random);
    assert(0u32 ^ 0xFFFF_FFFFu32 == 0xFFFF_FFFFu32) by (bit_vector);
    assert(0xFFFF_FFFFu32 ^ 0xFFFF_FFFFu32 == 0u32) by (bit_vector);
    assert(after.wf());
    assert(address(f.opcode) <= 0xFFF);
}

/// Drawing a sprite sets VF to one if and only if it turns off at least one
/// pixel that was on, and to zero otherwise.
pub proof fn lemma_draw_flags_collision(m: Machine, random: u8)
    requires
        m.wf(),
        step(m, random) is Ok,
        decode(fetched(m).opcode) == Operation::Drw,
    ensures
        step(m, random)->Ok_0.v[0xF] == 1 <==> exists|k: int|
            0 <= k < 2048 && m.framebuffer[k] == PIXEL_ON && #[trigger] step(
                m,
                random,
            )->Ok_0.framebuffer[k] == PIXEL_OFF,
        step(m, random)->Ok_0.v[0xF] == 1 || step(m, random)->Ok_0.v[0xF] == 0,
{
    let f = fetched(m);
    let after = step(m, random)->Ok_0;
    let x_pos = f.v[reg_x(f.opcode)] as int;
    let y_pos = f.v[reg_y(f.opcode)] as int;
    let n = low_nibble(f.opcode);
    assert(0u32 ^ 0xFFFF_FFFFu32 == 0xFFFF_FFFFu32) by (bit_vector);
    assert(0xFFFF_FFFFu32 ^ 0xFFFF_FFFFu32 == 0u32) by (bit_vector);
    assert(after.framebuffer == sprite_drawn(f, x_pos, y_pos, n));
    if sprite_collides(f, x_pos, y_pos, n) {
        let k = choose|k: int|
            0 <= k < 2048 && #[trigger] sprite_covers(f, x_pos, y_pos, n, k) && f.framebuffer[k]
                == PIXEL_ON;
        assert(after.framebuffer[k] == PIXEL_OFF);
    }
    if exists|k: int|
        0 <= k < 2048 && m.framebuffer[k] == PIXEL_ON && #[trigger] after.framebuffer[k]
            == PIXEL_OFF {
        let k = choose|k: int|
            0 <= k < 2048 && m.framebuffer[k] == PIXEL_ON && #[trigger] after.framebuffer[k]
                == PIXEL_OFF;
        assert(sprite_covers(f, x_pos, y_pos, n, k));
    }
}

} // verus!
