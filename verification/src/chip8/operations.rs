//! The instructions, one function each, and the tick that runs them.

use crate::chip8::{entry, random_byte, Chip8};
use crate::machine::{
    address, decode, draws_random, execute, fault, fetched, first_pressed, flag, flipped, low_byte,
    low_nibble, main_table, reg_x, reg_y, sprite_col, sprite_collides, sprite_covers, sprite_drawn,
    sprite_row, step, table_0, table_8, table_e, table_f, top_nibble, word_at, Chip8Error, Machine,
    Operation, PIXEL_OFF, PIXEL_ON,
};
use vstd::prelude::*;

verus! {

/// `x`: the second nibble of an instruction.
pub fn x_of(opcode: u16) -> (r: usize)
    ensures
        r == reg_x(opcode),
        r < 16,
{
    assert((opcode & 0x0F00u16) >> 8u16 == (opcode / 256u16) % 16u16) by (bit_vector);
    ((opcode & 0x0F00u16) >> 8u16) as usize
}

/// `y`: the third nibble of an instruction.
pub fn y_of(opcode: u16) -> (r: usize)
    ensures
        r == reg_y(opcode),
        r < 16,
{
    assert((opcode & 0x00F0u16) >> 4u16 == (opcode / 16u16) % 16u16) by (bit_vector);
    ((opcode & 0x00F0u16) >> 4u16) as usize
}

/// `n`: the lowest nibble of an instruction.
pub fn n_of(opcode: u16) -> (r: u16)
    ensures
        r == low_nibble(opcode),
        r < 16,
{
    assert(opcode & 0x000Fu16 == opcode % 16u16) by (bit_vector);
    opcode & 0x000Fu16
}

/// `kk`: the low byte of an instruction.
pub fn kk_of(opcode: u16) -> (r: u8)
    ensures
        r == low_byte(opcode),
{
    assert(opcode & 0x00FFu16 == opcode % 256u16) by (bit_vector);
    (opcode & 0x00FFu16) as u8
}

/// `nnn`: the low twelve bits of an instruction.
pub fn nnn_of(opcode: u16) -> (r: u16)
    ensures
        r == address(opcode),
        r <= 0xFFF,
{
    assert(opcode & 0x0FFFu16 == opcode % 4096u16) by (bit_vector);
    opcode & 0x0FFFu16
}

/// The highest nibble of an instruction.
pub fn top_of(opcode: u16) -> (r: usize)
    ensures
        r == top_nibble(opcode),
        r < 16,
{
    assert((opcode & 0xF000u16) >> 12u16 == opcode / 4096u16) by (bit_vector);
    ((opcode & 0xF000u16) >> 12u16) as usize
}

/// The two states of a pixel are each other's flipped state.
pub proof fn lemma_flipped()
    ensures
        flipped(PIXEL_OFF) == PIXEL_ON,
        flipped(PIXEL_ON) == PIXEL_OFF,
{
    assert(0u32 ^ 0xFFFF_FFFFu32 == 0xFFFF_FFFFu32) by (bit_vector);
    assert(0xFFFF_FFFFu32 ^ 0xFFFF_FFFFu32 == 0u32) by (bit_vector);
}

#[allow(non_snake_case)]
impl Chip8 {
    /// Everything but the machine's state is the same in both.
    pub closed spec fn unchanged_but_state(self, other: Chip8) -> bool {
        &&& self.saved_state == other.saved_state
        &&& self.fontset == other.fontset
        &&& self.video_width == other.video_width
        &&& self.video_height == other.video_height
        &&& self.opcodes == other.opcodes
        &&& self.opcodes_0 == other.opcodes_0
        &&& self.opcodes_8 == other.opcodes_8
        &&& self.opcodes_E == other.opcodes_E
        &&& self.opcodes_F == other.opcodes_F
        &&& self.disasm_map == other.disasm_map
    }

    /// `00E0`: clears the screen.
    pub fn OP_00E0(&mut self)
        requires
            old(self).wf(),
            decode(old(self)@.opcode) == Operation::Cls,
        ensures
            final(self)@ == execute(old(self)@, 0),
            final(self).unchanged_but_state(*old(self)),
            final(self)@.wf(),
            final(self).wf(),
            final(self).saved() == old(self).saved(),
            final(self).listing() == old(self).listing(),
    {
        self.state.framebuffer = [0;2048];
        assert(self.state@.framebuffer =~= Seq::new(2048, |k: int| PIXEL_OFF));
    }

    fn OP_00EE(&mut self)
        requires
            old(self).wf(),
            decode(old(self)@.opcode) == Operation::Ret,
            fault(old(self)@) is None,
            old(self)@.pc <= 0x1000,
            old(self)@.pc >= 2,
        ensures
            final(self)@ == execute(old(self)@, 0),
            final(self).unchanged_but_state(*old(self)),
            final(self)@.wf(),
    {
        self.state.sp -= 1;
        self.state.pc = self.state.stack[self.state.sp as usize];
    }

    fn OP_1nnn(&mut self)
        requires
            old(self).wf(),
            decode(old(self)@.opcode) == Operation::Jp,
            fault(old(self)@) is None,
            old(self)@.pc <= 0x1000,
            old(self)@.pc >= 2,
        ensures
            final(self)@ == execute(old(self)@, 0),
            final(self).unchanged_but_state(*old(self)),
            final(self)@.wf(),
    {
        //read the final 12 bits, corresponding to the address to jump to
        let nnn = nnn_of(self.state.opcode);
        //set the program counter to the address to jump to
        self.state.pc = nnn;
    }

    fn OP_2nnn(&mut self)
        requires
            old(self).wf(),
            decode(old(self)@.opcode) == Operation::Call,
            fault(old(self)@) is None,
            old(self)@.pc <= 0x1000,
            old(self)@.pc >= 2,
        ensures
            final(self)@ == execute(old(self)@, 0),
            final(self).unchanged_but_state(*old(self)),
            final(self)@.wf(),
    {
        let nnn = nnn_of(self.state.opcode);

        self.state.stack[self.state.sp as usize] = self.state.pc;
        self.state.sp += 1;

        self.state.pc = nnn;
    }

    fn OP_3xkk(&mut self)
        requires
            old(self).wf(),
            decode(old(self)@.opcode) == Operation::SeByte,
            fault(old(self)@) is None,
            old(self)@.pc <= 0x1000,
            old(self)@.pc >= 2,
        ensures
            final(self)@ == execute(old(self)@, 0),
            final(self).unchanged_but_state(*old(self)),
            final(self)@.wf(),
    {
        let x = x_of(self.state.opcode);
        let kk = kk_of(self.state.opcode);

        if self.state.V[x] == kk {
            self.state.pc += 2;
        }
    }

    fn OP_4xkk(&mut self)
        requires
            old(self).wf(),
            decode(old(self)@.opcode) == Operation::SneByte,
            fault(old(self)@) is None,
            old(self)@.pc <= 0x1000,
            old(self)@.pc >= 2,
        ensures
            final(self)@ == execute(old(self)@, 0),
            final(self).unchanged_but_state(*old(self)),
            final(self)@.wf(),
    {
        let x = x_of(self.state.opcode);
        let kk = kk_of(self.state.opcode);

        if self.state.V[x] != kk {
            self.state.pc += 2;
        }
    }

    fn OP_5xy0(&mut self)
        requires
            old(self).wf(),
            decode(old(self)@.opcode) == Operation::SeReg,
            fault(old(self)@) is None,
            old(self)@.pc <= 0x1000,
            old(self)@.pc >= 2,
        ensures
            final(self)@ == execute(old(self)@, 0),
            final(self).unchanged_but_state(*old(self)),
            final(self)@.wf(),
    {
        let x = x_of(self.state.opcode);
        let y = y_of(self.state.opcode);

        if self.state.V[x] == self.state.V[y] {
            self.state.pc += 2;
        }
    }

    fn OP_6xkk(&mut self)
        requires
            old(self).wf(),
            decode(old(self)@.opcode) == Operation::LdByte,
            fault(old(self)@) is None,
            old(self)@.pc <= 0x1000,
            old(self)@.pc >= 2,
        ensures
            final(self)@ == execute(old(self)@, 0),
            final(self).unchanged_but_state(*old(self)),
            final(self)@.wf(),
    {
        let x = x_of(self.state.opcode);
        let kk = kk_of(self.state.opcode);

        self.state.V[x] = kk;
    }

    #[verifier::rlimit(50)]
    fn OP_7xkk(&mut self)
        requires
            old(self).wf(),
            decode(old(self)@.opcode) == Operation::AddByte,
            fault(old(self)@) is None,
            old(self)@.pc <= 0x1000,
            old(self)@.pc >= 2,
        ensures
            final(self)@ == execute(old(self)@, 0),
            final(self).unchanged_but_state(*old(self)),
            final(self)@.wf(),
    {
        let x = x_of(self.state.opcode);
        let kk = kk_of(self.state.opcode);

        let value = self.state.V[x];
        let sum = value.wrapping_add(kk);
        assert(sum as int == (value + kk) % 256);
        self.state.V[x] = sum;
    }

    fn OP_9xy0(&mut self)
        requires
            old(self).wf(),
            decode(old(self)@.opcode) == Operation::SneReg,
            fault(old(self)@) is None,
            old(self)@.pc <= 0x1000,
            old(self)@.pc >= 2,
        ensures
            final(self)@ == execute(old(self)@, 0),
            final(self).unchanged_but_state(*old(self)),
            final(self)@.wf(),
    {
        let x = x_of(self.state.opcode);
        let y = y_of(self.state.opcode);

        if self.state.V[x] != self.state.V[y] {
            self.state.pc += 2;
        }
    }

    fn OP_Annn(&mut self)
        requires
            old(self).wf(),
            decode(old(self)@.opcode) == Operation::LdI,
            fault(old(self)@) is None,
            old(self)@.pc <= 0x1000,
            old(self)@.pc >= 2,
        ensures
            final(self)@ == execute(old(self)@, 0),
            final(self).unchanged_but_state(*old(self)),
            final(self)@.wf(),
    {
        let nnn = nnn_of(self.state.opcode);

        self.state.I = nnn;
    }

    fn OP_Bnnn(&mut self)
        requires
            old(self).wf(),
            decode(old(self)@.opcode) == Operation::JpV0,
            fault(old(self)@) is None,
            old(self)@.pc <= 0x1000,
            old(self)@.pc >= 2,
        ensures
            final(self)@ == execute(old(self)@, 0),
            final(self).unchanged_but_state(*old(self)),
            final(self)@.wf(),
    {
        let nnn = nnn_of(self.state.opcode);

        self.state.pc = (self.state.V[0] as u16) + nnn;
    }

    fn OP_8xy0(&mut self)
        requires
            old(self).wf(),
            decode(old(self)@.opcode) == Operation::LdReg,
            fault(old(self)@) is None,
            old(self)@.pc <= 0x1000,
            old(self)@.pc >= 2,
        ensures
            final(self)@ == execute(old(self)@, 0),
            final(self).unchanged_but_state(*old(self)),
            final(self)@.wf(),
    {
        let x = x_of(self.state.opcode);
        let y = y_of(self.state.opcode);

        self.state.V[x] = self.state.V[y];
    }

    fn OP_8xy1(&mut self)
        requires
            old(self).wf(),
            decode(old(self)@.opcode) == Operation::Or,
            fault(old(self)@) is None,
            old(self)@.pc <= 0x1000,
            old(self)@.pc >= 2,
        ensures
            final(self)@ == execute(old(self)@, 0),
            final(self).unchanged_but_state(*old(self)),
            final(self)@.wf(),
    {
        let x = x_of(self.state.opcode);
        let y = y_of(self.state.opcode);

        self.state.V[x] = self.state.V[x] | self.state.V[y];
    }

    fn OP_8xy2(&mut self)
        requires
            old(self).wf(),
            decode(old(self)@.opcode) == Operation::And,
            fault(old(self)@) is None,
            old(self)@.pc <= 0x1000,
            old(self)@.pc >= 2,
        ensures
            final(self)@ == execute(old(self)@, 0),
            final(self).unchanged_but_state(*old(self)),
            final(self)@.wf(),
    {
        let x = x_of(self.state.opcode);
        let y = y_of(self.state.opcode);

        self.state.V[x] = self.state.V[x] & self.state.V[y];
    }

    fn OP_8xy3(&mut self)
        requires
            old(self).wf(),
            decode(old(self)@.opcode) == Operation::Xor,
            fault(old(self)@) is None,
            old(self)@.pc <= 0x1000,
            old(self)@.pc >= 2,
        ensures
            final(self)@ == execute(old(self)@, 0),
            final(self).unchanged_but_state(*old(self)),
            final(self)@.wf(),
    {
        let x = x_of(self.state.opcode);
        let y = y_of(self.state.opcode);

        self.state.V[x] = self.state.V[x] ^ self.state.V[y];
    }

    #[verifier::rlimit(50)]
    fn OP_8xy4(&mut self)
        requires
            old(self).wf(),
            decode(old(self)@.opcode) == Operation::AddReg,
            fault(old(self)@) is None,
            old(self)@.pc <= 0x1000,
            old(self)@.pc >= 2,
        ensures
            final(self)@ == execute(old(self)@, 0),
            final(self).unchanged_but_state(*old(self)),
            final(self)@.wf(),
    {
        let x = x_of(self.state.opcode);
        let y = y_of(self.state.opcode);

        let sum: u16 = self.state.V[x] as u16 + self.state.V[y] as u16;
        if sum > 255 {
            self.state.V[0xF] = 1;
        } else {
            self.state.V[0xF] = 0;
        }

        self.state.V[x] = (sum % 256) as u8;
    }

    #[verifier::rlimit(50)]
    fn OP_8xy5(&mut self)
        requires
            old(self).wf(),
            decode(old(self)@.opcode) == Operation::SubReg,
            fault(old(self)@) is None,
            old(self)@.pc <= 0x1000,
            old(self)@.pc >= 2,
        ensures
            final(self)@ == execute(old(self)@, 0),
            final(self).unchanged_but_state(*old(self)),
            final(self)@.wf(),
    {
        let x = x_of(self.state.opcode);
        let y = y_of(self.state.opcode);

        if self.state.V[x] >= self.state.V[y] {
            self.state.V[0xF] = 1;
        } else {
            self.state.V[0xF] = 0;
        }

        let minuend = self.state.V[x];
        let subtrahend = self.state.V[y];
        let difference = minuend.wrapping_sub(subtrahend);
        assert(difference as int == (minuend - subtrahend) % 256);
        self.state.V[x] = difference;
    }

    fn OP_8xy6(&mut self)
        requires
            old(self).wf(),
            decode(old(self)@.opcode) == Operation::Shr,
            fault(old(self)@) is None,
            old(self)@.pc <= 0x1000,
            old(self)@.pc >= 2,
        ensures
            final(self)@ == execute(old(self)@, 0),
            final(self).unchanged_but_state(*old(self)),
            final(self)@.wf(),
    {
        let x = x_of(self.state.opcode);

        self.state.V[0xF] = self.state.V[x] % 2;

        self.state.V[x] = self.state.V[x] / 2;
    }

    #[verifier::rlimit(50)]
    fn OP_8xy7(&mut self)
        requires
            old(self).wf(),
            decode(old(self)@.opcode) == Operation::Subn,
            fault(old(self)@) is None,
            old(self)@.pc <= 0x1000,
            old(self)@.pc >= 2,
        ensures
            final(self)@ == execute(old(self)@, 0),
            final(self).unchanged_but_state(*old(self)),
            final(self)@.wf(),
    {
        let x = x_of(self.state.opcode);
        let y = y_of(self.state.opcode);

        if self.state.V[y] >= self.state.V[x] {
            self.state.V[0xF] = 1;
        } else {
            self.state.V[0xF] = 0;
        }

        let minuend = self.state.V[y];
        let subtrahend = self.state.V[x];
        let difference = minuend.wrapping_sub(subtrahend);
        assert(difference as int == (minuend - subtrahend) % 256);
        self.state.V[x] = difference;
    }

    fn OP_8xyE(&mut self)
        requires
            old(self).wf(),
            decode(old(self)@.opcode) == Operation::Shl,
            fault(old(self)@) is None,
            old(self)@.pc <= 0x1000,
            old(self)@.pc >= 2,
        ensures
            final(self)@ == execute(old(self)@, 0),
            final(self).unchanged_but_state(*old(self)),
            final(self)@.wf(),
    {
        let x = x_of(self.state.opcode);

        self.state.V[0xF] = self.state.V[x] / 128;

        let value = self.state.V[x];
        let doubled = value.wrapping_mul(2);
        assert(doubled as int == (value * 2) % 256);
        self.state.V[x] = doubled;
    }

    fn OP_Ex9E(&mut self)
        requires
            old(self).wf(),
            decode(old(self)@.opcode) == Operation::Skp,
            fault(old(self)@) is None,
            old(self)@.pc <= 0x1000,
            old(self)@.pc >= 2,
        ensures
            final(self)@ == execute(old(self)@, 0),
            final(self).unchanged_but_state(*old(self)),
            final(self)@.wf(),
    {
        let x = x_of(self.state.opcode);
        let key = self.state.V[x];

        if self.state.keys[key as usize] > 0 {
            self.state.pc += 2;
        }
    }

    fn OP_ExA1(&mut self)
        requires
            old(self).wf(),
            decode(old(self)@.opcode) == Operation::Sknp,
            fault(old(self)@) is None,
            old(self)@.pc <= 0x1000,
            old(self)@.pc >= 2,
        ensures
            final(self)@ == execute(old(self)@, 0),
            final(self).unchanged_but_state(*old(self)),
            final(self)@.wf(),
    {
        let x = x_of(self.state.opcode);
        let key = self.state.V[x];

        if self.state.keys[key as usize] == 0 {
            self.state.pc += 2;
        }
    }

    fn OP_Fx07(&mut self)
        requires
            old(self).wf(),
            decode(old(self)@.opcode) == Operation::LdRegDt,
            fault(old(self)@) is None,
            old(self)@.pc <= 0x1000,
            old(self)@.pc >= 2,
        ensures
            final(self)@ == execute(old(self)@, 0),
            final(self).unchanged_but_state(*old(self)),
            final(self)@.wf(),
    {
        let x = x_of(self.state.opcode);

        self.state.V[x] = self.state.delay_timer;
    }

    fn OP_Fx0A(&mut self)
        requires
            old(self).wf(),
            decode(old(self)@.opcode) == Operation::LdRegKey,
            fault(old(self)@) is None,
            old(self)@.pc <= 0x1000,
            old(self)@.pc >= 2,
        ensures
            final(self)@ == execute(old(self)@, 0),
            final(self).unchanged_but_state(*old(self)),
            final(self)@.wf(),
    {
        let x = x_of(self.state.opcode);

        let mut key_pressed = false;
        let mut idx: usize = 0;
        while idx < 16
            invariant_except_break
                !key_pressed,
            invariant
                idx <= 16,
                *self == *old(self),
                first_pressed(self.state@.keys, 0) == first_pressed(self.state@.keys, idx as int),
            ensures
                key_pressed ==> idx < 16 && first_pressed(self.state@.keys, 0) == Some(idx as int),
                !key_pressed ==> first_pressed(self.state@.keys, 0) is None,
                *self == *old(self),
            decreases 16 - idx,
        {
            if self.state.keys[idx] > 0 {
                key_pressed = true;
                break ;
            }
            idx += 1;
        }

        if key_pressed {
            self.state.V[x] = idx as u8;
        } else {
            self.state.pc -= 2;
        }
    }

    fn OP_Fx15(&mut self)
        requires
            old(self).wf(),
            decode(old(self)@.opcode) == Operation::LdDtReg,
            fault(old(self)@) is None,
            old(self)@.pc <= 0x1000,
            old(self)@.pc >= 2,
        ensures
            final(self)@ == execute(old(self)@, 0),
            final(self).unchanged_but_state(*old(self)),
            final(self)@.wf(),
    {
        let x = x_of(self.state.opcode);

        self.state.delay_timer = self.state.V[x];
    }

    fn OP_Fx18(&mut self)
        requires
            old(self).wf(),
            decode(old(self)@.opcode) == Operation::LdStReg,
            fault(old(self)@) is None,
            old(self)@.pc <= 0x1000,
            old(self)@.pc >= 2,
        ensures
            final(self)@ == execute(old(self)@, 0),
            final(self).unchanged_but_state(*old(self)),
            final(self)@.wf(),
    {
        let x = x_of(self.state.opcode);

        self.state.sound_timer = self.state.V[x];
    }

    fn OP_Fx1E(&mut self)
        requires
            old(self).wf(),
            decode(old(self)@.opcode) == Operation::AddI,
            fault(old(self)@) is None,
            old(self)@.pc <= 0x1000,
            old(self)@.pc >= 2,
        ensures
            final(self)@ == execute(old(self)@, 0),
            final(self).unchanged_but_state(*old(self)),
            final(self)@.wf(),
    {
        let x = x_of(self.state.opcode);

        let index = self.state.I;
        let offset = self.state.V[x] as u16;
        let sum = index.wrapping_add(offset);
        assert(sum as int == (index + offset) % 0x10000);
        self.state.I = sum;
    }

    fn OP_Fx29(&mut self)
        requires
            old(self).wf(),
            decode(old(self)@.opcode) == Operation::LdF,
            fault(old(self)@) is None,
            old(self)@.pc <= 0x1000,
            old(self)@.pc >= 2,
        ensures
            final(self)@ == execute(old(self)@, 0),
            final(self).unchanged_but_state(*old(self)),
            final(self)@.wf(),
    {
        let x = x_of(self.state.opcode);

        self.state.I = (self.state.V[x] as u16) * 5;
    }

    #[verifier::rlimit(50)]
    fn OP_Fx33(&mut self)
        requires
            old(self).wf(),
            decode(old(self)@.opcode) == Operation::LdB,
            fault(old(self)@) is None,
            old(self)@.pc <= 0x1000,
            old(self)@.pc >= 2,
        ensures
            final(self)@ == execute(old(self)@, 0),
            final(self).unchanged_but_state(*old(self)),
            final(self)@.wf(),
    {
        let x = x_of(self.state.opcode);
        let mut val = self.state.V[x];

        self.state.ram[(self.state.I + 2) as usize] = val % 10;
        val = val / 10;

        self.state.ram[(self.state.I + 1) as usize] = val % 10;
        val = val / 10;

        self.state.ram[self.state.I as usize] = val % 10;
    }

    #[verifier::rlimit(50)]
    fn OP_Fx55(&mut self)
        requires
            old(self).wf(),
            decode(old(self)@.opcode) == Operation::LdIReg,
            fault(old(self)@) is None,
            old(self)@.pc <= 0x1000,
            old(self)@.pc >= 2,
        ensures
            final(self)@ == execute(old(self)@, 0),
            final(self).unchanged_but_state(*old(self)),
            final(self)@.wf(),
    {
        let x = x_of(self.state.opcode);
        let ghost before = self.state@;

        let mut i: usize = 0;
        while i <= x
            invariant
                i <= x + 1,
                x < 16,
                before.i + x <= 0xFFF,
                before == old(self)@,
                before.v.len() == 16,
                self.unchanged_but_state(*old(self)),
                self.state@ == (Machine { ram: self.state@.ram, ..before }),
                self.state@.ram =~= Seq::new(
                    4096,
                    |a: int|
                        if before.i <= a < before.i + i {
                            before.v[a - before.i]
                        } else {
                            before.ram[a]
                        },
                ),
            decreases x + 1 - i,
        {
            self.state.ram[self.state.I as usize + i] = self.state.V[i];
            assert(self.state@.ram =~= Seq::new(
                4096,
                |a: int|
                    if before.i <= a < before.i + i + 1 {
                        before.v[a - before.i]
                    } else {
                        before.ram[a]
                    },
            ));
            i += 1;
        }

        self.state.I += (x + 1) as u16;
        assert(self.state@.ram =~= execute(before, 0).ram);
    }

    #[verifier::rlimit(50)]
    fn OP_Fx65(&mut self)
        requires
            old(self).wf(),
            decode(old(self)@.opcode) == Operation::LdRegI,
            fault(old(self)@) is None,
            old(self)@.pc <= 0x1000,
            old(self)@.pc >= 2,
        ensures
            final(self)@ == execute(old(self)@, 0),
            final(self).unchanged_but_state(*old(self)),
            final(self)@.wf(),
    {
        let x = x_of(self.state.opcode);
        let ghost before = self.state@;

        let mut i: usize = 0;
        while i <= x
            invariant
                i <= x + 1,
                x < 16,
                before.i + x <= 0xFFF,
                before == old(self)@,
                before.ram.len() == 4096,
                self.unchanged_but_state(*old(self)),
                self.state@ == (Machine { v: self.state@.v, ..before }),
                self.state@.v =~= Seq::new(
                    16,
                    |r: int|
                        if r < i {
                            before.ram[before.i + r]
                        } else {
                            before.v[r]
                        },
                ),
            decreases x + 1 - i,
        {
            self.state.V[i] = self.state.ram[self.state.I as usize + i];
            assert(self.state@.v =~= Seq::new(
                16,
                |r: int|
                    if r < i + 1 {
                        before.ram[before.i + r]
                    } else {
                        before.v[r]
                    },
            ));
            i += 1;
        }

        self.state.I += (x + 1) as u16;
        assert(self.state@.v =~= execute(before, 0).v);
    }

    fn OP_Cxkk(&mut self, random: u8)
        requires
            old(self).wf(),
            decode(old(self)@.opcode) == Operation::Rnd,
        ensures
            final(self)@ == execute(old(self)@, random),
            final(self).unchanged_but_state(*old(self)),
            final(self)@.wf(),
    {
        let x = x_of(self.state.opcode);
        let kk = kk_of(self.state.opcode);

        self.state.V[x] = random & kk;
    }

    #[verifier::rlimit(50)]
    fn OP_Dxyn(&mut self)
        requires
            old(self).wf(),
            decode(old(self)@.opcode) == Operation::Drw,
            fault(old(self)@) is None,
        ensures
            final(self)@ == execute(old(self)@, 0),
            final(self).unchanged_but_state(*old(self)),
            final(self)@.wf(),
    {
        let x = x_of(self.state.opcode);
        let y = y_of(self.state.opcode);
        let height = n_of(self.state.opcode);

        let x_pos = self.state.V[x] as u32;
        let y_pos = self.state.V[y] as u32;
        let ghost before = self.state@;
        let ghost mut hit = false;
        let ghost mut witness: int = 0;

        self.state.V[0xF] = 0;

        proof {
            lemma_flipped();
        }
        let mut row: u16 = 0;
        while row < height
            invariant
                row <= height < 16,
                x_pos < 256,
                y_pos < 256,
                before == old(self).state@,
                before.wf(),
                height > 0 ==> before.i + height - 1 <= 0xFFF,
                flipped(PIXEL_OFF) == PIXEL_ON,
                flipped(PIXEL_ON) == PIXEL_OFF,
                self.unchanged_but_state(*old(self)),
                self.state@ == (Machine {
                    v: self.state@.v,
                    framebuffer: self.state@.framebuffer,
                    ..before
                }),
                self.state@.v =~= before.v.update(0xF, flag(hit)),
                self.state@.framebuffer.len() == 2048,
                forall|k: int|
                    0 <= k < 2048 ==> #[trigger] self.state@.framebuffer[k] == if drawn(
                        before,
                        x_pos as int,
                        y_pos as int,
                        height as int,
                        row as int,
                        0,
                        k,
                    ) {
                        flipped(before.framebuffer[k])
                    } else {
                        before.framebuffer[k]
                    },
                hit ==> 0 <= witness < 2048 && drawn(
                    before,
                    x_pos as int,
                    y_pos as int,
                    height as int,
                    row as int,
                    0,
                    witness,
                ) && before.framebuffer[witness] == PIXEL_ON,
                !hit ==> forall|k: int|
                    0 <= k < 2048 && #[trigger] drawn(
                        before,
                        x_pos as int,
                        y_pos as int,
                        height as int,
                        row as int,
                        0,
                        k,
                    ) ==> before.framebuffer[k] != PIXEL_ON,
            decreases height - row,
        {
            let sprite_byte = self.state.ram[(self.state.I + row) as usize];

            let mut col: u8 = 0;
            while col < 8
                invariant
                    col <= 8,
                    row < height < 16,
                    x_pos < 256,
                    y_pos < 256,
                    before == old(self).state@,
                    before.wf(),
                    before.i + height - 1 <= 0xFFF,
                    sprite_byte == before.ram[before.i + row],
                    flipped(PIXEL_OFF) == PIXEL_ON,
                    flipped(PIXEL_ON) == PIXEL_OFF,
                    self.unchanged_but_state(*old(self)),
                    self.state@ == (Machine {
                        v: self.state@.v,
                        framebuffer: self.state@.framebuffer,
                        ..before
                    }),
                    self.state@.v =~= before.v.update(0xF, flag(hit)),
                    self.state@.framebuffer.len() == 2048,
                    forall|k: int|
                        0 <= k < 2048 ==> #[trigger] self.state@.framebuffer[k] == if drawn(
                            before,
                            x_pos as int,
                            y_pos as int,
                            height as int,
                            row as int,
                            col as int,
                            k,
                        ) {
                            flipped(before.framebuffer[k])
                        } else {
                            before.framebuffer[k]
                        },
                    hit ==> 0 <= witness < 2048 && drawn(
                        before,
                        x_pos as int,
                        y_pos as int,
                        height as int,
                        row as int,
                        col as int,
                        witness,
                    ) && before.framebuffer[witness] == PIXEL_ON,
                    !hit ==> forall|k: int|
                        0 <= k < 2048 && #[trigger] drawn(
                            before,
                            x_pos as int,
                            y_pos as int,
                            height as int,
                            row as int,
                            col as int,
                            k,
                        ) ==> before.framebuffer[k] != PIXEL_ON,
                decreases 8 - col,
            {
                let sprite_pixel = sprite_byte & (0x80u8 >> col);
                let index = ((y_pos + row as u32) % 32) * 64 + ((x_pos + col as u32) % 64);
                let ghost shown = self.state@.framebuffer;
                let ghost was_hit = hit;
                proof {
                    lemma_sprite_place(x_pos as int, y_pos as int, row as int, col as int);
                }
                if sprite_pixel > 0 {
                    if self.state.framebuffer[index as usize] == 0xFFFFFFFF {
                        self.state.V[0xF] = 1;
                        proof {
                            if !hit {
                                hit = true;
                                witness = index as int;
                            }
                        }
                    }
                    let pixel = self.state.framebuffer[index as usize];
                    self.state.framebuffer[index as usize] = pixel ^ 0xFFFFFFFF;
                }
                proof {
                    assert forall|k: int| 0 <= k < 2048 implies #[trigger] self.state@.framebuffer[k]
                        == if drawn(
                        before,
                        x_pos as int,
                        y_pos as int,
                        height as int,
                        row as int,
                        col + 1,
                        k,
                    ) {
                        flipped(before.framebuffer[k])
                    } else {
                        before.framebuffer[k]
                    } by {
                        if k != index {
                            assert(self.state@.framebuffer[k] == shown[k]);
                        }
                    }
                    if !hit {
                        assert forall|k: int|
                            0 <= k < 2048 && #[trigger] drawn(
                                before,
                                x_pos as int,
                                y_pos as int,
                                height as int,
                                row as int,
                                col + 1,
                                k,
                            ) implies before.framebuffer[k] != PIXEL_ON by {
                            if k != index {
                                assert(drawn(
                                    before,
                                    x_pos as int,
                                    y_pos as int,
                                    height as int,
                                    row as int,
                                    col as int,
                                    k,
                                ));
                            }
                        }
                    }
                }
                col += 1;
            }
            proof {
                assert forall|k: int| 0 <= k < 2048 implies (drawn(
                    before,
                    x_pos as int,
                    y_pos as int,
                    height as int,
                    row as int,
                    8,
                    k,
                ) <==> #[trigger] drawn(
                    before,
                    x_pos as int,
                    y_pos as int,
                    height as int,
                    row + 1,
                    0,
                    k,
                )) by {}
            }
            row += 1;
        }
        proof {
            assert forall|k: int|
                0 <= k < 2048 && #[trigger] sprite_covers(
                    before,
                    x_pos as int,
                    y_pos as int,
                    height as int,
                    k,
                ) implies drawn(before, x_pos as int, y_pos as int, height as int, row as int, 0, k) by {}
            assert(self.state@.framebuffer =~= sprite_drawn(
                before,
                x_pos as int,
                y_pos as int,
                height as int,
            ));
            if hit {
                assert(sprite_covers(before, x_pos as int, y_pos as int, height as int, witness));
            }
            assert(hit == sprite_collides(before, x_pos as int, y_pos as int, height as int));
        }
    }

    fn opcodes_0_lookup(&self, opcode: u16) -> (r: Operation)
        requires
            self.wf(),
        ensures
            r == table_0(low_nibble(opcode)),
    {
        let index = n_of(opcode) as usize;
        assert(entry(self.opcodes_0@, index as int) == table_0(index as int));
        if index < 15 {
            self.opcodes_0[index].operation
        } else {
            Operation::Null
        }
    }

    fn opcodes_8_lookup(&self, opcode: u16) -> (r: Operation)
        requires
            self.wf(),
        ensures
            r == table_8(low_nibble(opcode)),
    {
        let index = n_of(opcode) as usize;
        assert(entry(self.opcodes_8@, index as int) == table_8(index as int));
        if index < 15 {
            self.opcodes_8[index].operation
        } else {
            Operation::Null
        }
    }

    fn opcodes_E_lookup(&self, opcode: u16) -> (r: Operation)
        requires
            self.wf(),
        ensures
            r == table_e(low_nibble(opcode)),
    {
        let index = n_of(opcode) as usize;
        assert(entry(self.opcodes_E@, index as int) == table_e(index as int));
        if index < 15 {
            self.opcodes_E[index].operation
        } else {
            Operation::Null
        }
    }

    fn opcodes_F_lookup(&self, opcode: u16) -> (r: Operation)
        requires
            self.wf(),
        ensures
            r == table_f(low_byte(opcode)),
    {
        let index = kk_of(opcode) as usize;
        assert(entry(self.opcodes_F@, index as int) == table_f(index as int));
        if index < 102 {
            self.opcodes_F[index].operation
        } else {
            Operation::Null
        }
    }

    /// What an instruction does, by the dispatch tables.
    pub fn lookup(&self, opcode: u16) -> (r: Operation)
        requires
            self.wf(),
        ensures
            r == decode(opcode),
    {
        let index = top_of(opcode);
        assert(entry(self.opcodes@, index as int) == main_table(index as int));
        match self.opcodes[index].operation {
            Operation::Lookup0 => self.opcodes_0_lookup(opcode),
            Operation::Lookup8 => self.opcodes_8_lookup(opcode),
            Operation::LookupE => self.opcodes_E_lookup(opcode),
            Operation::LookupF => self.opcodes_F_lookup(opcode),
            operation => operation,
        }
    }

    /// The word of two bytes at `addr`, the high byte first.
    fn fetch(&self, addr: u16) -> (r: u16)
        requires
            self.wf(),
            addr <= 0xFFE,
        ensures
            r == word_at(self@.ram, addr as int),
    {
        let high = self.read(addr) as u16;
        let low = self.read(addr + 1) as u16;
        assert(high <= 0xFF && low <= 0xFF ==> (high << 8u16) | low == high * 256u16 + low)
            by (bit_vector);
        (high << 8u16) | low
    }

    /// Why the instruction `opcode` cannot run, if it cannot.
    #[verifier::rlimit(50)]
    fn check(&self, opcode: u16, operation: Operation) -> (r: Result<(), Chip8Error>)
        requires
            self.wf(),
            operation == decode(opcode),
        ensures
            match fault(Machine { opcode, ..self@ }) {
                Some(e) => r == Err::<(), Chip8Error>(e),
                None => r is Ok,
            },
    {
        let x = x_of(opcode);
        match operation {
            Operation::Null
            | Operation::Lookup0
            | Operation::Lookup8
            | Operation::LookupE
            | Operation::LookupF => Err(Chip8Error::NullOperator),
            Operation::Ret => if self.state.sp == 0 {
                Err(Chip8Error::StackUnderflow)
            } else {
                Ok(())
            },
            Operation::Call => if self.state.sp >= 16 {
                Err(Chip8Error::StackOverflow)
            } else {
                Ok(())
            },
            Operation::Skp | Operation::Sknp => if self.state.V[x] > 15 {
                Err(Chip8Error::KeyOutOfRange)
            } else {
                Ok(())
            },
            Operation::Drw => {
                let height = n_of(opcode);
                if height > 0 && self.state.I as u32 + height as u32 - 1 > 0xFFF {
                    Err(Chip8Error::MemoryOutOfRange)
                } else {
                    Ok(())
                }
            },
            Operation::LdB => if self.state.I as u32 + 2 > 0xFFF {
                Err(Chip8Error::MemoryOutOfRange)
            } else {
                Ok(())
            },
            Operation::LdIReg | Operation::LdRegI => if self.state.I as u32 + x as u32 > 0xFFF {
                Err(Chip8Error::MemoryOutOfRange)
            } else {
                Ok(())
            },
            _ => Ok(()),
        }
    }

    /// Runs the instruction that has been fetched.
    #[verifier::rlimit(50)]
    fn run(&mut self, operation: Operation, random: u8)
        requires
            old(self).wf(),
            operation == decode(old(self)@.opcode),
            fault(old(self)@) is None,
            2 <= old(self)@.pc <= 0x1000,
        ensures
            final(self)@ == execute(old(self)@, random),
            final(self).unchanged_but_state(*old(self)),
            final(self)@.wf(),
    {
        match operation {
            Operation::Cls => self.OP_00E0(),
            Operation::Ret => self.OP_00EE(),
            Operation::Jp => self.OP_1nnn(),
            Operation::Call => self.OP_2nnn(),
            Operation::SeByte => self.OP_3xkk(),
            Operation::SneByte => self.OP_4xkk(),
            Operation::SeReg => self.OP_5xy0(),
            Operation::LdByte => self.OP_6xkk(),
            Operation::AddByte => self.OP_7xkk(),
            Operation::SneReg => self.OP_9xy0(),
            Operation::LdI => self.OP_Annn(),
            Operation::JpV0 => self.OP_Bnnn(),
            Operation::Rnd => self.OP_Cxkk(random),
            Operation::Drw => self.OP_Dxyn(),
            Operation::LdReg => self.OP_8xy0(),
            Operation::Or => self.OP_8xy1(),
            Operation::And => self.OP_8xy2(),
            Operation::Xor => self.OP_8xy3(),
            Operation::AddReg => self.OP_8xy4(),
            Operation::SubReg => self.OP_8xy5(),
            Operation::Shr => self.OP_8xy6(),
            Operation::Subn => self.OP_8xy7(),
            Operation::Shl => self.OP_8xyE(),
            Operation::Skp => self.OP_Ex9E(),
            Operation::Sknp => self.OP_ExA1(),
            Operation::LdRegDt => self.OP_Fx07(),
            Operation::LdRegKey => self.OP_Fx0A(),
            Operation::LdDtReg => self.OP_Fx15(),
            Operation::LdStReg => self.OP_Fx18(),
            Operation::AddI => self.OP_Fx1E(),
            Operation::LdF => self.OP_Fx29(),
            Operation::LdB => self.OP_Fx33(),
            Operation::LdIReg => self.OP_Fx55(),
            Operation::LdRegI => self.OP_Fx65(),
            Operation::Null
            | Operation::Lookup0
            | Operation::Lookup8
            | Operation::LookupE
            | Operation::LookupF => {},
        }
    }

    /// One tick, with `random` for the byte that `Cxkk` draws: the
    /// instruction at `pc` is fetched and run, and the timers tick. Where the
    /// tick cannot run, nothing changes.
    #[verifier::rlimit(50)]
    pub fn clock_with(&mut self, random: u8) -> (r: Result<(), Chip8Error>)
        requires
            old(self).wf(),
        ensures
            final(self).wf(),
            final(self)@.wf(),
            final(self).saved() == old(self).saved(),
            final(self).listing() == old(self).listing(),
            match step(old(self)@, random) {
                Ok(m) => r is Ok && final(self)@ == m,
                Err(e) => r == Err::<(), Chip8Error>(e) && final(self)@ == old(self)@,
            },
    {
        if self.state.pc > 0xFFE {
            return Err(Chip8Error::MemoryOutOfRange);
        }
        let opcode = self.fetch(self.state.pc);
        let operation = self.lookup(opcode);
        self.check(opcode, operation)?;

        self.state.opcode = opcode;
        self.state.pc += 2;
        assert(self.state@ == fetched(old(self)@));

        self.run(operation, random);

        if self.state.delay_timer > 0 {
            self.state.delay_timer -= 1;
        }

        if self.state.sound_timer > 0 {
            self.state.sound_timer -= 1;
        }
        Ok(())
    }

    /// Whether the instruction at `pc` draws a random byte.
    fn next_draws_random(&self) -> (r: bool)
        requires
            self.wf(),
        ensures
            r == draws_random(self@),
    {
        if self.state.pc > 0xFFE {
            return false;
        }
        let opcode = self.fetch(self.state.pc);
        match self.lookup(opcode) {
            Operation::Rnd => true,
            _ => false,
        }
    }

    /// One tick: the instruction at `pc` is fetched and run, and the timers
    /// tick. An instruction that draws a random byte gets it from the
    /// system; where the system gives none, and where the tick cannot run,
    /// nothing changes.
    #[verifier::rlimit(50)]
    pub fn clock(&mut self) -> (r: Result<(), Chip8Error>)
        requires
            old(self).wf(),
        ensures
            final(self).wf(),
            final(self)@.wf(),
            final(self).saved() == old(self).saved(),
            final(self).listing() == old(self).listing(),
            r is Ok ==> old(self)@.pc <= 0xFFE,
            !draws_random(old(self)@) ==> match step(old(self)@, 0) {
                Ok(m) => r is Ok && final(self)@ == m,
                Err(e) => r == Err::<(), Chip8Error>(e) && final(self)@ == old(self)@,
            },
            draws_random(old(self)@) ==> (r == Err::<(), Chip8Error>(Chip8Error::RandomFailed)
                && final(self)@ == old(self)@) || exists|random: u8|
                step(old(self)@, random) == Ok::<Machine, Chip8Error>(final(self)@) && r is Ok,
    {
        if self.next_draws_random() {
            match random_byte() {
                Ok(random) => {
                    let r = self.clock_with(random);
                    assert(step(old(self)@, random) is Ok);
                    r
                },
                Err(_) => Err(Chip8Error::RandomFailed),
            }
        } else {
            self.clock_with(0)
        }
    }
}

/// Whether the pixel at place `k` lies under a set bit of the sprite's rows
/// before `rows`, or of its row `rows` in the columns before `cols`.
pub open spec fn drawn(
    m: Machine,
    x_pos: int,
    y_pos: int,
    n: int,
    rows: int,
    cols: int,
    k: int,
) -> bool {
    &&& sprite_covers(m, x_pos, y_pos, n, k)
    &&& sprite_row(y_pos, k) < rows || (sprite_row(y_pos, k) == rows && sprite_col(x_pos, k)
        < cols)
}

/// The pixel that column `col` of the sprite's row `row` falls on, and no
/// other, has that row and column.
pub proof fn lemma_sprite_place(x_pos: int, y_pos: int, row: int, col: int)
    requires
        0 <= x_pos < 256,
        0 <= y_pos < 256,
        0 <= row < 16,
        0 <= col < 8,
    ensures
        ({
            let index = ((y_pos + row) % 32) * 64 + ((x_pos + col) % 64);
            &&& 0 <= index < 2048
            &&& forall|k: int|
                0 <= k < 2048 ==> ((sprite_row(y_pos, k) == row && sprite_col(x_pos, k) == col)
                    <==> k == index)
        }),
{
}

} // verus!
