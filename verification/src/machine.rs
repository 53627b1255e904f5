//! What one tick does to a CHIP-8 machine, as a function of its state: the
//! definition against which the interpreter is proved.

use vstd::prelude::*;

verus! {

/// Why a tick did not run.
#[derive(Debug, Clone, Copy, PartialEq, Eq, Structural)]
pub enum Chip8Error {
    /// Memory outside `0x000..=0xFFF` would be read or written.
    MemoryOutOfRange,
    /// A key above 15 would be looked at.
    KeyOutOfRange,
    /// The word at `pc` is no instruction.
    NullOperator,
    /// A call at a full stack.
    StackOverflow,
    /// A return at an empty stack.
    StackUnderflow,
    /// The system gave no random byte.
    RandomFailed,
}

/// What an instruction does; and for the four entries of the main table
/// that stand for several instructions, the table that tells them apart.
#[derive(Debug, Clone, Copy, PartialEq, Eq, Structural)]
pub enum Operation {
    /// `0???`: told apart by the low nibble.
    Lookup0,
    /// `1nnn`: jump to `nnn`.
    Jp,
    /// `2nnn`: call the subroutine at `nnn`.
    Call,
    /// `3xkk`: skip the next instruction if `Vx == kk`.
    SeByte,
    /// `4xkk`: skip the next instruction if `Vx != kk`.
    SneByte,
    /// `5xy0`: skip the next instruction if `Vx == Vy`.
    SeReg,
    /// `6xkk`: `Vx = kk`.
    LdByte,
    /// `7xkk`: `Vx += kk`, without a flag.
    AddByte,
    /// `8???`: told apart by the low nibble.
    Lookup8,
    /// `9xy0`: skip the next instruction if `Vx != Vy`.
    SneReg,
    /// `Annn`: `I = nnn`.
    LdI,
    /// `Bnnn`: jump to `V0 + nnn`.
    JpV0,
    /// `Cxkk`: `Vx` = a random byte masked by `kk`.
    Rnd,
    /// `Dxyn`: draw a sprite of `n` rows.
    Drw,
    /// `E???`: told apart by the low nibble.
    LookupE,
    /// `F???`: told apart by the low byte.
    LookupF,
    /// No instruction.
    Null,
    /// `00E0`: clear the screen.
    Cls,
    /// `00EE`: return from a subroutine.
    Ret,
    /// `8xy0`: `Vx = Vy`.
    LdReg,
    /// `8xy1`: `Vx |= Vy`.
    Or,
    /// `8xy2`: `Vx &= Vy`.
    And,
    /// `8xy3`: `Vx ^= Vy`.
    Xor,
    /// `8xy4`: `Vx += Vy`, the carry in VF.
    AddReg,
    /// `8xy5`: `Vx -= Vy`, VF set where nothing is borrowed: where `Vx >= Vy`.
    SubReg,
    /// `8xy6`: `Vx >>= 1`, the bit shifted out in VF.
    Shr,
    /// `8xy7`: `Vx = Vy - Vx`, VF set where nothing is borrowed: where
    /// `Vy >= Vx`.
    Subn,
    /// `8xyE`: `Vx <<= 1`, the bit shifted out in VF.
    Shl,
    /// `Ex9E`: skip the next instruction if the key `Vx` is down.
    Skp,
    /// `ExA1`: skip the next instruction if the key `Vx` is up.
    Sknp,
    /// `Fx07`: `Vx = delay timer`.
    LdRegDt,
    /// `Fx0A`: wait for a key, and store it in `Vx`.
    LdRegKey,
    /// `Fx15`: `delay timer = Vx`.
    LdDtReg,
    /// `Fx18`: `sound timer = Vx`.
    LdStReg,
    /// `Fx1E`: `I += Vx`.
    AddI,
    /// `Fx29`: `I` = the address of the font sprite of `Vx`.
    LdF,
    /// `Fx33`: store the decimal digits of `Vx` at `I`, `I+1`, `I+2`.
    LdB,
    /// `Fx55`: store `V0..=Vx` at `I` and up.
    LdIReg,
    /// `Fx65`: load `V0..=Vx` from `I` and up.
    LdRegI,
}

/// The state of a machine.
pub ghost struct Machine {
    /// The instruction fetched last.
    pub opcode: u16,
    /// The sixteen registers `V0..=VF`.
    pub v: Seq<u8>,
    /// The index register.
    pub i: u16,
    /// The program counter.
    pub pc: u16,
    /// The 64 by 32 pixels, row by row.
    pub framebuffer: Seq<u32>,
    pub delay_timer: u8,
    pub sound_timer: u8,
    /// The sixteen return addresses.
    pub stack: Seq<u16>,
    /// How many return addresses are held.
    pub sp: u8,
    /// For each of the sixteen keys, nonzero where it is down.
    pub keys: Seq<u8>,
    /// The 4096 bytes of memory.
    pub ram: Seq<u8>,
}

/// A pixel that is on.
pub const PIXEL_ON: u32 = 0xFFFF_FFFF;

/// A pixel that is off.
pub const PIXEL_OFF: u32 = 0;

impl Machine {
    /// Every part has its size, the stack holds at most sixteen addresses,
    /// and every pixel is either on or off.
    pub open spec fn wf(self) -> bool {
        &&& self.v.len() == 16
        &&& self.framebuffer.len() == 2048
        &&& self.stack.len() == 16
        &&& self.keys.len() == 16
        &&& self.ram.len() == 4096
        &&& self.sp <= 16
        &&& forall|k: int|
            0 <= k < 2048 ==> #[trigger] self.framebuffer[k] == PIXEL_OFF || self.framebuffer[k]
                == PIXEL_ON
    }
}

/// The highest nibble of an instruction.
pub open spec fn top_nibble(opcode: u16) -> int {
    opcode as int / 4096
}

/// `x`: the second nibble of an instruction.
pub open spec fn reg_x(opcode: u16) -> int {
    (opcode as int / 256) % 16
}

/// `y`: the third nibble of an instruction.
pub open spec fn reg_y(opcode: u16) -> int {
    (opcode as int / 16) % 16
}

/// `n`: the lowest nibble of an instruction.
pub open spec fn low_nibble(opcode: u16) -> int {
    opcode as int % 16
}

/// `kk`: the low byte of an instruction.
pub open spec fn low_byte(opcode: u16) -> int {
    opcode as int % 256
}

/// `nnn`: the low twelve bits of an instruction.
pub open spec fn address(opcode: u16) -> int {
    opcode as int % 4096
}

/// The instructions `0???` by their low nibble.
pub open spec fn table_0(index: int) -> Operation {
    if index == 0x0 {
        Operation::Cls
    } else if index == 0xE {
        Operation::Ret
    } else {
        Operation::Null
    }
}

/// The instructions `8???` by their low nibble.
pub open spec fn table_8(index: int) -> Operation {
    if index == 0x0 {
        Operation::LdReg
    } else if index == 0x1 {
        Operation::Or
    } else if index == 0x2 {
        Operation::And
    } else if index == 0x3 {
        Operation::Xor
    } else if index == 0x4 {
        Operation::AddReg
    } else if index == 0x5 {
        Operation::SubReg
    } else if index == 0x6 {
        Operation::Shr
    } else if index == 0x7 {
        Operation::Subn
    } else if index == 0xE {
        Operation::Shl
    } else {
        Operation::Null
    }
}

/// The instructions `E???` by their low nibble.
pub open spec fn table_e(index: int) -> Operation {
    if index == 0xE {
        Operation::Skp
    } else if index == 0x1 {
        Operation::Sknp
    } else {
        Operation::Null
    }
}

/// The instructions `F???` by their low byte.
pub open spec fn table_f(index: int) -> Operation {
    if index == 0x07 {
        Operation::LdRegDt
    } else if index == 0x0A {
        Operation::LdRegKey
    } else if index == 0x15 {
        Operation::LdDtReg
    } else if index == 0x18 {
        Operation::LdStReg
    } else if index == 0x1E {
        Operation::AddI
    } else if index == 0x29 {
        Operation::LdF
    } else if index == 0x33 {
        Operation::LdB
    } else if index == 0x55 {
        Operation::LdIReg
    } else if index == 0x65 {
        Operation::LdRegI
    } else {
        Operation::Null
    }
}

/// The instructions by their highest nibble.
pub open spec fn main_table(index: int) -> Operation {
    if index == 0x0 {
        Operation::Lookup0
    } else if index == 0x1 {
        Operation::Jp
    } else if index == 0x2 {
        Operation::Call
    } else if index == 0x3 {
        Operation::SeByte
    } else if index == 0x4 {
        Operation::SneByte
    } else if index == 0x5 {
        Operation::SeReg
    } else if index == 0x6 {
        Operation::LdByte
    } else if index == 0x7 {
        Operation::AddByte
    } else if index == 0x8 {
        Operation::Lookup8
    } else if index == 0x9 {
        Operation::SneReg
    } else if index == 0xA {
        Operation::LdI
    } else if index == 0xB {
        Operation::JpV0
    } else if index == 0xC {
        Operation::Rnd
    } else if index == 0xD {
        Operation::Drw
    } else if index == 0xE {
        Operation::LookupE
    } else {
        Operation::LookupF
    }
}

/// What an instruction does: the main table's entry for its highest nibble,
/// and where that names another table, that table's entry for its low nibble
/// or, for `F???`, its low byte.
pub open spec fn decode(opcode: u16) -> Operation {
    match main_table(top_nibble(opcode)) {
        Operation::Lookup0 => table_0(low_nibble(opcode)),
        Operation::Lookup8 => table_8(low_nibble(opcode)),
        Operation::LookupE => table_e(low_nibble(opcode)),
        Operation::LookupF => table_f(low_byte(opcode)),
        operation => operation,
    }
}

/// The word of two bytes at `addr`, the high byte first.
pub open spec fn word_at(ram: Seq<u8>, addr: int) -> u16 {
    (ram[addr] as int * 256 + ram[addr + 1] as int) as u16
}

/// The lowest key from `from` up that is down.
pub open spec fn first_pressed(keys: Seq<u8>, from: int) -> Option<int>
    decreases keys.len() - from,
{
    if from < 0 || from >= keys.len() {
        None
    } else if keys[from] != 0 {
        Some(from)
    } else {
        first_pressed(keys, from + 1)
    }
}

/// The key that `Fx0A` finds: the lowest key that is down.
pub open spec fn pressed_key(keys: Seq<u8>) -> Option<int> {
    first_pressed(keys, 0)
}

/// Whether the bit of a sprite's row at column `col`, counted from the left,
/// is set.
pub open spec fn sprite_bit(row: u8, col: int) -> bool {
    row & (0x80u8 >> (col as u8)) != 0
}

/// The other state of a pixel.
pub open spec fn flipped(pixel: u32) -> u32 {
    pixel ^ 0xFFFF_FFFFu32
}

/// The row of the sprite that passes through the pixel at place `k` of the
/// screen, when the sprite's top row is drawn at row `y_pos` modulo 32.
pub open spec fn sprite_row(y_pos: int, k: int) -> int {
    ((k / 64) - y_pos) % 32
}

/// The column of the sprite that passes through the pixel at place `k` of
/// the screen, when the sprite's left column is drawn at column `x_pos`
/// modulo 64.
pub open spec fn sprite_col(x_pos: int, k: int) -> int {
    ((k % 64) - x_pos) % 64
}

/// Whether the pixel at place `k` of the screen lies under a set bit of the
/// sprite of `n` rows at `I` that is drawn with its top left corner at column
/// `x_pos` and row `y_pos`, both taken modulo the screen's size.
pub open spec fn sprite_covers(m: Machine, x_pos: int, y_pos: int, n: int, k: int) -> bool {
    &&& sprite_col(x_pos, k) < 8
    &&& sprite_row(y_pos, k) < n
    &&& sprite_bit(m.ram[m.i + sprite_row(y_pos, k)], sprite_col(x_pos, k))
}

/// Whether drawing the sprite turns off a pixel that is on.
pub open spec fn sprite_collides(m: Machine, x_pos: int, y_pos: int, n: int) -> bool {
    exists|k: int|
        0 <= k < 2048 && #[trigger] sprite_covers(m, x_pos, y_pos, n, k) && m.framebuffer[k]
            == PIXEL_ON
}

/// The screen after the sprite is drawn: the pixels under its set bits are
/// flipped.
pub open spec fn sprite_drawn(m: Machine, x_pos: int, y_pos: int, n: int) -> Seq<u32> {
    Seq::new(
        2048,
        |k: int|
            if sprite_covers(m, x_pos, y_pos, n, k) {
                flipped(m.framebuffer[k])
            } else {
                m.framebuffer[k]
            },
    )
}

/// One for true and zero for false.
pub open spec fn flag(b: bool) -> u8 {
    if b {
        1
    } else {
        0
    }
}

/// The machine with `pc` two further on where `condition` holds.
pub open spec fn skip_if(m: Machine, condition: bool) -> Machine {
    if condition {
        Machine { pc: (m.pc + 2) as u16, ..m }
    } else {
        m
    }
}

/// Why the instruction `m.opcode` cannot run on `m`, if it cannot.
pub open spec fn fault(m: Machine) -> Option<Chip8Error> {
    let x = reg_x(m.opcode);
    match decode(m.opcode) {
        Operation::Null
        | Operation::Lookup0
        | Operation::Lookup8
        | Operation::LookupE
        | Operation::LookupF => Some(Chip8Error::NullOperator),
        Operation::Ret => if m.sp == 0 {
            Some(Chip8Error::StackUnderflow)
        } else {
            None
        },
        Operation::Call => if m.sp >= 16 {
            Some(Chip8Error::StackOverflow)
        } else {
            None
        },
        Operation::Skp | Operation::Sknp => if m.v[x] > 15 {
            Some(Chip8Error::KeyOutOfRange)
        } else {
            None
        },
        Operation::Drw => if low_nibble(m.opcode) > 0 && m.i + low_nibble(m.opcode) - 1 > 0xFFF {
            Some(Chip8Error::MemoryOutOfRange)
        } else {
            None
        },
        Operation::LdB => if m.i + 2 > 0xFFF {
            Some(Chip8Error::MemoryOutOfRange)
        } else {
            None
        },
        Operation::LdIReg | Operation::LdRegI => if m.i + x > 0xFFF {
            Some(Chip8Error::MemoryOutOfRange)
        } else {
            None
        },
        _ => None,
    }
}

/// The machine after the instruction `m.opcode`, which has been fetched and
/// can run, has run. `random` is the byte that `Cxkk` draws.
pub open spec fn execute(m: Machine, random: u8) -> Machine {
    let x = reg_x(m.opcode);
    let y = reg_y(m.opcode);
    let n = low_nibble(m.opcode);
    let kk = low_byte(m.opcode) as u8;
    let nnn = address(m.opcode) as u16;
    match decode(m.opcode) {
        Operation::Cls => Machine { framebuffer: Seq::new(2048, |k: int| PIXEL_OFF), ..m },
        Operation::Ret => Machine { sp: (m.sp - 1) as u8, pc: m.stack[m.sp - 1], ..m },
        Operation::Jp => Machine { pc: nnn, ..m },
        Operation::Call => Machine {
            stack: m.stack.update(m.sp as int, m.pc),
            sp: (m.sp + 1) as u8,
            pc: nnn,
            ..m
        },
        Operation::SeByte => skip_if(m, m.v[x] == kk),
        Operation::SneByte => skip_if(m, m.v[x] != kk),
        Operation::SeReg => skip_if(m, m.v[x] == m.v[y]),
        Operation::SneReg => skip_if(m, m.v[x] != m.v[y]),
        Operation::LdByte => Machine { v: m.v.update(x, kk), ..m },
        Operation::AddByte => Machine { v: m.v.update(x, ((m.v[x] + kk) % 256) as u8), ..m },
        Operation::LdReg => Machine { v: m.v.update(x, m.v[y]), ..m },
        Operation::Or => Machine { v: m.v.update(x, m.v[x] | m.v[y]), ..m },
        Operation::And => Machine { v: m.v.update(x, m.v[x] & m.v[y]), ..m },
        Operation::Xor => Machine { v: m.v.update(x, m.v[x] ^ m.v[y]), ..m },
        Operation::AddReg => {
            let sum = m.v[x] + m.v[y];
            Machine { v: m.v.update(0xF, flag(sum > 255)).update(x, (sum % 256) as u8), ..m }
        },
        Operation::SubReg => {
            let flagged = m.v.update(0xF, flag(m.v[x] >= m.v[y]));
            Machine { v: flagged.update(x, ((flagged[x] - flagged[y]) % 256) as u8), ..m }
        },
        Operation::Shr => {
            let flagged = m.v.update(0xF, (m.v[x] % 2) as u8);
            Machine { v: flagged.update(x, (flagged[x] / 2) as u8), ..m }
        },
        Operation::Subn => {
            let flagged = m.v.update(0xF, flag(m.v[y] >= m.v[x]));
            Machine { v: flagged.update(x, ((flagged[y] - flagged[x]) % 256) as u8), ..m }
        },
        Operation::Shl => {
            let flagged = m.v.update(0xF, (m.v[x] / 128) as u8);
            Machine { v: flagged.update(x, ((flagged[x] * 2) % 256) as u8), ..m }
        },
        Operation::LdI => Machine { i: nnn, ..m },
        Operation::JpV0 => Machine { pc: (m.v[0] + nnn) as u16, ..m },
        Operation::Rnd => Machine { v: m.v.update(x, random & kk), ..m },
        Operation::Drw => Machine {
            v: m.v.update(0xF, flag(sprite_collides(m, m.v[x] as int, m.v[y] as int, n))),
            framebuffer: sprite_drawn(m, m.v[x] as int, m.v[y] as int, n),
            ..m
        },
        Operation::Skp => skip_if(m, m.keys[m.v[x] as int] != 0),
        Operation::Sknp => skip_if(m, m.keys[m.v[x] as int] == 0),
        Operation::LdRegDt => Machine { v: m.v.update(x, m.delay_timer), ..m },
        Operation::LdRegKey => match pressed_key(m.keys) {
            Some(key) => Machine { v: m.v.update(x, key as u8), ..m },
            None => Machine { pc: (m.pc - 2) as u16, ..m },
        },
        Operation::LdDtReg => Machine { delay_timer: m.v[x], ..m },
        Operation::LdStReg => Machine { sound_timer: m.v[x], ..m },
        Operation::AddI => Machine { i: ((m.i + m.v[x]) % 0x10000) as u16, ..m },
        Operation::LdF => Machine { i: (m.v[x] * 5) as u16, ..m },
        Operation::LdB => Machine {
            ram: m.ram.update(m.i + 2, (m.v[x] % 10) as u8).update(
                m.i + 1,
                ((m.v[x] / 10) % 10) as u8,
            ).update(m.i as int, (m.v[x] / 100) as u8),
            ..m
        },
        Operation::LdIReg => Machine {
            ram: Seq::new(
                4096,
                |a: int|
                    if m.i <= a <= m.i + x {
                        m.v[a - m.i]
                    } else {
                        m.ram[a]
                    },
            ),
            i: (m.i + x + 1) as u16,
            ..m
        },
        Operation::LdRegI => Machine {
            v: Seq::new(
                16,
                |r: int|
                    if r <= x {
                        m.ram[m.i + r]
                    } else {
                        m.v[r]
                    },
            ),
            i: (m.i + x + 1) as u16,
            ..m
        },
        _ => m,
    }
}

/// The machine with each timer that is running one lower.
pub open spec fn timers_ticked(m: Machine) -> Machine {
    Machine {
        delay_timer: if m.delay_timer > 0 {
            (m.delay_timer - 1) as u8
        } else {
            0
        },
        sound_timer: if m.sound_timer > 0 {
            (m.sound_timer - 1) as u8
        } else {
            0
        },
        ..m
    }
}

/// The machine with the instruction at `pc` fetched: the word there is the
/// opcode, and `pc` points behind it.
pub open spec fn fetched(m: Machine) -> Machine {
    Machine { opcode: word_at(m.ram, m.pc as int), pc: (m.pc + 2) as u16, ..m }
}

/// Whether the instruction at `pc` draws a random byte.
pub open spec fn draws_random(m: Machine) -> bool {
    m.pc <= 0xFFE && decode(word_at(m.ram, m.pc as int)) == Operation::Rnd
}

/// One tick: the instruction at `pc` is fetched and run, and then the timers
/// tick. Both bytes of the instruction must lie in memory, and the
/// instruction must be able to run.
pub open spec fn step(m: Machine, random: u8) -> Result<Machine, Chip8Error> {
    if m.pc > 0xFFE {
        Err(Chip8Error::MemoryOutOfRange)
    } else {
        match fault(fetched(m)) {
            Some(e) => Err(e),
            None => Ok(timers_ticked(execute(fetched(m), random))),
        }
    }
}

/// The sprites of the sixteen hexadecimal digits, five bytes each.
pub open spec fn fontset() -> Seq<u8> {
    seq![
        0xF0u8, 0x90, 0x90, 0x90, 0xF0,
        0x20, 0x60, 0x20, 0x20, 0x70,
        0xF0, 0x10, 0xF0, 0x80, 0xF0,
        0xF0, 0x10, 0xF0, 0x10, 0xF0,
        0x90, 0x90, 0xF0, 0x10, 0x10,
        0xF0, 0x80, 0xF0, 0x10, 0xF0,
        0xF0, 0x80, 0xF0, 0x90, 0xF0,
        0xF0, 0x10, 0x20, 0x40, 0x40,
        0xF0, 0x90, 0xF0, 0x90, 0xF0,
        0xF0, 0x90, 0xF0, 0x10, 0xF0,
        0xF0, 0x90, 0xF0, 0x90, 0x90,
        0xE0, 0x90, 0xE0, 0x90, 0xE0,
        0xF0, 0x80, 0x80, 0x80, 0xF0,
        0xE0, 0x90, 0x90, 0x90, 0xE0,
        0xF0, 0x80, 0xF0, 0x80, 0xF0,
        0xF0, 0x80, 0xF0, 0x80, 0x80,
    ]
}

/// A machine after a reset: everything zero, but `pc` at the start of the
/// program and the font at the start of memory.
pub open spec fn reset_machine() -> Machine {
    Machine {
        opcode: 0,
        v: Seq::new(16, |k: int| 0u8),
        i: 0,
        pc: 0x200,
        framebuffer: Seq::new(2048, |k: int| PIXEL_OFF),
        delay_timer: 0,
        sound_timer: 0,
        stack: Seq::new(16, |k: int| 0u16),
        sp: 0,
        keys: Seq::new(16, |k: int| 0u8),
        ram: Seq::new(
            4096,
            |a: int|
                if a < 80 {
                    fontset()[a]
                } else {
                    0u8
                },
        ),
    }
}

/// A machine after a reset with a program loaded at `0x200`.
pub open spec fn loaded_machine(program: Seq<u8>) -> Machine {
    Machine {
        ram: Seq::new(
            4096,
            |a: int|
                if 0x200 <= a < 0x200 + program.len() {
                    program[a - 0x200]
                } else {
                    reset_machine().ram[a]
                },
        ),
        ..reset_machine()
    }
}

} // verus!
