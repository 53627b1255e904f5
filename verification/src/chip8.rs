//! The CHIP-8 interpreter.

use crate::assembler::Assembler;
use crate::machine::{
    address, decode, execute, fontset, loaded_machine, main_table, reset_machine, table_0, table_8,
    table_e, table_f, Machine, Operation, PIXEL_OFF,
};
use std::collections::HashMap;
use vstd::prelude::*;

mod listing;
mod operations;

pub use listing::{disassembly, disassembly_before};
pub use operations::{kk_of, n_of, nnn_of, top_of, x_of, y_of};

verus! {

/// An entry of a dispatch table: what the instructions that lead to it do.
#[derive(Debug, Clone, Copy, PartialEq, Eq, Structural)]
pub struct Instruction {
    pub operation: Operation,
}

impl Instruction {
    /// The entry for what is no instruction.
    pub fn null() -> (r: Instruction)
        ensures
            r.operation == Operation::Null,
    {
        Instruction { operation: Operation::Null }
    }
}

/// `getrandom::Error`: why the system gave no random bytes.
#[verifier::external_type_specification]
#[verifier::external_body]
pub struct ExRandomError(getrandom::Error);

/// Asks `getrandom::getrandom` for one byte. Nothing is promised of the
/// byte, nor that one is given.
#[verifier::external_body]
pub(crate) fn random_byte() -> (r: Result<u8, getrandom::Error>) {
    let mut buf = [0u8; 1];
    match getrandom::getrandom(&mut buf) {
        Ok(()) => Ok(buf[0]),
        Err(e) => Err(e),
    }
}

/// A table of `N` entries made by `array_init::array_init`, which calls its
/// initialiser once for each place: every entry is the null instruction.
#[verifier::external_body]
fn null_table<const N: usize>() -> (r: [Instruction; N])
    ensures
        forall|i: int| 0 <= i < N ==> (#[trigger] r[i]).operation == Operation::Null,
{
    array_init::array_init(|_i| Instruction::null())
}

/// The state of a machine: registers, memory, screen, timers, stack and keys.
#[allow(non_snake_case)]
#[derive(Debug, Clone, Copy)]
pub struct Chip8State {
    //next opcode for fetch-execute-decode cycle
    opcode: u16,
    //16 general purpose registers
    V: [u8; 16],
    //index register
    I: u16,
    //program counter
    pc: u16,
    //64*32 framebuffer
    framebuffer: [u32; 2048],
    //timers
    delay_timer: u8,
    sound_timer: u8,
    //stack
    stack: [u16; 16],
    //stack pointer
    sp: u8,
    //key status
    keys: [u8; 16],
    //4096 bytes of addressable memory
    ram: [u8; 4096],
}

impl View for Chip8State {
    type V = Machine;

    closed spec fn view(&self) -> Machine {
        Machine {
            opcode: self.opcode,
            v: self.V@,
            i: self.I,
            pc: self.pc,
            framebuffer: self.framebuffer@,
            delay_timer: self.delay_timer,
            sound_timer: self.sound_timer,
            stack: self.stack@,
            sp: self.sp,
            keys: self.keys@,
            ram: self.ram@,
        }
    }
}

/// The machine in which everything is zero.
pub open spec fn blank_machine() -> Machine {
    Machine {
        opcode: 0,
        v: Seq::new(16, |k: int| 0u8),
        i: 0,
        pc: 0,
        framebuffer: Seq::new(2048, |k: int| PIXEL_OFF),
        delay_timer: 0,
        sound_timer: 0,
        stack: Seq::new(16, |k: int| 0u16),
        sp: 0,
        keys: Seq::new(16, |k: int| 0u8),
        ram: Seq::new(4096, |a: int| 0u8),
    }
}

impl Chip8State {
    /// The state in which everything is zero.
    pub fn new() -> (r: Chip8State)
        ensures
            r@ == blank_machine(),
    {
        let r = Chip8State {
            opcode: 0,
            V: [0;16],
            I: 0,
            pc: 0,
            framebuffer: [0;2048],
            delay_timer: 0,
            sound_timer: 0,
            stack: [0;16],
            sp: 0,
            keys: [0;16],
            ram: [0;4096],
        };
        proof {
            assert(r@.v =~= blank_machine().v);
            assert(r@.framebuffer =~= blank_machine().framebuffer);
            assert(r@.stack =~= blank_machine().stack);
            assert(r@.keys =~= blank_machine().keys);
            assert(r@.ram =~= blank_machine().ram);
        }
        r
    }
}

/// A CHIP-8 machine: its state, a snapshot of it, the built-in font, the
/// dispatch tables and the listing of the last disassembly.
#[allow(non_snake_case)]
pub struct Chip8 {
    state: Chip8State,
    saved_state: Chip8State,
    //chip built-in fontset
    fontset: [u8; 80],
    video_width: u32,
    video_height: u32,
    opcodes: [Instruction; 16],
    opcodes_0: [Instruction; 15],
    opcodes_8: [Instruction; 15],
    opcodes_E: [Instruction; 15],
    opcodes_F: [Instruction; 102],
    disasm_map: HashMap<u16, String>,
}

impl View for Chip8 {
    type V = Machine;

    closed spec fn view(&self) -> Machine {
        self.state@
    }
}

/// The operation of a table's entry at `index`; no instruction past the
/// table's end.
pub open spec fn entry(table: Seq<Instruction>, index: int) -> Operation {
    if 0 <= index < table.len() {
        table[index].operation
    } else {
        Operation::Null
    }
}

#[allow(non_snake_case)]
impl Chip8 {
    /// The state that `save_state` stored last.
    pub closed spec fn saved(&self) -> Machine {
        self.saved_state@
    }

    /// For each address, the text that `disassemble` stored for it.
    pub closed spec fn listing(&self) -> Map<u16, Seq<char>> {
        self.disasm_map@.map_values(|text: String| text@)
    }

    /// The machine and its snapshot are well formed, the font is the
    /// built-in one, the screen measures 64 by 32, and each dispatch table
    /// holds its instructions.
    pub closed spec fn wf(&self) -> bool {
        &&& self.state@.wf()
        &&& self.saved_state@.wf()
        &&& self.fontset@ == fontset()
        &&& self.video_width == 64
        &&& self.video_height == 32
        &&& forall|i: int| 0 <= i < 16 ==> entry(self.opcodes@, i) == #[trigger] main_table(i)
        &&& forall|i: int| 0 <= i < 16 ==> entry(self.opcodes_0@, i) == #[trigger] table_0(i)
        &&& forall|i: int| 0 <= i < 16 ==> entry(self.opcodes_8@, i) == #[trigger] table_8(i)
        &&& forall|i: int| 0 <= i < 16 ==> entry(self.opcodes_E@, i) == #[trigger] table_e(i)
        &&& forall|i: int| 0 <= i < 256 ==> entry(self.opcodes_F@, i) == #[trigger] table_f(i)
    }

    /// A well-formed machine has a well-formed state: every part has its
    /// size, the stack holds at most sixteen addresses, and every pixel is on
    /// or off.
    pub proof fn lemma_wf_state(&self)
        requires
            self.wf(),
        ensures
            self@.wf(),
            self.saved().wf(),
    {
    }

    /// A machine in which everything is zero, with its dispatch tables and its
    /// font; nothing is loaded, not even the font.
    pub fn new() -> (r: Chip8)
        ensures
            r.wf(),
            r@.wf(),
            r@ == blank_machine(),
            r.saved() == blank_machine(),
            r.listing() == Map::<u16, Seq<char>>::empty(),
    {
        let opcodes = [
            Instruction { operation: Operation::Lookup0 },
            Instruction { operation: Operation::Jp },
            Instruction { operation: Operation::Call },
            Instruction { operation: Operation::SeByte },
            Instruction { operation: Operation::SneByte },
            Instruction { operation: Operation::SeReg },
            Instruction { operation: Operation::LdByte },
            Instruction { operation: Operation::AddByte },
            Instruction { operation: Operation::Lookup8 },
            Instruction { operation: Operation::SneReg },
            Instruction { operation: Operation::LdI },
            Instruction { operation: Operation::JpV0 },
            Instruction { operation: Operation::Rnd },
            Instruction { operation: Operation::Drw },
            Instruction { operation: Operation::LookupE },
            Instruction { operation: Operation::LookupF },
        ];

        let mut opcodes_0: [Instruction; 15] = null_table();
        opcodes_0[0x0] = Instruction { operation: Operation::Cls };
        opcodes_0[0xE] = Instruction { operation: Operation::Ret };

        let mut opcodes_8: [Instruction; 15] = null_table();
        opcodes_8[0x0] = Instruction { operation: Operation::LdReg };
        opcodes_8[0x1] = Instruction { operation: Operation::Or };
        opcodes_8[0x2] = Instruction { operation: Operation::And };
        opcodes_8[0x3] = Instruction { operation: Operation::Xor };
        opcodes_8[0x4] = Instruction { operation: Operation::AddReg };
        opcodes_8[0x5] = Instruction { operation: Operation::SubReg };
        opcodes_8[0x6] = Instruction { operation: Operation::Shr };
        opcodes_8[0x7] = Instruction { operation: Operation::Subn };
        opcodes_8[0xE] = Instruction { operation: Operation::Shl };

        let mut opcodes_E: [Instruction; 15] = null_table();
        opcodes_E[0xE] = Instruction { operation: Operation::Skp };
        opcodes_E[0x1] = Instruction { operation: Operation::Sknp };

        let mut opcodes_F: [Instruction; 102] = null_table();
        opcodes_F[0x07] = Instruction { operation: Operation::LdRegDt };
        opcodes_F[0x0A] = Instruction { operation: Operation::LdRegKey };
        opcodes_F[0x15] = Instruction { operation: Operation::LdDtReg };
        opcodes_F[0x18] = Instruction { operation: Operation::LdStReg };
        opcodes_F[0x1E] = Instruction { operation: Operation::AddI };
        opcodes_F[0x29] = Instruction { operation: Operation::LdF };
        opcodes_F[0x33] = Instruction { operation: Operation::LdB };
        opcodes_F[0x55] = Instruction { operation: Operation::LdIReg };
        opcodes_F[0x65] = Instruction { operation: Operation::LdRegI };

        let r = Chip8 {
            state: Chip8State::new(),
            saved_state: Chip8State::new(),
            fontset: [
                0xF0, 0x90, 0x90, 0x90, 0xF0,  // 0
                0x20, 0x60, 0x20, 0x20, 0x70,  // 1
                0xF0, 0x10, 0xF0, 0x80, 0xF0,  // 2
                0xF0, 0x10, 0xF0, 0x10, 0xF0,  // 3
                0x90, 0x90, 0xF0, 0x10, 0x10,  // 4
                0xF0, 0x80, 0xF0, 0x10, 0xF0,  // 5
                0xF0, 0x80, 0xF0, 0x90, 0xF0,  // 6
                0xF0, 0x10, 0x20, 0x40, 0x40,  // 7
                0xF0, 0x90, 0xF0, 0x90, 0xF0,  // 8
                0xF0, 0x90, 0xF0, 0x10, 0xF0,  // 9
                0xF0, 0x90, 0xF0, 0x90, 0x90,  // A
                0xE0, 0x90, 0xE0, 0x90, 0xE0,  // B
                0xF0, 0x80, 0x80, 0x80, 0xF0,  // C
                0xE0, 0x90, 0x90, 0x90, 0xE0,  // D
                0xF0, 0x80, 0xF0, 0x80, 0xF0,  // E
                0xF0, 0x80, 0xF0, 0x80, 0x80,  // F
            ],
            video_width: 64,
            video_height: 32,
            opcodes: opcodes,
            opcodes_0: opcodes_0,
            opcodes_8: opcodes_8,
            opcodes_E: opcodes_E,
            opcodes_F: opcodes_F,
            disasm_map: HashMap::new(),
        };
        proof {
            assert(r.fontset@ =~= fontset());
            assert(r.listing() =~= Map::<u16, Seq<char>>::empty());
        }
        r
    }

    /// The 4096 bytes of memory.
    pub fn ram(&self) -> (r: &[u8; 4096])
        ensures
            r@ == self@.ram,
    {
        &self.state.ram
    }

    /// The 64 by 32 pixels, row by row.
    pub fn framebuffer(&self) -> (r: &[u32; 2048])
        ensures
            r@ == self@.framebuffer,
    {
        &self.state.framebuffer
    }

    /// The sixteen registers.
    pub fn V(&self) -> (r: &[u8; 16])
        ensures
            r@ == self@.v,
    {
        &self.state.V
    }

    /// The sixteen return addresses.
    pub fn stack(&self) -> (r: &[u16; 16])
        ensures
            r@ == self@.stack,
    {
        &self.state.stack
    }

    /// The program counter.
    pub fn pc(&self) -> (r: u16)
        ensures
            r == self@.pc,
    {
        self.state.pc
    }

    /// The index register.
    pub fn I(&self) -> (r: u16)
        ensures
            r == self@.i,
    {
        self.state.I
    }

    /// How many return addresses the stack holds.
    pub fn sp(&self) -> (r: u8)
        ensures
            r == self@.sp,
    {
        self.state.sp
    }

    /// The delay timer.
    pub fn delay_timer(&self) -> (r: u8)
        ensures
            r == self@.delay_timer,
    {
        self.state.delay_timer
    }

    /// The sound timer.
    pub fn sound_timer(&self) -> (r: u8)
        ensures
            r == self@.sound_timer,
    {
        self.state.sound_timer
    }

    /// The height of the screen in pixels.
    pub fn video_height(&self) -> (r: u32)
        requires
            self.wf(),
        ensures
            r == 32,
    {
        self.video_height
    }

    /// The width of the screen in pixels.
    pub fn video_width(&self) -> (r: u32)
        requires
            self.wf(),
        ensures
            r == 64,
    {
        self.video_width
    }

    /// Stores a copy of the whole state as the snapshot.
    pub fn save_state(&mut self)
        requires
            old(self).wf(),
        ensures
            final(self).wf(),
            final(self)@.wf(),
            final(self)@ == old(self)@,
            final(self).saved() == old(self)@,
            final(self).listing() == old(self).listing(),
    {
        self.saved_state = self.state.clone();
    }

    /// Replaces the whole state by the snapshot.
    pub fn load_state(&mut self)
        requires
            old(self).wf(),
        ensures
            final(self).wf(),
            final(self)@.wf(),
            final(self)@ == old(self).saved(),
            final(self).saved() == old(self).saved(),
            final(self).listing() == old(self).listing(),
    {
        self.state = self.saved_state.clone();
    }

    /// Sets the state of a key: nonzero for down.
    pub fn set_key(&mut self, key: u8, value: u8)
        requires
            old(self).wf(),
            key <= 15,
        ensures
            final(self).wf(),
            final(self)@.wf(),
            final(self)@ == (Machine { keys: old(self)@.keys.update(key as int, value), ..old(self)@ }),
            final(self).saved() == old(self).saved(),
            final(self).listing() == old(self).listing(),
    {
        self.state.keys[key as usize] = value;
    }

    /// The byte of memory at `addr`.
    pub fn read(&self, addr: u16) -> (r: u8)
        requires
            addr <= 0xFFF,
        ensures
            r == self@.ram[addr as int],
    {
        self.state.ram[addr as usize]
    }

    fn write(&mut self, addr: u16, data: u8)
        requires
            addr <= 0xFFF,
        ensures
            final(self).state@ == (Machine {
                ram: old(self).state@.ram.update(addr as int, data),
                ..old(self).state@
            }),
            final(self).saved_state == old(self).saved_state,
            final(self).fontset == old(self).fontset,
            final(self).video_width == old(self).video_width,
            final(self).video_height == old(self).video_height,
            final(self).opcodes == old(self).opcodes,
            final(self).opcodes_0 == old(self).opcodes_0,
            final(self).opcodes_8 == old(self).opcodes_8,
            final(self).opcodes_E == old(self).opcodes_E,
            final(self).opcodes_F == old(self).opcodes_F,
            final(self).disasm_map == old(self).disasm_map,
    {
        self.state.ram[addr as usize] = data;
    }

    /// Sets everything to zero, but `pc` to the start of the program and the
    /// start of memory to the font.
    pub fn reset(&mut self)
        requires
            old(self).wf(),
        ensures
            final(self).wf(),
            final(self)@.wf(),
            final(self)@ == reset_machine(),
            final(self).saved() == old(self).saved(),
            final(self).listing() == old(self).listing(),
    {
        self.state.pc = 0x200;
        self.state.opcode = 0;
        self.state.I = 0;
        self.state.sp = 0;
        self.state.delay_timer = 0;
        self.state.sound_timer = 0;

        self.state.ram = [0;4096];
        self.state.stack = [0;16];
        self.state.V = [0;16];
        self.state.framebuffer = [0;2048];
        self.state.keys = [0;16];

        let mut i: u16 = 0;
        proof {
            assert(self.state@.v =~= reset_machine().v);
            assert(self.state@.framebuffer =~= reset_machine().framebuffer);
            assert(self.state@.stack =~= reset_machine().stack);
            assert(self.state@.keys =~= reset_machine().keys);
            assert(self.state@.ram =~= Seq::new(4096, |a: int| if a < 0 { fontset()[a] } else { 0u8 }));
        }
        while i < 80
            invariant
                i <= 80,
                self.wf(),
                self.saved_state@ == old(self).saved_state@,
                self.listing() == old(self).listing(),
                self.state@ == (Machine {
                    ram: Seq::new(
                        4096,
                        |a: int|
                            if a < i {
                                fontset()[a]
                            } else {
                                0u8
                            },
                    ),
                    ..reset_machine()
                }),
            decreases 80 - i,
        {
            let glyph_byte = self.fontset[i as usize];
            self.write(i, glyph_byte);
            assert(self.state@.ram =~= Seq::new(
                4096,
                |a: int|
                    if a < i + 1 {
                        fontset()[a]
                    } else {
                        0u8
                    },
            ));
            assert(self.state@.ram.len() == 4096);
            i += 1;
        }
    }

    /// Resets the machine and loads the assembler's bytes at `0x200`.
    pub fn load_rom_from_assembler(&mut self, assembler: &Assembler)
        requires
            old(self).wf(),
            assembler.bytes().len() <= 0xE00,
        ensures
            final(self).wf(),
            final(self)@.wf(),
            final(self)@ == loaded_machine(assembler.bytes()),
            final(self).saved() == old(self).saved(),
            final(self).listing() == old(self).listing(),
    {
        self.load_rom_from_bytes(assembler.binary().as_slice());
    }

    /// Resets the machine and loads `buffer` at `0x200`.
    pub fn load_rom_from_bytes(&mut self, buffer: &[u8])
        requires
            old(self).wf(),
            buffer@.len() <= 0xE00,
        ensures
            final(self).wf(),
            final(self)@.wf(),
            final(self)@ == loaded_machine(buffer@),
            final(self).saved() == old(self).saved(),
            final(self).listing() == old(self).listing(),
    {
        self.reset();

        let mut i: usize = 0;
        assert(self.state@.ram =~= loaded_machine(buffer@.take(0)).ram);
        while i < buffer.len()
            invariant
                i <= buffer.len() <= 0xE00,
                self.wf(),
                self.saved_state@ == old(self).saved_state@,
                self.listing() == old(self).listing(),
                self.state@ == loaded_machine(buffer@.take(i as int)),
            decreases buffer.len() - i,
        {
            self.write((0x200 + i) as u16, buffer[i]);
            assert(self.state@.ram =~= loaded_machine(buffer@.take(i + 1)).ram);
            i += 1;
        }
        assert(buffer@.take(buffer.len() as int) =~= buffer@);
    }
}

} // verus!
