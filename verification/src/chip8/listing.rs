//! The disassembly of memory.

use crate::chip8::Chip8;
use crate::disasm::{disasm_text, mnemonic};
use crate::machine::{word_at};
use std::collections::HashMap;
use vstd::prelude::*;

verus! {

/// The disassembly of a memory: for every even address from `0x200` to
/// `0xFFE`, the text of the word there.
pub open spec fn disassembly(ram: Seq<u8>) -> Map<u16, Seq<char>> {
    disassembly_before(ram, 0x1000)
}

/// The disassembly of the words before `end`.
pub open spec fn disassembly_before(ram: Seq<u8>, end: int) -> Map<u16, Seq<char>> {
    Map::new(
        |pc: u16| 0x200 <= pc < end && pc % 2 == 0,
        |pc: u16| mnemonic(word_at(ram, pc as int)),
    )
}

impl Chip8 {
    /// The text of the instruction `opcode`, by the dispatch tables.
    pub fn get_disasm(&self, opcode: u16) -> (r: String)
        requires
            self.wf(),
        ensures
            r@ == mnemonic(opcode),
    {
        disasm_text(self.lookup(opcode), opcode)
    }

    /// Replaces the listing by the disassembly of memory.
    #[verifier::rlimit(50)]
    pub fn disassemble(&mut self)
        requires
            old(self).wf(),
        ensures
            final(self).wf(),
            final(self)@.wf(),
            final(self)@ == old(self)@,
            final(self).saved() == old(self).saved(),
            final(self).listing() == disassembly(old(self)@.ram),
    {
        broadcast use vstd::std_specs::hash::group_hash_axioms;

        let mut i: u16 = 0x200;

        self.disasm_map.clear();
        assert(self.listing() =~= disassembly_before(self@.ram, 0x200));

        while i < 4096
            invariant
                0x200 <= i <= 4096,
                i % 2 == 0,
                self.wf(),
                self.state == old(self).state,
                self.saved_state == old(self).saved_state,
                self.listing() == disassembly_before(self@.ram, i as int),
            decreases 4096 - i,
        {
            let opcode = ((self.read(i) as u16) * 256) + (self.read(i + 1) as u16);
            let disasm: String = self.get_disasm(opcode);
            let ghost before = self.listing();
            let ghost text = disasm@;

            self.disasm_map.insert(i, disasm);
            proof {
                assert(self.listing() =~= before.insert(i, text));
                assert(before.insert(i, text) =~= disassembly_before(self@.ram, i + 2));
            }
            i += 2;
        }
    }

    /// The text that the listing holds for the address `pc`.
    pub fn disasm_at(&self, pc: u16) -> (r: Option<&String>)
        ensures
            match r {
                Some(text) => self.listing().contains_key(pc) && self.listing()[pc] == text@,
                None => !self.listing().contains_key(pc),
            },
    {
        broadcast use vstd::std_specs::hash::group_hash_axioms;

        self.disasm_map.get(&pc)
    }

    /// The listing.
    pub fn disasm_map(&self) -> (r: &HashMap<u16, String>)
        ensures
            r@.map_values(|text: String| text@) == self.listing(),
    {
        &self.disasm_map
    }
}

} // verus!
