//! The machine state of one process: the register file, the program counter
//! and the address space.

use vstd::prelude::*;
use crate::memory::Memory;
use crate::registers::RegisterSlot;

verus! {

/// The registers, the program counter and the memory of one process.
pub struct State {
    /// The 32 general-purpose registers, by index.
    pub registers: [u32; 32],
    /// The address of the next instruction.
    pub program_counter: u32,
    /// The address space, owned by this state alone.
    pub memory: Memory,
}

impl State {
    /// A state with every register zero.
    pub fn new(program_counter: u32, memory: Memory) -> (result: State)
        ensures
            result.program_counter == program_counter,
            result.memory == memory,
            forall|index: int| 0 <= index < 32 ==> result.registers@[index] == 0,
    {
        State { registers: [0u32; 32], program_counter, memory }
    }

    /// The value that the register `slot` holds.
    pub fn register(&self, slot: RegisterSlot) -> (result: u32)
        ensures
            result == self.registers@[slot.spec_index() as int],
    {
        self.registers[slot.index() as usize]
    }

    /// Stores `value` in the register `slot` and leaves the rest as it was.
    pub fn set_register(&mut self, slot: RegisterSlot, value: u32)
        ensures
            final(self).registers@ == old(self).registers@.update(slot.spec_index() as int, value),
            final(self).program_counter == old(self).program_counter,
            final(self).memory == old(self).memory,
    {
        self.registers[slot.index() as usize] = value;
    }
}

} // verus!
