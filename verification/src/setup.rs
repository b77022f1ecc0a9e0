//! The construction of the initial machine state from a loaded executable
//! image.

use vstd::prelude::*;
use crate::memory::{Memory, Region, RegionView, SetupError, HEAP_TOP, disjoint};
use crate::registers::RegisterSlot;
use crate::state::State;

verus! {

/// The heap size of a small process.
pub const SMALL_HEAP_SIZE: u32 = 0x10000u32;

/// What the image's file header says of the program.
pub struct Header {
    /// The virtual address of the first instruction.
    pub program_entry: u32,
}

/// One loadable segment of the image.
pub struct ProgramHeader {
    /// The virtual address at which the segment is mounted.
    pub virtual_address: u32,
    /// The initial bytes of the segment.
    pub data: Vec<u8>,
}

/// A parsed executable image.
pub struct Elf {
    pub header: Header,
    pub program_headers: Vec<ProgramHeader>,
}

/// The zero-filled heap of `heap_size` bytes that ends at the top of memory.
pub open spec fn heap_region(heap_size: u32) -> RegionView {
    RegionView { start: HEAP_TOP - heap_size, data: Seq::new(heap_size as nat, |i: int| 0u8) }
}

impl Elf {
    /// The regions that the image's segments are mounted as, in the order of
    /// the segments.
    pub open spec fn segments(&self) -> Seq<RegionView> {
        Seq::new(
            self.program_headers@.len(),
            |i: int|
                RegionView {
                    start: self.program_headers@[i].virtual_address as int,
                    data: self.program_headers@[i].data@,
                },
        )
    }

    /// The memory layout of the process: the segments, then the heap.
    pub open spec fn layout(&self, heap_size: u32) -> Seq<RegionView> {
        self.segments().push(heap_region(heap_size))
    }
}

/// Whether `state` is the initial state of the process for the image `elf`
/// with a heap of `heap_size` bytes.
pub open spec fn initial_state(elf: &Elf, heap_size: u32, state: State) -> bool {
    &&& state.program_counter == elf.header.program_entry
    &&& state.registers@ == Seq::new(32, |i: int| if i == 29 { HEAP_TOP } else { 0u32 })
    &&& state.memory@ == elf.layout(heap_size)
}

/// Builds the initial state of a process: every segment of the image mounted
/// at its virtual address, a zero-filled heap of `heap_size` bytes mounted
/// below the top of memory, the program counter at the image's entry point,
/// the stack pointer at the top of memory and every other register zero.
///
/// The layout is validated: a heap that does not fit below the top of memory
/// is refused, and so is a layout in which two regions share an address.
pub fn create_simple_state(elf: &Elf, heap_size: u32) -> (result: Result<State, SetupError>)
    ensures
        match result {
            Ok(state) => {
                &&& heap_size < HEAP_TOP
                &&& disjoint(elf.layout(heap_size))
                &&& initial_state(elf, heap_size, state)
            },
            Err(SetupError::HeapTooLarge) => heap_size >= HEAP_TOP,
            Err(SetupError::RegionOverlap) => heap_size < HEAP_TOP && !disjoint(elf.layout(heap_size)),
        },
{
    if heap_size >= HEAP_TOP {
        return Err(SetupError::HeapTooLarge);
    }
    let mut memory = Memory::new();
    let mut at: usize = 0;
    while at < elf.program_headers.len()
        invariant
            at <= elf.program_headers.len(),
            heap_size < HEAP_TOP,
            memory@ == elf.segments().subrange(0, at as int),
            disjoint(memory@),
        decreases elf.program_headers.len() - at,
    {
        let header: &ProgramHeader = &elf.program_headers[at];
        let region = Region { start: header.virtual_address, data: header.data.clone() };
        assert(region@ == elf.segments()[at as int]) by {
            assert(region.data@ =~= header.data@);
        }
        match memory.mount(region) {
            Ok(_) => {},
            Err(_) => {
                proof {
                    let earlier = choose|index: int|
                        0 <= index < memory@.len() && (#[trigger] memory@[index]).overlaps(region@);
                    let layout = elf.layout(heap_size);
                    assert(layout[earlier] == memory@[earlier]);
                    assert(layout[at as int] == region@);
                }
                return Err(SetupError::RegionOverlap);
            },
        }
        assert(memory@ =~= elf.segments().subrange(0, at + 1));
        at += 1;
    }
    assert(memory@ =~= elf.segments());
    let heap = Region { start: HEAP_TOP - heap_size, data: vec![0u8; heap_size as usize] };
    assert(heap@ == heap_region(heap_size)) by {
        assert(heap.data@ =~= heap_region(heap_size).data);
    }
    match memory.mount(heap) {
        Ok(_) => {},
        Err(_) => {
            proof {
                let earlier = choose|index: int|
                    0 <= index < memory@.len() && (#[trigger] memory@[index]).overlaps(heap@);
                let layout = elf.layout(heap_size);
                assert(layout[earlier] == memory@[earlier]);
                assert(layout[layout.len() - 1] == heap@);
            }
            return Err(SetupError::RegionOverlap);
        },
    }
    let mut state = State::new(elf.header.program_entry, memory);
    state.set_register(RegisterSlot::StackPointer, HEAP_TOP);
    assert(state.registers@ =~= Seq::new(32, |i: int| if i == 29 { HEAP_TOP } else { 0u32 }));
    Ok(state)
}

} // verus!
