//! What holds of every address space and of the initial memory layout.

use vstd::prelude::*;
use crate::error::Error;
use crate::memory::{RegionView, HEAP_TOP, covered_by, disjoint, fault_of, first_cover, mapped};
use crate::setup::{Elf, SMALL_HEAP_SIZE, initial_state};
use crate::state::State;

verus! {

/// Among regions that share no address, at most one holds a given access,
/// so the order in which the regions are searched does not matter.
pub proof fn lemma_cover_unique(regions: Seq<RegionView>, address: int, width: int, first: int, second: int)
    requires
        disjoint(regions),
        width > 0,
        covered_by(regions, address, width, first),
        covered_by(regions, address, width, second),
    ensures
        first == second,
{
    if first < second {
        assert(regions[first].overlaps(regions[second]));
    } else if second < first {
        assert(regions[second].overlaps(regions[first]));
    }
}

/// An aligned access at an address that lies in no region is unmapped,
/// whatever its width.
pub proof fn lemma_outside_unmapped(regions: Seq<RegionView>, address: u32, width: u32)
    requires
        width == 1 || width == 2 || width == 4,
        address % width == 0,
        forall|index: int| 0 <= index < regions.len() ==> !(#[trigger] regions[index]).covers(address as int, 1),
    ensures
        fault_of(regions, address, width) == Some(Error::MemoryUnmapped(address)),
{
    assert forall|index: int| !covered_by(regions, address as int, width as int, index) by {
        if 0 <= index < regions.len() {
            assert(!regions[index].covers(address as int, 1));
        }
    }
}

/// An access that starts in one region and ends past it is unmapped where
/// the regions share no address, even if another region follows at once.
pub proof fn lemma_straddling_unmapped(regions: Seq<RegionView>, address: int, width: int, index: int)
    requires
        disjoint(regions),
        covered_by(regions, address, 1, index),
        !covered_by(regions, address, width, index),
        width >= 1,
    ensures
        !mapped(regions, address, width),
{
    assert forall|other: int| !covered_by(regions, address, width, other) by {
        if covered_by(regions, address, width, other) {
            assert(covered_by(regions, address, 1, other));
            lemma_cover_unique(regions, address, 1, index, other);
        }
    }
}

/// A store changes no extent, and a load of the same access gives back what
/// was stored: the access resolves to the same region after the store as
/// before, the bytes there are the stored ones, and regions that shared no
/// address still share none.
pub proof fn lemma_store_then_load(regions: Seq<RegionView>, address: int, bytes: Seq<u8>, index: int)
    requires
        first_cover(regions, address, bytes.len() as int, index),
    ensures
        ({
            let stored = regions.update(index, regions[index].with_bytes(address, bytes));
            &&& first_cover(stored, address, bytes.len() as int, index)
            &&& stored[index].bytes(address, bytes.len() as int) == bytes
            &&& forall|a: int, w: int, i: int| covered_by(stored, a, w, i) == covered_by(regions, a, w, i)
            &&& disjoint(regions) ==> disjoint(stored)
        }),
{
    let stored = regions.update(index, regions[index].with_bytes(address, bytes));
    assert forall|a: int, w: int, i: int| covered_by(stored, a, w, i) == covered_by(regions, a, w, i) by {
        if 0 <= i < regions.len() {
            assert(stored[i].start == regions[i].start);
            assert(stored[i].data.len() == regions[i].data.len());
        }
    }
    assert(covered_by(regions, address, bytes.len() as int, index));
    assert(stored[index].bytes(address, bytes.len() as int) =~= bytes);
    if disjoint(regions) {
        assert forall|i: int, j: int| 0 <= i < j < stored.len() implies !stored[i].overlaps(stored[j]) by {
            assert(!regions[i].overlaps(regions[j]));
            assert(stored[i].start == regions[i].start && stored[i].data.len() == regions[i].data.len());
            assert(stored[j].start == regions[j].start && stored[j].data.len() == regions[j].data.len());
        }
    }
}

/// The initial state for an image of one segment at `0x00400000` and a small
/// heap: the layout is accepted, the program counter is the entry point, the
/// stack pointer is the top of memory, every byte of the segment and of the
/// heap is mapped, and neither the top of memory nor the byte below the heap
/// is. The segment must end before the byte below the heap.
pub proof fn lemma_single_segment_state(elf: &Elf, state: State)
    requires
        elf.program_headers@.len() == 1,
        elf.program_headers@[0].virtual_address == 0x0040_0000,
        0x0040_0000 + elf.program_headers@[0].data@.len() < HEAP_TOP - SMALL_HEAP_SIZE,
        initial_state(elf, SMALL_HEAP_SIZE, state),
    ensures
        disjoint(elf.layout(SMALL_HEAP_SIZE)),
        state.program_counter == elf.header.program_entry,
        state.registers@[29] == HEAP_TOP,
        forall|address: int|
            0x0040_0000 <= address < 0x0040_0000 + elf.program_headers@[0].data@.len() ==> mapped(
                state.memory@,
                address,
                1,
            ),
        forall|address: int| HEAP_TOP - SMALL_HEAP_SIZE <= address < HEAP_TOP ==> mapped(state.memory@, address, 1),
        !mapped(state.memory@, HEAP_TOP as int, 1),
        !mapped(state.memory@, HEAP_TOP - SMALL_HEAP_SIZE - 1, 1),
{
    let layout = elf.layout(SMALL_HEAP_SIZE);
    assert(layout.len() == 2);
    assert forall|address: int|
        0x0040_0000 <= address < 0x0040_0000 + elf.program_headers@[0].data@.len() implies mapped(
        layout,
        address,
        1,
    ) by {
        assert(covered_by(layout, address, 1, 0));
    }
    assert forall|address: int| HEAP_TOP - SMALL_HEAP_SIZE <= address < HEAP_TOP implies mapped(
        layout,
        address,
        1,
    ) by {
        assert(covered_by(layout, address, 1, 1));
    }
}

} // verus!
