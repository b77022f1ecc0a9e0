use mips_core::error::Error;
use mips_core::memory::{Memory, SetupError, Span, HEAP_TOP};
use mips_core::registers::RegisterSlot;
use mips_core::setup::{create_simple_state, Elf, Header, ProgramHeader, SMALL_HEAP_SIZE};
use mips_core::state::State;

fn image(entry: u32, segments: Vec<(u32, Vec<u8>)>) -> Elf {
    Elf {
        header: Header { program_entry: entry },
        program_headers: segments
            .into_iter()
            .map(|(virtual_address, data)| ProgramHeader { virtual_address, data })
            .collect(),
    }
}

#[test]
fn small_heap_size_is_fixed() {
    assert_eq!(SMALL_HEAP_SIZE, 0x10000);
}

#[test]
fn new_state_has_zero_registers() {
    let state = State::new(0x1234, Memory::new());
    assert_eq!(state.program_counter, 0x1234);
    assert_eq!(state.registers, [0u32; 32]);
    assert_eq!(state.memory.regions.len(), 0);
}

#[test]
fn set_register_changes_one_slot() {
    let mut state = State::new(0, Memory::new());
    state.set_register(RegisterSlot::Temporary3, 0xCAFE);
    let mut expected = [0u32; 32];
    expected[11] = 0xCAFE;
    assert_eq!(state.registers, expected);
    assert_eq!(state.register(RegisterSlot::Temporary3), 0xCAFE);
    assert_eq!(state.register(RegisterSlot::Temporary4), 0);
}

#[test]
fn bootstrap_with_one_segment() {
    let bytes: Vec<u8> = (0u8..=99).collect();
    let elf = image(0x0040_0010, vec![(0x0040_0000, bytes.clone())]);
    let state = create_simple_state(&elf, SMALL_HEAP_SIZE).unwrap();
    assert_eq!(state.program_counter, 0x0040_0010);
    let mut expected = [0u32; 32];
    expected[29] = 0x7FFF_FFFC;
    assert_eq!(state.registers, expected);
    assert_eq!(state.register(RegisterSlot::StackPointer), 0x7FFF_FFFC);

    assert_eq!(state.memory.regions.len(), 2);
    assert_eq!(state.memory.regions[0].start, 0x0040_0000);
    assert_eq!(state.memory.regions[0].data, bytes);
    assert_eq!(state.memory.regions[1].start, 0x7FFE_FFFC);
    assert_eq!(state.memory.regions[1].data, vec![0u8; 0x10000]);

    for offset in 0u32..100 {
        let address = 0x0040_0000 + offset;
        assert_eq!(
            state.memory.translate(address, 1),
            Ok(Span { region: 0, offset: offset as usize, width: 1 })
        );
    }
    assert_eq!(state.memory.translate(0x0040_0064, 1), Err(Error::MemoryUnmapped(0x0040_0064)));
    for offset in 0u32..0x10000 {
        let address = 0x7FFE_FFFC + offset;
        assert_eq!(
            state.memory.translate(address, 1),
            Ok(Span { region: 1, offset: offset as usize, width: 1 })
        );
    }
    assert_eq!(state.memory.translate(0x7FFF_FFFC, 1), Err(Error::MemoryUnmapped(0x7FFF_FFFC)));
    assert_eq!(state.memory.translate(0x7FFF_FFFC, 4), Err(Error::MemoryUnmapped(0x7FFF_FFFC)));
    assert_eq!(state.memory.translate(0x7FFE_FFFB, 1), Err(Error::MemoryUnmapped(0x7FFE_FFFB)));
    assert_eq!(state.memory.translate(0x7FFF_FFF8, 4), Ok(Span { region: 1, offset: 0xFFFC, width: 4 }));
}

#[test]
fn bootstrap_mounts_segments_in_order() {
    let elf = image(0x0040_0000, vec![(0x1000_0000, vec![1, 2]), (0x0040_0000, vec![3, 4, 5])]);
    let state = create_simple_state(&elf, 0x100).unwrap();
    assert_eq!(state.memory.regions.len(), 3);
    assert_eq!(state.memory.regions[0].start, 0x1000_0000);
    assert_eq!(state.memory.regions[0].data, vec![1, 2]);
    assert_eq!(state.memory.regions[1].start, 0x0040_0000);
    assert_eq!(state.memory.regions[1].data, vec![3, 4, 5]);
    assert_eq!(state.memory.regions[2].start, 0x7FFF_FEFC);
    assert_eq!(state.memory.regions[2].data, vec![0u8; 0x100]);
}

#[test]
fn bootstrap_without_segments_or_heap() {
    let elf = image(0, Vec::new());
    let state = create_simple_state(&elf, 0).unwrap();
    assert_eq!(state.memory.regions.len(), 1);
    assert_eq!(state.memory.regions[0].start, HEAP_TOP);
    assert!(state.memory.regions[0].data.is_empty());
    assert_eq!(state.register(RegisterSlot::StackPointer), HEAP_TOP);
}

#[test]
fn bootstrap_refuses_a_heap_that_does_not_fit() {
    let elf = image(0, Vec::new());
    assert_eq!(create_simple_state(&elf, 0x7FFF_FFFC).err(), Some(SetupError::HeapTooLarge));
    assert_eq!(create_simple_state(&elf, 0x7FFF_FFFD).err(), Some(SetupError::HeapTooLarge));
    assert_eq!(create_simple_state(&elf, u32::MAX).err(), Some(SetupError::HeapTooLarge));
}

#[test]
fn bootstrap_refuses_overlapping_segments() {
    let elf = image(0, vec![(0x1000, vec![0; 0x10]), (0x100F, vec![0; 4])]);
    assert_eq!(create_simple_state(&elf, SMALL_HEAP_SIZE).err(), Some(SetupError::RegionOverlap));
}

#[test]
fn bootstrap_refuses_a_segment_inside_the_heap() {
    let elf = image(0, vec![(0x7FFF_0000, vec![0; 4])]);
    assert_eq!(create_simple_state(&elf, SMALL_HEAP_SIZE).err(), Some(SetupError::RegionOverlap));
    let below = image(0, vec![(0x7FFE_FFF8, vec![0; 4])]);
    assert!(create_simple_state(&below, SMALL_HEAP_SIZE).is_ok());
}

#[test]
fn a_segment_may_end_where_the_heap_starts() {
    let elf = image(0, vec![(0x7FFE_FFF0, vec![0xEE; 12])]);
    let state = create_simple_state(&elf, SMALL_HEAP_SIZE).unwrap();
    assert_eq!(state.memory.translate(0x7FFE_FFFB, 1), Ok(Span { region: 0, offset: 11, width: 1 }));
    assert_eq!(state.memory.translate(0x7FFE_FFFC, 1), Ok(Span { region: 1, offset: 0, width: 1 }));
    assert_eq!(state.memory.translate(0x7FFE_FFFA, 4), Err(Error::MemoryAlign(0x7FFE_FFFA)));
    assert_eq!(state.memory.translate(0x7FFE_FFFA, 2), Ok(Span { region: 0, offset: 10, width: 2 }));
}
