//! The virtual address space: a sparse collection of mounted byte regions
//! that resolves an address and an access width to the bytes behind them.

use vstd::prelude::*;
use crate::error::Error;

verus! {

/// The highest address below which memory is laid out. The four bytes from
/// here to the end of the lower half of the address space stay unmapped.
pub const HEAP_TOP: u32 = 0x7FFF_FFFC;

/// What a region is: where it starts and the bytes it holds.
pub struct RegionView {
    pub start: int,
    pub data: Seq<u8>,
}

impl RegionView {
    /// The address one past the last byte of the region.
    pub open spec fn end(self) -> int {
        self.start + self.data.len()
    }

    /// Whether the region holds every byte of `[address, address + width)`.
    pub open spec fn covers(self, address: int, width: int) -> bool {
        self.start <= address && address + width <= self.end()
    }

    /// The `width` bytes that the region holds from `address` on.
    pub open spec fn bytes(self, address: int, width: int) -> Seq<u8> {
        self.data.subrange(address - self.start, address - self.start + width)
    }

    /// The region with `bytes` stored from `address` on and its other bytes
    /// as they were.
    pub open spec fn with_bytes(self, address: int, bytes: Seq<u8>) -> RegionView {
        RegionView {
            start: self.start,
            data: Seq::new(
                self.data.len(),
                |i: int|
                    if address - self.start <= i < address - self.start + bytes.len() {
                        bytes[i - (address - self.start)]
                    } else {
                        self.data[i]
                    },
            ),
        }
    }

    /// Whether the two regions share an address.
    pub open spec fn overlaps(self, other: RegionView) -> bool {
        &&& self.start < other.end()
        &&& other.start < self.end()
        &&& self.data.len() > 0
        &&& other.data.len() > 0
    }
}

/// Whether no two of the regions share an address.
pub open spec fn disjoint(regions: Seq<RegionView>) -> bool {
    forall|i: int, j: int| 0 <= i < j < regions.len() ==> !regions[i].overlaps(regions[j])
}

/// Whether the region at `index` holds every byte of the access.
pub open spec fn covered_by(regions: Seq<RegionView>, address: int, width: int, index: int) -> bool {
    0 <= index < regions.len() && regions[index].covers(address, width)
}

/// Whether the region at `index` is the first in mount order that holds
/// every byte of the access.
pub open spec fn first_cover(regions: Seq<RegionView>, address: int, width: int, index: int) -> bool {
    &&& covered_by(regions, address, width, index)
    &&& forall|earlier: int| 0 <= earlier < index ==> !covered_by(regions, address, width, earlier)
}

/// Whether some region holds every byte of the access. An access that runs
/// from one region into the next is not mapped.
pub open spec fn mapped(regions: Seq<RegionView>, address: int, width: int) -> bool {
    exists|index: int| covered_by(regions, address, width, index)
}

/// The fault that the access raises, if any: misaligned where `address` is no
/// multiple of `width`, and else unmapped where no region holds all of it.
pub open spec fn fault_of(regions: Seq<RegionView>, address: u32, width: u32) -> Option<Error> {
    if address % width != 0 {
        Some(Error::MemoryAlign(address))
    } else if !mapped(regions, address as int, width as int) {
        Some(Error::MemoryUnmapped(address))
    } else {
        None
    }
}

/// One contiguous span of the virtual address space with the bytes behind it.
pub struct Region {
    pub start: u32,
    pub data: Vec<u8>,
}

impl View for Region {
    type V = RegionView;

    open spec fn view(&self) -> RegionView {
        RegionView { start: self.start as int, data: self.data@ }
    }
}

/// Where the bytes of a resolved access lie.
#[derive(Copy, Clone, Debug, PartialEq, Eq, Structural)]
pub struct Span {
    /// The position of the region among the mounted ones, in mount order.
    pub region: usize,
    /// The offset of the first byte of the access in the region's data.
    pub offset: usize,
    /// The number of bytes of the access.
    pub width: usize,
}

/// Why a memory layout is refused.
#[derive(Copy, Clone, Debug, PartialEq, Eq, Structural)]
pub enum SetupError {
    /// A region shares an address with a region mounted before it.
    RegionOverlap,
    /// The heap does not fit below the top of memory.
    HeapTooLarge,
}

/// The mounted regions of one process, in mount order.
pub struct Memory {
    pub regions: Vec<Region>,
}

impl View for Memory {
    type V = Seq<RegionView>;

    open spec fn view(&self) -> Seq<RegionView> {
        Seq::new(self.regions@.len(), |i: int| self.regions@[i]@)
    }
}

impl Memory {
    /// An address space with nothing mounted.
    pub fn new() -> (result: Memory)
        ensures
            result@ == Seq::<RegionView>::empty(),
            disjoint(result@),
    {
        let result = Memory { regions: Vec::new() };
        assert(result@ =~= Seq::<RegionView>::empty());
        result
    }

    /// Whether `region` shares an address with a mounted region.
    pub fn overlaps_mounted(&self, region: &Region) -> (result: bool)
        ensures
            result == exists|index: int| 0 <= index < self@.len() && (#[trigger] self@[index]).overlaps(region@),
    {
        if region.data.len() == 0 {
            return false;
        }
        let mut at: usize = 0;
        while at < self.regions.len()
            invariant
                at <= self.regions.len(),
                region.data@.len() > 0,
                forall|index: int| 0 <= index < at ==> !(#[trigger] self@[index]).overlaps(region@),
            decreases self.regions.len() - at,
        {
            let mounted: &Region = &self.regions[at];
            assert(self@[at as int] == mounted@);
            let shared: bool = if region.start >= mounted.start {
                ((region.start - mounted.start) as u64) < mounted.data.len() as u64
            } else {
                mounted.data.len() > 0 && ((mounted.start - region.start) as u64) < region.data.len() as u64
            };
            if shared {
                return true;
            }
            at += 1;
        }
        false
    }

    /// Mounts `region` behind the regions mounted before. A region that
    /// shares an address with a mounted one is refused, and the address
    /// space stays as it was.
    pub fn mount(&mut self, region: Region) -> (result: Result<(), SetupError>)
        ensures
            match result {
                Ok(_) => {
                    &&& final(self)@ == old(self)@.push(region@)
                    &&& forall|index: int| 0 <= index < old(self)@.len() ==> !(#[trigger] old(self)@[index]).overlaps(region@)
                },
                Err(error) => {
                    &&& error == SetupError::RegionOverlap
                    &&& *final(self) == *old(self)
                    &&& exists|index: int| 0 <= index < old(self)@.len() && (#[trigger] old(self)@[index]).overlaps(region@)
                },
            },
            disjoint(old(self)@) && result.is_ok() ==> disjoint(final(self)@),
    {
        if self.overlaps_mounted(&region) {
            return Err(SetupError::RegionOverlap);
        }
        let ghost view = region@;
        self.regions.push(region);
        assert(self@ =~= old(self)@.push(view));
        Ok(())
    }

    /// Resolves the access of `width` bytes at `address` to the region that
    /// holds all of it, the first such in mount order, and to the offset of
    /// its first byte there.
    ///
    /// The access is refused as misaligned where `address` is no multiple of
    /// `width`, and else as unmapped where no region holds all of its bytes.
    pub fn translate(&self, address: u32, width: u32) -> (result: Result<Span, Error>)
        requires
            width == 1 || width == 2 || width == 4,
        ensures
            match result {
                Ok(span) => {
                    &&& fault_of(self@, address, width).is_none()
                    &&& first_cover(self@, address as int, width as int, span.region as int)
                    &&& span.offset == address - self@[span.region as int].start
                    &&& span.width == width
                },
                Err(error) => fault_of(self@, address, width) == Some(error),
            },
    {
        if address % width != 0 {
            return Err(Error::MemoryAlign(address));
        }
        let mut at: usize = 0;
        while at < self.regions.len()
            invariant
                at <= self.regions.len(),
                width == 1 || width == 2 || width == 4,
                address % width == 0,
                forall|index: int| 0 <= index < at ==> !covered_by(self@, address as int, width as int, index),
            decreases self.regions.len() - at,
        {
            let mounted: &Region = &self.regions[at];
            assert(self@[at as int] == mounted@);
            if mounted.start <= address {
                let offset: u32 = address - mounted.start;
                if offset as u64 + width as u64 <= mounted.data.len() as u64 {
                    assert(covered_by(self@, address as int, width as int, at as int));
                    return Ok(Span { region: at, offset: offset as usize, width: width as usize });
                }
            }
            at += 1;
        }
        Err(Error::MemoryUnmapped(address))
    }

    /// Reads the `width` bytes at `address`, in address order, from the
    /// region that `translate` resolves the access to.
    pub fn read(&self, address: u32, width: u32) -> (result: Result<Vec<u8>, Error>)
        requires
            width == 1 || width == 2 || width == 4,
        ensures
            match result {
                Ok(bytes) => exists|index: int|
                    {
                        &&& #[trigger] first_cover(self@, address as int, width as int, index)
                        &&& bytes@ == self@[index].bytes(address as int, width as int)
                    },
                Err(error) => fault_of(self@, address, width) == Some(error),
            },
    {
        let span: Span = match self.translate(address, width) {
            Ok(span) => span,
            Err(error) => {
                return Err(error);
            },
        };
        let region: &Region = &self.regions[span.region];
        assert(self@[span.region as int] == region@);
        let length: usize = region.data.len();
        let mut bytes: Vec<u8> = Vec::new();
        let mut at: usize = 0;
        while at < span.width
            invariant
                at <= span.width,
                length == region.data@.len(),
                span.offset + span.width <= length,
                bytes@ == region.data@.subrange(span.offset as int, span.offset + at),
            decreases span.width - at,
        {
            bytes.push(region.data[span.offset + at]);
            assert(bytes@ =~= region.data@.subrange(span.offset as int, span.offset + at + 1));
            at += 1;
        }
        assert(first_cover(self@, address as int, width as int, span.region as int));
        Ok(bytes)
    }

    /// Stores `bytes`, in address order, at `address` in the region that
    /// `translate` resolves the access to. Extents never change, and a
    /// refused access changes nothing.
    pub fn write(&mut self, address: u32, bytes: &[u8]) -> (result: Result<(), Error>)
        requires
            bytes@.len() == 1 || bytes@.len() == 2 || bytes@.len() == 4,
        ensures
            match result {
                Ok(_) => exists|index: int|
                    {
                        &&& #[trigger] first_cover(old(self)@, address as int, bytes@.len() as int, index)
                        &&& final(self)@ == old(self)@.update(
                            index,
                            old(self)@[index].with_bytes(address as int, bytes@),
                        )
                    },
                Err(error) => {
                    &&& fault_of(old(self)@, address, bytes@.len() as u32) == Some(error)
                    &&& *final(self) == *old(self)
                },
            },
    {
        let width: u32 = bytes.len() as u32;
        let span: Span = match self.translate(address, width) {
            Ok(span) => span,
            Err(error) => {
                return Err(error);
            },
        };
        let ghost before = old(self)@[span.region as int];
        let length: usize = self.regions[span.region].data.len();
        assert(self@[span.region as int].data.len() == length);
        assert(self@ =~= old(self)@.update(
            span.region as int,
            before.with_bytes(address as int, bytes@.subrange(0, 0)),
        )) by {
            assert(before.with_bytes(address as int, bytes@.subrange(0, 0)).data =~= before.data);
        }
        let mut at: usize = 0;
        while at < span.width
            invariant
                at <= span.width,
                span.width == bytes@.len(),
                span.region < self.regions@.len(),
                self@.len() == old(self)@.len(),
                length == before.data.len(),
                self.regions@[span.region as int].data@.len() == length,
                before == old(self)@[span.region as int],
                span.offset == address - before.start,
                span.offset + span.width <= before.data.len(),
                self@ == old(self)@.update(
                    span.region as int,
                    before.with_bytes(address as int, bytes@.subrange(0, at as int)),
                ),
            decreases span.width - at,
        {
            let ghost earlier = self@;
            self.regions[span.region].data[span.offset + at] = bytes[at];
            proof {
                let target = before.with_bytes(address as int, bytes@.subrange(0, at + 1));
                assert(self@[span.region as int].data =~= earlier[span.region as int].data.update(
                    span.offset + at,
                    bytes@[at as int],
                ));
                assert(self@[span.region as int].data =~= target.data);
                assert(self@[span.region as int] == target);
                let stored = old(self)@.update(span.region as int, target);
                assert(self@.len() == stored.len());
                assert forall|i: int| 0 <= i < self@.len() implies self@[i] == stored[i] by {
                    if i != span.region {
                        assert(self@[i] == earlier[i]);
                        assert(earlier[i] == old(self)@[i]);
                    }
                }
                assert(self@ =~= stored);
            }
            at += 1;
        }
        assert(bytes@.subrange(0, at as int) =~= bytes@);
        assert(first_cover(old(self)@, address as int, bytes@.len() as int, span.region as int));
        Ok(())
    }
}

} // verus!
