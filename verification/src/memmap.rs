//! The memory map handed from the boot loader to the kernel.

use vstd::prelude::*;

verus! {

/// Size of a page frame.
pub const PAGE_SIZE: u64 = 0x1000;

/// Bound of the physical memory the kernel's direct map covers (128 TiB).
pub const MAX_PHYS_ADDR: u64 = 0x8000_0000_0000;

/// A contiguous range of physical memory.
#[derive(Debug, Clone, Copy, PartialEq, Eq, Structural)]
pub struct MemoryData {
    pub base: u64,
    pub length: u64,
}

/// A memory-map entry and what the range holds.
#[derive(Debug, Clone, Copy, PartialEq, Eq, Structural)]
pub enum MemoryEntry {
    Usable(MemoryData),
    BootLoaderReclaimable(MemoryData),
    KernelOrModule(MemoryData),
    ACPIReclaimable(MemoryData),
}

/// The range of an entry, whatever its kind.
pub open spec fn data_of(e: MemoryEntry) -> MemoryData {
    match e {
        MemoryEntry::Usable(d) => d,
        MemoryEntry::BootLoaderReclaimable(d) => d,
        MemoryEntry::KernelOrModule(d) => d,
        MemoryEntry::ACPIReclaimable(d) => d,
    }
}

/// One past the last byte of a range.
pub open spec fn top_of(d: MemoryData) -> int {
    d.base + d.length
}

/// Every usable or boot-loader-reclaimable entry, the memory the page
/// allocator describes, lies below 128 TiB: the kernel reaches the bitmap
/// and every page it hands out through its window onto physical memory,
/// which is that large. Other entries are not bounded.
pub open spec fn in_phys_space(mmap: Seq<MemoryEntry>) -> bool {
    forall|k: int|
        0 <= k < mmap.len() && (mmap[k] is Usable || mmap[k] is BootLoaderReclaimable) ==> top_of(
            data_of(#[trigger] mmap[k]),
        ) <= MAX_PHYS_ADDR
}

} // verus!
