//! The boot loader's record of the ranges it loaded the kernel and its
//! modules into, and the translation of firmware memory descriptors into
//! the kernel's memory map.

use vstd::prelude::*;
use crate::memmap::{MemoryData, MemoryEntry, PAGE_SIZE};

verus! {

/// Firmware memory type: code of the boot loader.
pub const LOADER_CODE: u32 = 1;

/// Firmware memory type: data of the boot loader.
pub const LOADER_DATA: u32 = 2;

/// Firmware memory type: free memory.
pub const CONVENTIONAL: u32 = 7;

/// Firmware memory type: ACPI tables that can be reclaimed once read.
pub const ACPI_RECLAIM: u32 = 9;

/// A firmware memory descriptor, as far as the memory map needs it.
#[derive(Debug, Clone, Copy, PartialEq, Eq, Structural)]
pub struct MemoryDescriptor {
    pub ty: u32,
    pub phys_start: u64,
    pub page_count: u64,
}

/// The ranges, as `(base, size)`, that the boot loader placed the kernel
/// and its modules in, in the order it placed them.
#[derive(Debug)]
pub struct MemoryManager {
    entries: Vec<(u64, u64)>,
}

impl View for MemoryManager {
    type V = Seq<(u64, u64)>;

    closed spec fn view(&self) -> Seq<(u64, u64)> {
        self.entries@
    }
}

/// Whether a descriptor starting at `base` is taken to lie in the
/// recorded range `e`: it starts no later than the range's end.
pub open spec fn covers(e: (u64, u64), base: u64) -> bool {
    base <= e.0 + e.1
}

/// The first recorded range from index `i` on that covers `base`.
pub open spec fn find_from(s: Seq<(u64, u64)>, base: u64, i: int) -> Option<(u64, u64)>
    decreases s.len() - i,
{
    if i < 0 || i >= s.len() {
        None
    } else if covers(s[i], base) {
        Some(s[i])
    } else {
        find_from(s, base, i + 1)
    }
}

/// The ends of the ranges that the search from index `i` looks at fit in
/// 64 bits.
pub open spec fn search_fits(s: Seq<(u64, u64)>, base: u64, i: int) -> bool
    decreases s.len() - i,
{
    if i < 0 || i >= s.len() {
        true
    } else {
        s[i].0 + s[i].1 <= u64::MAX && (covers(s[i], base) || search_fits(s, base, i + 1))
    }
}

/// The range of memory a descriptor stands for.
pub open spec fn desc_data(desc: MemoryDescriptor) -> MemoryData {
    MemoryData { base: desc.phys_start, length: (desc.page_count * PAGE_SIZE) as u64 }
}

/// What a loader range becomes: with no recorded range covering it, it is
/// reclaimable; if it reaches past the first covering range, its start
/// moves up and its length shrinks by that range's size, and it is
/// reclaimable; else it holds the kernel or a module.
pub open spec fn classify_loader(s: Seq<(u64, u64)>, d: MemoryData) -> MemoryEntry {
    match find_from(s, d.base, 0) {
        None => MemoryEntry::BootLoaderReclaimable(d),
        Some(e) => if d.base + d.length > e.0 + e.1 {
            MemoryEntry::BootLoaderReclaimable(
                MemoryData { base: (d.base + e.1) as u64, length: (d.length - e.1) as u64 },
            )
        } else {
            MemoryEntry::KernelOrModule(d)
        },
    }
}

/// The memory-map entry of a descriptor, if its type has one.
pub open spec fn spec_mem_type(s: Seq<(u64, u64)>, desc: MemoryDescriptor) -> Option<MemoryEntry> {
    let d = desc_data(desc);
    if desc.ty == CONVENTIONAL {
        Some(MemoryEntry::Usable(d))
    } else if desc.ty == LOADER_CODE || desc.ty == LOADER_DATA {
        Some(classify_loader(s, d))
    } else if desc.ty == ACPI_RECLAIM {
        Some(MemoryEntry::ACPIReclaimable(d))
    } else {
        None
    }
}

/// The arithmetic of the translation stays in 64 bits and does not go
/// below zero.
pub open spec fn mem_type_in_range(s: Seq<(u64, u64)>, desc: MemoryDescriptor) -> bool {
    let d = desc_data(desc);
    &&& desc.page_count * PAGE_SIZE <= u64::MAX
    &&& (desc.ty == LOADER_CODE || desc.ty == LOADER_DATA) ==> {
        &&& search_fits(s, d.base, 0)
        &&& match find_from(s, d.base, 0) {
            None => true,
            Some(e) => {
                &&& d.base + d.length <= u64::MAX
                &&& d.base + d.length > e.0 + e.1 ==> (e.1 <= d.length && d.base + e.1 <= u64::MAX)
            },
        }
    }
}

proof fn lemma_find_skip(s: Seq<(u64, u64)>, base: u64, i: int)
    requires
        0 <= i < s.len(),
        !covers(s[i], base),
    ensures
        find_from(s, base, i) == find_from(s, base, i + 1),
        search_fits(s, base, i) ==> search_fits(s, base, i + 1),
{
}

/// A loader descriptor that starts where a recorded range starts and is
/// no larger than it, with no earlier recorded range covering its start,
/// holds the kernel or a module.
pub proof fn law_recorded_range_is_kernel(s: Seq<(u64, u64)>, k: int, desc: MemoryDescriptor)
    requires
        0 <= k < s.len(),
        desc.ty == LOADER_CODE || desc.ty == LOADER_DATA,
        desc.phys_start == s[k].0,
        desc.page_count * PAGE_SIZE <= s[k].1,
        s[k].0 + s[k].1 <= u64::MAX,
        forall|j: int| 0 <= j < k ==> !covers(#[trigger] s[j], desc.phys_start),
    ensures
        spec_mem_type(s, desc) == Some(MemoryEntry::KernelOrModule(desc_data(desc))),
{
    lemma_find_skips_to(s, desc.phys_start, 0, k);
}

/// The search from `i` goes past ranges that do not cover `base` up to `k`.
proof fn lemma_find_skips_to(s: Seq<(u64, u64)>, base: u64, i: int, k: int)
    requires
        0 <= i <= k < s.len(),
        covers(s[k], base),
        forall|j: int| i <= j < k ==> !covers(#[trigger] s[j], base),
    ensures
        find_from(s, base, i) == Some(s[k]),
    decreases k - i,
{
    if i < k {
        lemma_find_skips_to(s, base, i + 1, k);
    }
}

impl MemoryManager {
    /// No range recorded.
    pub fn new() -> (r: MemoryManager)
        ensures
            r@ == Seq::<(u64, u64)>::empty(),
    {
        MemoryManager { entries: Vec::new() }
    }

    /// Records that `ent`, as `(base, size)`, holds the kernel or a module.
    pub fn allocate(&mut self, ent: (u64, u64))
        ensures
            final(self)@ == old(self)@.push(ent),
    {
        self.entries.push(ent);
    }

    /// Whether the translation of `desc` stays in 64 bits and above zero,
    /// which `mem_type_from_desc` needs.
    pub fn in_range(&self, desc: &MemoryDescriptor) -> (r: bool)
        ensures
            r == mem_type_in_range(self@, *desc),
    {
        let length = match desc.page_count.checked_mul(PAGE_SIZE) {
            Some(l) => l,
            None => return false,
        };
        if desc.ty != LOADER_CODE && desc.ty != LOADER_DATA {
            return true;
        }
        let base = desc.phys_start;
        let ghost s = self@;
        let mut i: usize = 0;
        while i < self.entries.len()
            invariant
                s == self@,
                i <= s.len(),
                length == desc.page_count * PAGE_SIZE,
                desc.ty == LOADER_CODE || desc.ty == LOADER_DATA,
                base == desc.phys_start,
                search_fits(s, base, 0) == search_fits(s, base, i as int),
                find_from(s, base, 0) == find_from(s, base, i as int),
            decreases s.len() - i,
        {
            let (b, sz) = self.entries[i];
            if b > u64::MAX - sz {
                return false;
            }
            if base <= b + sz {
                if base > u64::MAX - length {
                    return false;
                }
                if base + length > b + sz {
                    return sz <= length && base <= u64::MAX - sz;
                }
                return true;
            }
            i = i + 1;
        }
        true
    }

    /// The memory-map entry of a firmware descriptor: free memory is
    /// usable, ACPI reclaim memory stays so, loader memory is split from
    /// the recorded kernel and module ranges, and any other type has none.
    pub fn mem_type_from_desc(&self, desc: &MemoryDescriptor) -> (r: Option<MemoryEntry>)
        requires
            mem_type_in_range(self@, *desc),
        ensures
            r == spec_mem_type(self@, *desc),
    {
        let mut data = MemoryData { base: desc.phys_start, length: desc.page_count * PAGE_SIZE };
        if desc.ty == CONVENTIONAL {
            return Some(MemoryEntry::Usable(data));
        }
        if desc.ty == ACPI_RECLAIM {
            return Some(MemoryEntry::ACPIReclaimable(data));
        }
        if desc.ty != LOADER_CODE && desc.ty != LOADER_DATA {
            return None;
        }
        let mut i: usize = 0;
        while i < self.entries.len()
            invariant
                i <= self.entries@.len(),
                data == desc_data(*desc),
                find_from(self@, data.base, 0) == find_from(self@, data.base, i as int),
                search_fits(self@, data.base, i as int),
                mem_type_in_range(self@, *desc),
                desc.ty == LOADER_CODE || desc.ty == LOADER_DATA,
            decreases self.entries@.len() - i,
        {
            let (base, size) = self.entries[i];
            if data.base <= base + size {
                let top = data.base + data.length;
                if top > base + size {
                    data.length = data.length - size;
                    data.base = data.base + size;
                    return Some(MemoryEntry::BootLoaderReclaimable(data));
                }
                return Some(MemoryEntry::KernelOrModule(data));
            }
            proof {
                lemma_find_skip(self@, data.base, i as int);
            }
            i = i + 1;
        }
        Some(MemoryEntry::BootLoaderReclaimable(data))
    }
}

} // verus!
