//! Tracking of the memory the kernel hands to user processes, so that it is
//! returned to the page allocator when the process exits.

use vstd::prelude::*;
use crate::maps::{pair_table_contents, u64_table_contents, PairTable, U64Table};
use crate::pmm::{
    alloc_free_after, alloc_next_after, alloc_outcome, alloc_pages_after, mark_range, wrap_add,
    BitmapAllocator,
};
use crate::syscall::USER_PHYS_VIRT_OFFSET;

verus! {

/// The number of pages an allocation of `size` bytes spans.
pub open spec fn page_count(size: u64) -> int {
    (size + 0xFFF) / 0x1000
}

/// The first page frame of a user allocation at `addr`.
pub open spec fn first_frame(addr: u64) -> int {
    (addr - USER_PHYS_VIRT_OFFSET) / 4096
}

/// Whether the tracked allocation at `addr` of `size` bytes can be handed
/// back to `pmm`: it lies in the user window and inside the bitmap.
pub open spec fn releasable(pmm: BitmapAllocator, addr: u64, size: u64) -> bool {
    &&& pmm.wf()
    &&& size + 0xFFF <= u64::MAX
    &&& addr >= USER_PHYS_VIRT_OFFSET
    &&& first_frame(addr) + page_count(size) <= pmm.pages().len()
}

/// Page `k` belongs to one of the allocations at the addresses `ks`.
pub open spec fn in_some_range(allocs: Map<u64, (u64, u64)>, ks: Seq<u64>, k: int) -> bool {
    exists|j: int|
        0 <= j < ks.len() && first_frame(#[trigger] ks[j]) <= k < first_frame(ks[j])
            + page_count(allocs[ks[j]].1)
}

/// `x` plus the page counts of the allocations at `ks`, modulo 2^64, added in order.
pub open spec fn add_page_counts(x: u64, allocs: Map<u64, (u64, u64)>, ks: Seq<u64>) -> u64
    decreases ks.len(),
{
    if ks.len() == 0 {
        x
    } else {
        wrap_add(
            add_page_counts(x, allocs, ks.drop_last()),
            page_count(allocs[ks.last()].1) as u64,
        )
    }
}

/// The addresses of the allocations a process owns.
pub open spec fn owned_by(allocs: Map<u64, (u64, u64)>, proc_id: u64) -> Set<u64> {
    Set::new(|a: u64| allocs.contains_key(a) && allocs[a].0 == proc_id)
}

/// The effect of freeing everything `proc_id` owns: its allocations are
/// forgotten, their pages become free, and the free count grows by their
/// page counts, added in some order of the allocations.
pub open spec fn proc_freed(
    t0: UserAllocationTracker,
    t1: UserAllocationTracker,
    p0: BitmapAllocator,
    p1: BitmapAllocator,
    proc_id: u64,
) -> bool {
    &&& t1.allocs() == t0.allocs().remove_keys(owned_by(t0.allocs(), proc_id))
    &&& t1.messages() == t0.messages()
    &&& p1.wf()
    &&& p1.next_index() == p0.next_index()
    &&& p1.total() == p0.total()
    &&& p1.highest() == p0.highest()
    &&& p1.pages().len() == p0.pages().len()
    &&& exists|ks: Seq<u64>|
        {
            &&& ks.no_duplicates()
            &&& ks.to_set() == owned_by(t0.allocs(), proc_id)
            &&& p1.free_count() == add_page_counts(p0.free_count(), t0.allocs(), ks)
            &&& forall|k: int|
                0 <= k < p0.pages().len() ==> #[trigger] p1.pages()[k] == (p0.pages()[k]
                    && !in_some_range(t0.allocs(), ks, k))
        }
}

/// User allocations: address to (owning process, size in bytes), and
/// message id to the address of the message's data.
pub struct UserAllocationTracker {
    pub allocations: PairTable,
    pub message_allocations: U64Table,
}

impl UserAllocationTracker {
    /// The allocations: address to (owning process, size).
    pub open spec fn allocs(&self) -> Map<u64, (u64, u64)> {
        pair_table_contents(self.allocations)
    }

    /// The messages: id to the address of the data.
    pub open spec fn messages(&self) -> Map<u64, u64> {
        u64_table_contents(self.message_allocations)
    }

    /// A tracker with nothing tracked.
    pub fn new() -> (r: Self)
        ensures
            r.allocs().dom().is_empty(),
            r.messages().dom().is_empty(),
    {
        UserAllocationTracker { allocations: PairTable::new(), message_allocations: U64Table::new() }
    }

    /// The owner and size of the allocation at `addr`, if one is tracked.
    pub fn allocation(&self, addr: u64) -> (r: Option<(u64, u64)>)
        ensures
            r == (if self.allocs().contains_key(addr) {
                Some(self.allocs()[addr])
            } else {
                None::<(u64, u64)>
            }),
    {
        self.allocations.get(addr)
    }

    /// The address of the data of message `id`, if one is tracked.
    pub fn message_addr(&self, id: u64) -> (r: Option<u64>)
        ensures
            r == (if self.messages().contains_key(id) {
                Some(self.messages()[id])
            } else {
                None::<u64>
            }),
    {
        self.message_allocations.get(id)
    }

    /// Records that `proc_id` owns `size` bytes at `addr`.
    pub fn track(&mut self, proc_id: u64, addr: u64, size: u64)
        ensures
            final(self).allocs() == old(self).allocs().insert(addr, (proc_id, size)),
            final(self).messages() == old(self).messages(),
    {
        self.allocations.insert(addr, (proc_id, size));
    }

    /// Records that the data of message `id` lies at `addr`.
    pub fn track_msg(&mut self, id: u64, addr: u64)
        ensures
            final(self).allocs() == old(self).allocs(),
            final(self).messages() == old(self).messages().insert(id, addr),
    {
        self.message_allocations.insert(id, addr);
    }

    /// Forgets message `id` and frees its data.
    pub fn free_msg(&mut self, pmm: &mut BitmapAllocator, id: u64)
        requires
            old(self).messages().contains_key(id),
            old(self).allocs().contains_key(old(self).messages()[id]),
            releasable(
                *old(pmm),
                old(self).messages()[id],
                old(self).allocs()[old(self).messages()[id]].1,
            ),
        ensures
            ({
                let addr = old(self).messages()[id];
                let size = old(self).allocs()[addr].1;
                &&& final(self).messages() == old(self).messages().remove(id)
                &&& final(self).allocs() == old(self).allocs().remove(addr)
                &&& final(pmm).wf()
                &&& final(pmm).pages() == mark_range(old(pmm).pages(), first_frame(addr), first_frame(addr) + page_count(size), false)
                &&& final(pmm).free_count() == wrap_add(old(pmm).free_count(), page_count(size) as u64)
                &&& final(pmm).next_index() == old(pmm).next_index()
                &&& final(pmm).total() == old(pmm).total()
                &&& final(pmm).highest() == old(pmm).highest()
            }),
    {
        let addr = self.message_allocations.remove(id).unwrap();
        self.free(pmm, addr);
    }

    /// Forgets the allocation at `addr` and returns its pages to `pmm`.
    pub fn free(&mut self, pmm: &mut BitmapAllocator, addr: u64)
        requires
            old(self).allocs().contains_key(addr),
            releasable(*old(pmm), addr, old(self).allocs()[addr].1),
        ensures
            ({
                let size = old(self).allocs()[addr].1;
                &&& final(self).allocs() == old(self).allocs().remove(addr)
                &&& final(self).messages() == old(self).messages()
                &&& final(pmm).wf()
                &&& final(pmm).pages() == mark_range(old(pmm).pages(), first_frame(addr), first_frame(addr) + page_count(size), false)
                &&& final(pmm).free_count() == wrap_add(old(pmm).free_count(), page_count(size) as u64)
                &&& final(pmm).next_index() == old(pmm).next_index()
                &&& final(pmm).total() == old(pmm).total()
                &&& final(pmm).highest() == old(pmm).highest()
            }),
    {
        let (_proc_id, size) = self.allocations.remove(addr).unwrap();
        let count = (size + 0xFFF) / 0x1000;
        pmm.free(addr - USER_PHYS_VIRT_OFFSET, count);
    }

    /// Frees every allocation `proc_id` owns. The allocations are released
    /// in the table's order; the resulting page flags do not depend on it.
    pub fn free_proc(&mut self, pmm: &mut BitmapAllocator, proc_id: u64)
        requires
            old(pmm).wf(),
            forall|a: u64|
                #[trigger] owned_by(old(self).allocs(), proc_id).contains(a) ==> releasable(
                    *old(pmm),
                    a,
                    old(self).allocs()[a].1,
                ),
        ensures
            proc_freed(*old(self), *final(self), *old(pmm), *final(pmm), proc_id),
    {
        let ghost allocs0 = self.allocs();
        let ghost pages0 = pmm.pages();
        let ghost owned = owned_by(allocs0, proc_id);
        let keys = self.allocations.keys();
        let mut mine: Vec<u64> = Vec::new();
        let mut i: usize = 0;
        while i < keys.len()
            invariant
                i <= keys@.len(),
                keys@.no_duplicates(),
                keys@.to_set() == allocs0.dom(),
                allocs0 == self.allocs(),
                mine@.no_duplicates(),
                forall|j: int| 0 <= j < mine@.len() ==> owned.contains(#[trigger] mine@[j]),
                forall|j: int| 0 <= j < mine@.len() ==> exists|q: int| 0 <= q < i && keys@[q] == #[trigger] mine@[j],
                forall|q: int| 0 <= q < i && owned.contains(#[trigger] keys@[q]) ==> mine@.contains(keys@[q]),
                owned == owned_by(allocs0, proc_id),
            decreases keys@.len() - i,
        {
            let a = keys[i];
            let ghost mine0 = mine@;
            assert(keys@.to_set().contains(a));
            if let Some((p, _)) = self.allocations.get(a) {
                if p == proc_id {
                    proof {
                        assert forall|j: int| 0 <= j < mine@.len() implies mine@[j] != a by {
                            let q = choose|q: int| 0 <= q < i && keys@[q] == mine@[j];
                            assert(keys@[q] != keys@[i as int]);
                        }
                    }
                    mine.push(a);
                }
            }
            proof {
                assert forall|q: int| 0 <= q < i + 1 && owned.contains(#[trigger] keys@[q]) implies mine@.contains(keys@[q]) by {
                    if q < i {
                        let j = choose|j: int| 0 <= j < mine0.len() && mine0[j] == keys@[q];
                        assert(mine@[j] == keys@[q]);
                    } else {
                        assert(mine@[mine@.len() - 1] == a);
                    }
                }
                assert forall|j: int| 0 <= j < mine@.len() implies exists|q: int| 0 <= q < i + 1 && keys@[q] == #[trigger] mine@[j] by {
                    if j < mine0.len() {
                        assert(mine@[j] == mine0[j]);
                    } else {
                        assert(keys@[i as int] == mine@[j]);
                    }
                }
            }
            i = i + 1;
        }
        proof {
            assert forall|a: u64| owned.contains(a) implies mine@.contains(a) by {
                assert(keys@.to_set().contains(a));
                let q = choose|q: int| 0 <= q < keys@.len() && keys@[q] == a;
            }
            assert(mine@.to_set() =~= owned);
        }
        let mut i: usize = 0;
        while i < mine.len()
            invariant
                i <= mine@.len(),
                mine@.no_duplicates(),
                mine@.to_set() == owned,
                owned == owned_by(allocs0, proc_id),
                forall|a: u64| #[trigger] owned.contains(a) ==> releasable(*old(pmm), a, allocs0[a].1),
                self.allocs() == allocs0.remove_keys(mine@.take(i as int).to_set()),
                self.messages() == old(self).messages(),
                pmm.wf(),
                pmm.next_index() == old(pmm).next_index(),
                pmm.total() == old(pmm).total(),
                pmm.highest() == old(pmm).highest(),
                pmm.pages().len() == pages0.len(),
                pages0 == old(pmm).pages(),
                pmm.free_count() == add_page_counts(old(pmm).free_count(), allocs0, mine@.take(i as int)),
                forall|k: int|
                    0 <= k < pages0.len() ==> #[trigger] pmm.pages()[k] == (pages0[k] && !in_some_range(
                        allocs0,
                        mine@.take(i as int),
                        k,
                    )),
            decreases mine@.len() - i,
        {
            let a = mine[i];
            let ghost prefix = mine@.take(i as int);
            let ghost next = mine@.take(i + 1);
            proof {
                assert(mine@.to_set().contains(a));
                assert(!prefix.contains(a)) by {
                    if prefix.contains(a) {
                        let q = choose|q: int| 0 <= q < prefix.len() && prefix[q] == a;
                        assert(mine@[q] == mine@[i as int]);
                    }
                }
                assert(self.allocs().contains_key(a));
                assert(self.allocs()[a] == allocs0[a]);
            }
            let ghost before = pmm.pages();
            self.free(pmm, a);
            proof {
                assert(next.drop_last() =~= prefix);
                assert(next.last() == a);
                assert(next.to_set() =~= prefix.to_set().insert(a));
                assert(self.allocs() =~= allocs0.remove_keys(next.to_set()));
                assert forall|k: int| 0 <= k < pages0.len() implies #[trigger] pmm.pages()[k] == (
                pages0[k] && !in_some_range(allocs0, next, k)) by {
                    if in_some_range(allocs0, prefix, k) {
                        let j = choose|j: int|
                            0 <= j < prefix.len() && first_frame(#[trigger] prefix[j]) <= k
                                < first_frame(prefix[j]) + page_count(allocs0[prefix[j]].1);
                        assert(next[j] == prefix[j]);
                    }
                    if in_some_range(allocs0, next, k) {
                        let j = choose|j: int|
                            0 <= j < next.len() && first_frame(#[trigger] next[j]) <= k
                                < first_frame(next[j]) + page_count(allocs0[next[j]].1);
                        if j < prefix.len() {
                            assert(prefix[j] == next[j]);
                        }
                    }
                    assert(before[k] == (pages0[k] && !in_some_range(allocs0, prefix, k)));
                }
            }
            i = i + 1;
        }
        proof {
            assert(mine@.take(mine@.len() as int) =~= mine@);
            assert(self.allocs() =~= allocs0.remove_keys(owned));
            assert(pmm.free_count() == add_page_counts(old(pmm).free_count(), old(self).allocs(), mine@));
        }
    }

    /// Allocates `size` bytes for `proc_id` from `pmm` and tracks them;
    /// returns the address in the user window.
    pub fn allocate(&mut self, pmm: &mut BitmapAllocator, proc_id: u64, size: u64) -> (r: u64)
        requires
            old(pmm).wf(),
            size + 0xFFF <= u64::MAX,
            alloc_outcome(*old(pmm), ((size + 0xFFF) / 0x1000) as u64) is Some,
        ensures
            ({
                let count = ((size + 0xFFF) / 0x1000) as u64;
                &&& r == alloc_outcome(*old(pmm), count).unwrap() + USER_PHYS_VIRT_OFFSET
                &&& final(pmm).wf()
                &&& final(pmm).pages() == alloc_pages_after(*old(pmm), count)
                &&& final(pmm).next_index() == alloc_next_after(*old(pmm), count)
                &&& final(pmm).free_count() == alloc_free_after(*old(pmm), count)
                &&& final(pmm).total() == old(pmm).total()
                &&& final(pmm).highest() == old(pmm).highest()
                &&& final(self).allocs() == old(self).allocs().insert(r, (proc_id, size))
                &&& final(self).messages() == old(self).messages()
            }),
    {
        let addr = pmm.alloc_pages((size + 0xFFF) / 0x1000).unwrap();
        let virt = addr + USER_PHYS_VIRT_OFFSET;
        self.track(proc_id, virt, size);
        virt
    }
}

} // verus!
