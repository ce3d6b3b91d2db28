//! A user process's memory bookkeeping: the allocations it owns, which of
//! them carry messages, and the page-table work each change needs.

use vstd::prelude::*;
use std::collections::VecDeque;
use crate::allocations::{first_frame, page_count, releasable};
use crate::maps::{flag_table_contents, u64_table_contents, FlagTable, U64Table};
use crate::pmm::{
    alloc_free_after, alloc_next_after, alloc_outcome, alloc_pages_after, lemma_alloc_pages_fresh,
    mark_range, wrap_add, BitmapAllocator, PHYS_VIRT_OFFSET,
};
use crate::syscall::USER_PHYS_VIRT_OFFSET;

verus! {

/// Page-table work on the process's address space.
#[derive(Debug, Clone, Copy, PartialEq, Eq, Structural)]
pub enum PagingRequest {
    /// Map `count` pages at `virt` onto `phys`: present, user, and writable when asked.
    MapPages { virt: u64, phys: u64, count: u64, writable: bool },
    /// Unmap `count` pages at `virt`.
    UnmapPages { virt: u64, count: u64 },
}

/// A message waiting in a process's queue: its id, the sending process
/// (0 for the kernel), and the address and length of its data.
#[derive(Debug, Clone, Copy, PartialEq, Eq, Structural)]
pub struct QueuedMessage {
    pub id: u64,
    pub pid: u64,
    pub addr: u64,
    pub len: u64,
}

/// A user process.
pub struct Process {
    pub id: u64,
    pub path: String,
    pub image_base: u64,
    /// Address to (size in bytes, whether it is mapped into the process).
    pub allocations: FlagTable,
    pub msg_id_to_addr: U64Table,
    pub addr_to_msg_id: U64Table,
    pub thread_ids: Vec<u64>,
    /// Messages waiting to be received, newest first.
    pub messages: VecDeque<QueuedMessage>,
}

/// Every page of the allocation at user address `addr` of `size` bytes is
/// in use in `pmm`, and the allocation lies in the bitmap.
pub open spec fn backed(pmm: BitmapAllocator, addr: u64, size: u64) -> bool {
    &&& pmm.wf()
    &&& size + 0xFFF <= u64::MAX
    &&& addr >= USER_PHYS_VIRT_OFFSET
    &&& first_frame(addr) + page_count(size) <= pmm.pages().len()
    &&& forall|k: int|
        first_frame(addr) <= k < first_frame(addr) + page_count(size) ==> #[trigger] pmm.pages()[k]
}

/// The mapping a tracked allocation asks for, if it is to be mapped.
pub open spec fn map_request(addr: u64, size: u64, writable: Option<bool>) -> Option<PagingRequest> {
    match writable {
        None => None,
        Some(w) => Some(
            PagingRequest::MapPages {
                virt: addr,
                phys: (addr - USER_PHYS_VIRT_OFFSET) as u64,
                count: page_count(size) as u64,
                writable: w,
            },
        ),
    }
}

/// The pages of an allocation are returned to the allocator: the frames of
/// `[addr, addr + size)` are marked free and the free count grows by their number.
pub open spec fn released(p0: BitmapAllocator, p1: BitmapAllocator, addr: u64, size: u64) -> bool {
    &&& p1.wf()
    &&& p1.pages() == mark_range(
        p0.pages(),
        first_frame(addr),
        first_frame(addr) + page_count(size),
        false,
    )
    &&& p1.free_count() == wrap_add(p0.free_count(), page_count(size) as u64)
    &&& p1.next_index() == p0.next_index()
    &&& p1.total() == p0.total()
    &&& p1.highest() == p0.highest()
}

/// The unmapping a freed allocation asks for, if it was mapped.
pub open spec fn unmap_request(addr: u64, entry: (u64, bool)) -> Option<PagingRequest> {
    if entry.1 {
        Some(PagingRequest::UnmapPages { virt: addr, count: page_count(entry.0) as u64 })
    } else {
        None
    }
}

/// Message ids and message addresses correspond one to one, and every
/// message's data is a tracked allocation.
pub open spec fn msgs_consistent(
    allocs: Map<u64, (u64, bool)>,
    msg_addrs: Map<u64, u64>,
    msg_ids: Map<u64, u64>,
) -> bool {
    &&& forall|id: u64| #[trigger] msg_addrs.contains_key(id) ==> {
        &&& msg_ids.contains_key(msg_addrs[id])
        &&& msg_ids[msg_addrs[id]] == id
        &&& allocs.contains_key(msg_addrs[id])
    }
    &&& forall|a: u64| #[trigger] msg_ids.contains_key(a) ==> {
        &&& msg_addrs.contains_key(msg_ids[a])
        &&& msg_addrs[msg_ids[a]] == a
    }
}

/// Marking a tracked allocation that carries no message as the data of a
/// new message id keeps messages and addresses in correspondence, and
/// freeing a message keeps them so too.
pub proof fn law_messages_stay_consistent(
    allocs: Map<u64, (u64, bool)>,
    msg_addrs: Map<u64, u64>,
    msg_ids: Map<u64, u64>,
    id: u64,
    addr: u64,
)
    requires
        msgs_consistent(allocs, msg_addrs, msg_ids),
    ensures
        allocs.contains_key(addr) && !msg_addrs.contains_key(id) && !msg_ids.contains_key(addr)
            ==> msgs_consistent(allocs, msg_addrs.insert(id, addr), msg_ids.insert(addr, id)),
        msg_addrs.contains_key(id) ==> msgs_consistent(
            allocs.remove(msg_addrs[id]),
            msg_addrs.remove(id),
            msg_ids.remove(msg_addrs[id]),
        ),
{
    if allocs.contains_key(addr) && !msg_addrs.contains_key(id) && !msg_ids.contains_key(addr) {
        let ma = msg_addrs.insert(id, addr);
        let mi = msg_ids.insert(addr, id);
        assert forall|i: u64| #[trigger] ma.contains_key(i) implies mi.contains_key(ma[i]) && mi[ma[i]]
            == i && allocs.contains_key(ma[i]) by {
            if i != id {
                assert(msg_addrs.contains_key(i));
                assert(ma[i] != addr);
            }
        }
        assert forall|a: u64| #[trigger] mi.contains_key(a) implies ma.contains_key(mi[a]) && ma[mi[a]]
            == a by {
            if a != addr {
                assert(msg_ids.contains_key(a));
                assert(mi[a] != id);
            }
        }
    }
    if msg_addrs.contains_key(id) {
        let x = msg_addrs[id];
        let al = allocs.remove(x);
        let ma = msg_addrs.remove(id);
        let mi = msg_ids.remove(x);
        assert forall|i: u64| #[trigger] ma.contains_key(i) implies mi.contains_key(ma[i]) && mi[ma[i]]
            == i && al.contains_key(ma[i]) by {
            assert(msg_addrs.contains_key(i));
            assert(msg_ids[msg_addrs[i]] == i);
        }
        assert forall|a: u64| #[trigger] mi.contains_key(a) implies ma.contains_key(mi[a]) && ma[mi[a]]
            == a by {
            assert(msg_ids.contains_key(a));
        }
    }
}

/// Page `k` belongs to one of the allocations at the addresses `ks`.
pub open spec fn in_freed_range(allocs: Map<u64, (u64, bool)>, ks: Seq<u64>, k: int) -> bool {
    exists|j: int|
        0 <= j < ks.len() && first_frame(#[trigger] ks[j]) <= k < first_frame(ks[j]) + page_count(
            allocs[ks[j]].0,
        )
}

/// `x` plus the page counts of the allocations at `ks`, modulo 2^64, added in order.
pub open spec fn add_freed_pages(x: u64, allocs: Map<u64, (u64, bool)>, ks: Seq<u64>) -> u64
    decreases ks.len(),
{
    if ks.len() == 0 {
        x
    } else {
        wrap_add(add_freed_pages(x, allocs, ks.drop_last()), page_count(allocs[ks.last()].0) as u64)
    }
}

/// The unmappings freeing the allocations at `ks`, in order, asks for.
pub open spec fn unmaps_of(allocs: Map<u64, (u64, bool)>, ks: Seq<u64>) -> Seq<PagingRequest>
    decreases ks.len(),
{
    if ks.len() == 0 {
        Seq::empty()
    } else {
        unmaps_of(allocs, ks.drop_last()) + match unmap_request(ks.last(), allocs[ks.last()]) {
            Some(u) => seq![u],
            None => Seq::empty(),
        }
    }
}

/// Every allocation in `allocs` can be released in `pmm`.
pub open spec fn all_releasable(pmm: BitmapAllocator, allocs: Map<u64, (u64, bool)>) -> bool {
    forall|a: u64| #[trigger] allocs.contains_key(a) ==> releasable(pmm, a, allocs[a].0)
}

/// The allocator after the allocations in `allocs` are released in the
/// order `ks`, which names each of them once: their pages are free, every
/// other page is as it was, and the free count grows by their page counts.
pub open spec fn released_along(
    p0: BitmapAllocator,
    p1: BitmapAllocator,
    allocs: Map<u64, (u64, bool)>,
    ks: Seq<u64>,
) -> bool {
    &&& ks.no_duplicates()
    &&& ks.to_set() == allocs.dom()
    &&& p1.free_count() == add_freed_pages(p0.free_count(), allocs, ks)
    &&& forall|k: int|
        0 <= k < p0.pages().len() ==> #[trigger] p1.pages()[k] == (p0.pages()[k] && !in_freed_range(
            allocs,
            ks,
            k,
        ))
}

/// The allocator after every allocation in `allocs` is released, in some
/// order, as dropping their owner does.
pub open spec fn all_released(p0: BitmapAllocator, p1: BitmapAllocator, allocs: Map<u64, (u64, bool)>) -> bool {
    &&& p1.wf()
    &&& p1.next_index() == p0.next_index()
    &&& p1.total() == p0.total()
    &&& p1.highest() == p0.highest()
    &&& p1.pages().len() == p0.pages().len()
    &&& exists|ks: Seq<u64>| #[trigger] released_along(p0, p1, allocs, ks)
}

/// `b` is the process `a`: the same id, path, image base, threads and queue.
pub open spec fn same_identity(a: Process, b: Process) -> bool {
    &&& b.id == a.id
    &&& b.path == a.path
    &&& b.image_base == a.image_base
    &&& b.thread_ids == a.thread_ids
    &&& b.messages == a.messages
}

/// `b` is `a` but for its thread list.
pub open spec fn same_but_threads(a: Process, b: Process) -> bool {
    &&& b.id == a.id
    &&& b.path == a.path
    &&& b.image_base == a.image_base
    &&& b.allocations == a.allocations
    &&& b.msg_id_to_addr == a.msg_id_to_addr
    &&& b.addr_to_msg_id == a.addr_to_msg_id
    &&& b.messages == a.messages
}

impl Process {
    /// The allocations: address to (size, mapped).
    pub open spec fn allocs(&self) -> Map<u64, (u64, bool)> {
        flag_table_contents(self.allocations)
    }

    /// Message id to the address of its data.
    pub open spec fn msg_addrs(&self) -> Map<u64, u64> {
        u64_table_contents(self.msg_id_to_addr)
    }

    /// Address of a message's data to the message id.
    pub open spec fn msg_ids(&self) -> Map<u64, u64> {
        u64_table_contents(self.addr_to_msg_id)
    }

    /// A process with nothing allocated, no threads and no messages.
    pub fn new(id: u64, path: String, image_base: u64) -> (r: Process)
        ensures
            r.id == id,
            r.path@ == path@,
            r.image_base == image_base,
            r.allocs().dom().is_empty(),
            r.msg_addrs().dom().is_empty(),
            r.msg_ids().dom().is_empty(),
            r.thread_ids@.len() == 0,
            r.messages@.len() == 0,
    {
        Process {
            id,
            path,
            image_base,
            allocations: FlagTable::new(),
            msg_id_to_addr: U64Table::new(),
            addr_to_msg_id: U64Table::new(),
            thread_ids: Vec::new(),
            messages: VecDeque::new(),
        }
    }

    /// Tracks `size` bytes at user address `addr`, whose pages are in use,
    /// as an allocation of this process; when `writable` is given, the
    /// pages are to be mapped into the process, writable or read-only.
    pub fn track_alloc(&mut self, pmm: &BitmapAllocator, addr: u64, size: u64, writable: Option<bool>) -> (r: Option<PagingRequest>)
        requires
            !old(self).allocs().contains_key(addr),
            backed(*pmm, addr, size),
        ensures
            final(self).allocs() == old(self).allocs().insert(addr, (size, writable is Some)),
            final(self).msg_addrs() == old(self).msg_addrs(),
            final(self).msg_ids() == old(self).msg_ids(),
            same_identity(*old(self), *final(self)),
            r == map_request(addr, size, writable),
    {
        let page_count = (size + 0xFFF) / 0x1000;
        self.allocations.insert(addr, (size, writable.is_some()));
        match writable {
            None => None,
            Some(w) => Some(
                PagingRequest::MapPages {
                    virt: addr,
                    phys: addr - USER_PHYS_VIRT_OFFSET,
                    count: page_count,
                    writable: w,
                },
            ),
        }
    }

    /// Tracks kernel memory at direct-map address `addr` as a read-only
    /// allocation of this process, and returns its user address.
    pub fn track_kernelside_alloc(&mut self, pmm: &BitmapAllocator, addr: u64, size: u64) -> (r: (u64, Option<PagingRequest>))
        requires
            addr >= PHYS_VIRT_OFFSET,
            !old(self).allocs().contains_key((addr - PHYS_VIRT_OFFSET + USER_PHYS_VIRT_OFFSET) as u64),
            backed(*pmm, (addr - PHYS_VIRT_OFFSET + USER_PHYS_VIRT_OFFSET) as u64, size),
        ensures
            r.0 == addr - PHYS_VIRT_OFFSET + USER_PHYS_VIRT_OFFSET,
            final(self).allocs() == old(self).allocs().insert(r.0, (size, true)),
            final(self).msg_addrs() == old(self).msg_addrs(),
            final(self).msg_ids() == old(self).msg_ids(),
            same_identity(*old(self), *final(self)),
            r.1 == map_request(r.0, size, Some(false)),
    {
        let user = addr - PHYS_VIRT_OFFSET + USER_PHYS_VIRT_OFFSET;
        let req = self.track_alloc(pmm, user, size, Some(false));
        (user, req)
    }

    /// Forgets the allocation at `addr` and returns its pages to `pmm`;
    /// a mapped allocation is to be unmapped.
    pub fn free_alloc(&mut self, pmm: &mut BitmapAllocator, addr: u64) -> (r: Option<PagingRequest>)
        requires
            old(self).allocs().contains_key(addr),
            releasable(*old(pmm), addr, old(self).allocs()[addr].0),
        ensures
            final(self).allocs() == old(self).allocs().remove(addr),
            final(self).msg_addrs() == old(self).msg_addrs(),
            final(self).msg_ids() == old(self).msg_ids(),
            same_identity(*old(self), *final(self)),
            released(*old(pmm), *final(pmm), addr, old(self).allocs()[addr].0),
            r == unmap_request(addr, old(self).allocs()[addr]),
    {
        let (size, mapped) = self.allocations.remove(addr).unwrap();
        let page_count = (size + 0xFFF) / 0x1000;
        pmm.free(addr - USER_PHYS_VIRT_OFFSET, page_count);
        if mapped {
            Some(PagingRequest::UnmapPages { virt: addr, count: page_count })
        } else {
            None
        }
    }

    /// Frees every allocation of the process, as dropping it does: the
    /// allocations are released in the table's order, and the unmappings
    /// of the mapped ones are returned in that order. The resulting page
    /// flags do not depend on the order.
    pub fn free_all(&mut self, pmm: &mut BitmapAllocator) -> (r: Vec<PagingRequest>)
        requires
            old(pmm).wf(),
            forall|a: u64|
                #[trigger] old(self).allocs().contains_key(a) ==> releasable(
                    *old(pmm),
                    a,
                    old(self).allocs()[a].0,
                ),
        ensures
            final(self).allocs().dom().is_empty(),
            final(self).msg_addrs() == old(self).msg_addrs(),
            final(self).msg_ids() == old(self).msg_ids(),
            same_identity(*old(self), *final(self)),
            final(pmm).wf(),
            final(pmm).next_index() == old(pmm).next_index(),
            final(pmm).total() == old(pmm).total(),
            final(pmm).highest() == old(pmm).highest(),
            final(pmm).pages().len() == old(pmm).pages().len(),
            exists|ks: Seq<u64>|
                #[trigger] released_along(*old(pmm), *final(pmm), old(self).allocs(), ks) && r@
                    == unmaps_of(old(self).allocs(), ks),
    {
        let ghost allocs0 = self.allocs();
        let ghost pages0 = pmm.pages();
        let keys = self.allocations.keys();
        let mut out: Vec<PagingRequest> = Vec::new();
        let mut i: usize = 0;
        while i < keys.len()
            invariant
                i <= keys@.len(),
                keys@.no_duplicates(),
                keys@.to_set() == allocs0.dom(),
                forall|a: u64| #[trigger] allocs0.contains_key(a) ==> releasable(*old(pmm), a, allocs0[a].0),
                self.allocs() == allocs0.remove_keys(keys@.take(i as int).to_set()),
                self.msg_addrs() == old(self).msg_addrs(),
                self.msg_ids() == old(self).msg_ids(),
                same_identity(*old(self), *self),
                pmm.wf(),
                pmm.next_index() == old(pmm).next_index(),
                pmm.total() == old(pmm).total(),
                pmm.highest() == old(pmm).highest(),
                pmm.pages().len() == pages0.len(),
                pages0 == old(pmm).pages(),
                pmm.free_count() == add_freed_pages(old(pmm).free_count(), allocs0, keys@.take(i as int)),
                out@ == unmaps_of(allocs0, keys@.take(i as int)),
                forall|k: int|
                    0 <= k < pages0.len() ==> #[trigger] pmm.pages()[k] == (pages0[k] && !in_freed_range(
                        allocs0,
                        keys@.take(i as int),
                        k,
                    )),
            decreases keys@.len() - i,
        {
            let a = keys[i];
            let ghost prefix = keys@.take(i as int);
            let ghost next = keys@.take(i + 1);
            proof {
                assert(keys@.to_set().contains(a));
                assert(!prefix.contains(a)) by {
                    if prefix.contains(a) {
                        let q = choose|q: int| 0 <= q < prefix.len() && prefix[q] == a;
                        assert(keys@[q] == keys@[i as int]);
                    }
                }
                assert(self.allocs().contains_key(a));
                assert(self.allocs()[a] == allocs0[a]);
            }
            let ghost before = pmm.pages();
            let req = self.free_alloc(pmm, a);
            match req {
                Some(u) => {
                    out.push(u);
                },
                None => {},
            }
            proof {
                assert(next.drop_last() =~= prefix);
                assert(next.last() == a);
                assert(next.to_set() =~= prefix.to_set().insert(a));
                assert(self.allocs() =~= allocs0.remove_keys(next.to_set()));
                assert(out@ =~= unmaps_of(allocs0, next));
                assert forall|k: int| 0 <= k < pages0.len() implies #[trigger] pmm.pages()[k] == (
                pages0[k] && !in_freed_range(allocs0, next, k)) by {
                    if in_freed_range(allocs0, prefix, k) {
                        let j = choose|j: int|
                            0 <= j < prefix.len() && first_frame(#[trigger] prefix[j]) <= k
                                < first_frame(prefix[j]) + page_count(allocs0[prefix[j]].0);
                        assert(next[j] == prefix[j]);
                    }
                    if in_freed_range(allocs0, next, k) {
                        let j = choose|j: int|
                            0 <= j < next.len() && first_frame(#[trigger] next[j]) <= k
                                < first_frame(next[j]) + page_count(allocs0[next[j]].0);
                        if j < prefix.len() {
                            assert(prefix[j] == next[j]);
                        }
                    }
                    assert(before[k] == (pages0[k] && !in_freed_range(allocs0, prefix, k)));
                }
            }
            i = i + 1;
        }
        proof {
            assert(keys@.take(keys@.len() as int) =~= keys@);
            assert(self.allocs().dom() =~= Set::<u64>::empty());
            assert(pmm.free_count() == add_freed_pages(old(pmm).free_count(), old(self).allocs(), keys@));
            assert(released_along(*old(pmm), *pmm, old(self).allocs(), keys@));
        }
        out
    }

    /// Forgets thread `tid`: it leaves the thread list, whose order is
    /// otherwise kept.
    pub fn forget_thread(&mut self, tid: u64)
        ensures
            final(self).thread_ids@ == old(self).thread_ids@.filter(|t: u64| t != tid),
            same_but_threads(*old(self), *final(self)),
    {
        let ghost ids = self.thread_ids@;
        let ghost keep = |t: u64| t != tid;
        let mut kept: Vec<u64> = Vec::new();
        let mut i: usize = 0;
        while i < self.thread_ids.len()
            invariant
                self == old(self),
                ids == self.thread_ids@,
                keep == (|t: u64| t != tid),
                i <= ids.len(),
                kept@ == ids.take(i as int).filter(keep),
            decreases ids.len() - i,
        {
            let t = self.thread_ids[i];
            proof {
                reveal(Seq::filter);
                assert(ids.take(i + 1).drop_last() =~= ids.take(i as int));
                assert(ids.take(i + 1).last() == t);
            }
            if t != tid {
                kept.push(t);
            }
            i = i + 1;
        }
        proof {
            assert(ids.take(ids.len() as int) =~= ids);
        }
        self.thread_ids = kept;
    }

    /// Marks the allocation at `addr` as the data of message `id`.
    pub fn track_msg(&mut self, id: u64, addr: u64)
        requires
            old(self).allocs().contains_key(addr),
        ensures
            final(self).allocs() == old(self).allocs(),
            final(self).msg_addrs() == old(self).msg_addrs().insert(id, addr),
            final(self).msg_ids() == old(self).msg_ids().insert(addr, id),
            same_identity(*old(self), *final(self)),
    {
        self.msg_id_to_addr.insert(id, addr);
        self.addr_to_msg_id.insert(addr, id);
    }

    /// Forgets message `id` and frees its data.
    pub fn free_msg(&mut self, pmm: &mut BitmapAllocator, id: u64) -> (r: Option<PagingRequest>)
        requires
            old(self).msg_addrs().contains_key(id),
            old(self).msg_ids().contains_key(old(self).msg_addrs()[id]),
            old(self).allocs().contains_key(old(self).msg_addrs()[id]),
            releasable(*old(pmm), old(self).msg_addrs()[id], old(self).allocs()[old(self).msg_addrs()[id]].0),
        ensures
            ({
                let addr = old(self).msg_addrs()[id];
                &&& final(self).msg_addrs() == old(self).msg_addrs().remove(id)
                &&& final(self).msg_ids() == old(self).msg_ids().remove(addr)
                &&& same_identity(*old(self), *final(self))
                &&& final(self).allocs() == old(self).allocs().remove(addr)
                &&& released(*old(pmm), *final(pmm), addr, old(self).allocs()[addr].0)
                &&& r == unmap_request(addr, old(self).allocs()[addr])
            }),
    {
        let addr = self.msg_id_to_addr.remove(id).unwrap();
        self.addr_to_msg_id.remove(addr);
        self.free_alloc(pmm, addr)
    }

    /// Whether the allocation at `addr` carries a message.
    pub fn is_msg(&self, addr: u64) -> (r: bool)
        requires
            self.allocs().contains_key(addr),
        ensures
            r == self.msg_ids().contains_key(addr),
    {
        self.addr_to_msg_id.contains_key(addr)
    }

    /// Allocates pages for `size` bytes from `pmm`, tracks them as a
    /// writable allocation of this process, and returns the user address,
    /// the page count and the mapping to make.
    pub fn allocate(&mut self, pmm: &mut BitmapAllocator, size: u64) -> (r: (u64, u64, Option<PagingRequest>))
        requires
            old(pmm).wf(),
            size + 0xFFF <= u64::MAX,
            alloc_outcome(*old(pmm), ((size + 0xFFF) / 0x1000) as u64) is Some,
            !old(self).allocs().contains_key(
                (alloc_outcome(*old(pmm), ((size + 0xFFF) / 0x1000) as u64).unwrap() + USER_PHYS_VIRT_OFFSET) as u64,
            ),
        ensures
            ({
                let count = ((size + 0xFFF) / 0x1000) as u64;
                let a = alloc_outcome(*old(pmm), count).unwrap();
                &&& r.0 == a + USER_PHYS_VIRT_OFFSET
                &&& r.1 == count
                &&& r.2 == Some(PagingRequest::MapPages { virt: r.0, phys: a, count, writable: true })
                &&& final(pmm).wf()
                &&& final(pmm).pages() == alloc_pages_after(*old(pmm), count)
                &&& final(pmm).next_index() == alloc_next_after(*old(pmm), count)
                &&& final(pmm).free_count() == alloc_free_after(*old(pmm), count)
                &&& final(pmm).total() == old(pmm).total()
                &&& final(pmm).highest() == old(pmm).highest()
                &&& final(self).allocs() == old(self).allocs().insert(r.0, (size, true))
                &&& final(self).msg_addrs() == old(self).msg_addrs()
                &&& final(self).msg_ids() == old(self).msg_ids()
                &&& same_identity(*old(self), *final(self))
            }),
    {
        let count = (size + 0xFFF) / 0x1000;
        proof {
            lemma_alloc_pages_fresh(*old(pmm), count);
        }
        let addr = pmm.alloc_pages(count).unwrap();
        let virt = addr + USER_PHYS_VIRT_OFFSET;
        proof {
            assert(first_frame(virt) == addr / 4096);
            assert(page_count(size) == count);
            assert(forall|k: int| first_frame(virt) <= k < first_frame(virt) + page_count(size) ==> #[trigger] pmm.pages()[k]);
        }
        let req = self.track_alloc(pmm, virt, size, Some(true));
        (virt, count, req)
    }
}

} // verus!
