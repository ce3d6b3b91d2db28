//! The physical memory manager: a bitmap of page frames, one bit per page,
//! set when the page is in use.

use vstd::prelude::*;
use crate::bitmap::{bit_reset, bit_set, bit_test, bitmap_bit, bits, lemma_word_ones};
use crate::memmap::{data_of, in_phys_space, top_of, MemoryData, MemoryEntry, MAX_PHYS_ADDR};

verus! {

/// Offset of the kernel's direct map of physical memory.
pub const PHYS_VIRT_OFFSET: u64 = 0xFFFF_8000_0000_0000;

/// Pages below this index (the first 2 MiB) stay reserved for the firmware.
pub const RESERVED_LOW_PAGES: u64 = 512;

/// Whether an entry bounds the highest address the bitmap must cover.
pub open spec fn bounds_highest(e: MemoryEntry) -> bool {
    e is Usable || e is BootLoaderReclaimable
}

/// The highest top among usable and boot-loader-reclaimable entries, 0 for none.
pub open spec fn highest_of(mmap: Seq<MemoryEntry>) -> int
    decreases mmap.len(),
{
    if mmap.len() == 0 {
        0
    } else {
        let h = highest_of(mmap.drop_last());
        let e = mmap.last();
        if bounds_highest(e) && top_of(data_of(e)) > h {
            top_of(data_of(e))
        } else {
            h
        }
    }
}

/// Whether page `p` lies in the whole pages of some usable entry.
pub open spec fn usable_covers(mmap: Seq<MemoryEntry>, p: int) -> bool
    decreases mmap.len(),
{
    if mmap.len() == 0 {
        false
    } else {
        usable_covers(mmap.drop_last(), p) || (mmap.last() is Usable && entry_covers(
            data_of(mmap.last()),
            p,
        ))
    }
}

/// Whether page `p` is one of the whole pages of the range.
pub open spec fn entry_covers(d: MemoryData, p: int) -> bool {
    d.base / 4096 <= p < d.base / 4096 + d.length / 4096
}

/// The free-page count the allocator starts with: the whole pages of the
/// usable entries that begin above the reserved low pages.
pub open spec fn counted_free_pages(mmap: Seq<MemoryEntry>) -> int
    decreases mmap.len(),
{
    if mmap.len() == 0 {
        0
    } else {
        let d = data_of(mmap.last());
        counted_free_pages(mmap.drop_last()) + if mmap.last() is Usable && d.base / 4096 > 512 {
            d.length / 4096
        } else {
            0
        }
    }
}

/// The number of 64-bit words of the bitmap built for a map.
pub open spec fn bitmap_words(mmap: Seq<MemoryEntry>) -> int {
    (highest_of(mmap) / 4096) / 8
}

/// Whether some usable entry is long enough to hold the bitmap.
pub open spec fn has_bitmap_hole(mmap: Seq<MemoryEntry>) -> bool {
    exists|k: int|
        0 <= k < mmap.len() && (#[trigger] mmap[k]) is Usable && data_of(mmap[k]).length
            >= bitmap_words(mmap)
}

/// No page in `[s, e)` is in use.
pub open spec fn range_free(used: Seq<bool>, s: int, e: int) -> bool {
    forall|k: int| s <= k < e ==> !#[trigger] used[k]
}

/// A run of `count` free pages ends at `e`, starts at or after `from`, and ends by `limit`.
pub open spec fn fits_at(used: Seq<bool>, from: int, limit: int, count: int, e: int) -> bool {
    count > 0 && from + count <= e <= limit && range_free(used, e - count, e)
}

/// The end of the first run of `count` free pages found scanning from `from` up to `limit`.
pub open spec fn first_fit(used: Seq<bool>, from: int, limit: int, count: int) -> Option<int> {
    if exists|e: int| #[trigger]
        fits_at(used, from, limit, count, e) && forall|e2: int|
            e2 < e ==> !#[trigger] fits_at(used, from, limit, count, e2) {
        Some(
            choose|e: int| #[trigger]
                fits_at(used, from, limit, count, e) && forall|e2: int|
                    e2 < e ==> !#[trigger] fits_at(used, from, limit, count, e2),
        )
    } else {
        None
    }
}

/// `used` with every page in `[s, e)` set to `val`.
pub open spec fn mark_range(used: Seq<bool>, s: int, e: int, val: bool) -> Seq<bool> {
    Seq::new(used.len(), |k: int| if s <= k < e { val } else { used[k] })
}

/// The pages after one scan.
pub open spec fn scan_used(used: Seq<bool>, from: int, limit: int, count: int) -> Seq<bool> {
    match first_fit(used, from, limit, count) {
        Some(e) => mark_range(used, e - count, e, true),
        None => used,
    }
}

/// The scan position after one scan.
pub open spec fn scan_last(used: Seq<bool>, from: int, limit: int, count: int) -> int {
    match first_fit(used, from, limit, count) {
        Some(e) => e,
        None => if from < limit {
            limit
        } else {
            from
        },
    }
}

/// The address one scan hands out.
pub open spec fn scan_addr(used: Seq<bool>, from: int, limit: int, count: int) -> Option<u64> {
    match first_fit(used, from, limit, count) {
        Some(e) => Some(((e - count) * 4096) as u64),
        None => None,
    }
}

/// `x - y` modulo 2^64.
pub open spec fn wrap_sub(x: u64, y: u64) -> u64 {
    if x >= y {
        (x - y) as u64
    } else {
        (x - y + 0x1_0000_0000_0000_0000) as u64
    }
}

/// `x + y` modulo 2^64.
pub open spec fn wrap_add(x: u64, y: u64) -> u64 {
    if x + y <= u64::MAX {
        (x + y) as u64
    } else {
        (x + y - 0x1_0000_0000_0000_0000) as u64
    }
}

proof fn lemma_highest_bounds(mmap: Seq<MemoryEntry>, k: int)
    requires
        0 <= k < mmap.len(),
        bounds_highest(mmap[k]),
    ensures
        top_of(data_of(mmap[k])) <= highest_of(mmap),
    decreases mmap.len(),
{
    if k < mmap.len() - 1 {
        lemma_highest_bounds(mmap.drop_last(), k);
    }
}

proof fn lemma_highest_phys(mmap: Seq<MemoryEntry>)
    requires
        in_phys_space(mmap),
    ensures
        0 <= highest_of(mmap) <= MAX_PHYS_ADDR,
    decreases mmap.len(),
{
    if mmap.len() > 0 {
        let s = mmap.drop_last();
        assert forall|k: int|
            0 <= k < s.len() && (s[k] is Usable || s[k] is BootLoaderReclaimable) implies top_of(
            data_of(#[trigger] s[k]),
        ) <= MAX_PHYS_ADDR by {
            assert(s[k] == mmap[k]);
        }
        lemma_highest_phys(s);
        assert(bounds_highest(mmap[mmap.len() - 1]) ==> top_of(data_of(mmap[mmap.len() - 1])) <= MAX_PHYS_ADDR);
    }
}

proof fn lemma_first_fit_some(used: Seq<bool>, from: int, limit: int, count: int, e: int)
    requires
        fits_at(used, from, limit, count, e),
        forall|e2: int| e2 < e ==> !#[trigger] fits_at(used, from, limit, count, e2),
    ensures
        first_fit(used, from, limit, count) == Some(e),
{
    let c = choose|e1: int| #[trigger]
        fits_at(used, from, limit, count, e1) && forall|e2: int|
            e2 < e1 ==> !#[trigger] fits_at(used, from, limit, count, e2);
    if c < e {
        assert(!fits_at(used, from, limit, count, c));
    }
    if e < c {
        assert(!fits_at(used, from, limit, count, e));
    }
}

proof fn lemma_first_fit_none(used: Seq<bool>, from: int, limit: int, count: int)
    requires
        forall|e2: int| #![trigger fits_at(used, from, limit, count, e2)] !fits_at(used, from, limit, count, e2),
    ensures
        first_fit(used, from, limit, count) is None,
{
}

/// The address `alloc_pages(count)` returns.
pub open spec fn alloc_outcome(a: BitmapAllocator, count: u64) -> Option<u64> {
    let used0 = a.pages();
    let l = a.next_index() as int;
    let lim = a.total() as int;
    let r1 = scan_addr(used0, l, lim, count as int);
    if r1 is Some {
        r1
    } else {
        scan_addr(scan_used(used0, l, lim, count as int), 0, l, count as int)
    }
}

/// The page flags after `alloc_pages(count)`: both scans mark what they find.
pub open spec fn alloc_pages_after(a: BitmapAllocator, count: u64) -> Seq<bool> {
    let l = a.next_index() as int;
    let used1 = scan_used(a.pages(), l, a.total() as int, count as int);
    scan_used(used1, 0, l, count as int)
}

/// The search position after `alloc_pages(count)`.
pub open spec fn alloc_next_after(a: BitmapAllocator, count: u64) -> int {
    let l = a.next_index() as int;
    let used1 = scan_used(a.pages(), l, a.total() as int, count as int);
    scan_last(used1, 0, l, count as int)
}

/// The free-page count after `alloc_pages(count)`: `count` less for each scan that found pages.
pub open spec fn alloc_free_after(a: BitmapAllocator, count: u64) -> u64 {
    let l = a.next_index() as int;
    let lim = a.total() as int;
    let c = count as int;
    let free1 = if scan_addr(a.pages(), l, lim, c) is Some {
        wrap_sub(a.free_count(), count)
    } else {
        a.free_count()
    };
    if scan_addr(scan_used(a.pages(), l, lim, c), 0, l, c) is Some {
        wrap_sub(free1, count)
    } else {
        free1
    }
}

/// A bitmap allocator of physical page frames.
#[derive(Clone)]
pub struct BitmapAllocator {
    bitmap: Vec<u64>,
    highest_addr: u64,
    pub free_pages: u64,
    pub total_pages: u64,
    last_index: u64,
}

impl BitmapAllocator {
    /// One flag per page frame the bitmap can describe: set when the page is in use.
    pub closed spec fn pages(&self) -> Seq<bool> {
        bits(self.bitmap@)
    }

    /// The page index the next search starts from.
    pub closed spec fn next_index(&self) -> u64 {
        self.last_index
    }

    /// The count of free pages the allocator keeps.
    pub closed spec fn free_count(&self) -> u64 {
        self.free_pages
    }

    /// The number of pages below the highest address.
    pub closed spec fn total(&self) -> u64 {
        self.total_pages
    }

    /// The highest physical address the allocator manages.
    pub closed spec fn highest(&self) -> u64 {
        self.highest_addr
    }

    /// The allocator's invariant.
    pub closed spec fn wf(&self) -> bool {
        &&& self.total_pages == self.highest_addr / 4096
        &&& self.total_pages <= self.bitmap@.len() * 64
        &&& self.last_index <= self.total_pages
        &&& self.bitmap@.len() * 64 <= u64::MAX
        &&& self.highest_addr <= MAX_PHYS_ADDR
    }

    /// Builds the allocator from the boot memory map: every page is in use
    /// except the whole pages of usable entries, and the first 512 pages
    /// stay reserved.
    pub fn new(mmap: &[MemoryEntry]) -> (r: Self)
        requires
            in_phys_space(mmap@),
            highest_of(mmap@) / 4096 >= 64,
            has_bitmap_hole(mmap@),
            counted_free_pages(mmap@) <= u64::MAX,
        ensures
            r.wf(),
            r.highest() == highest_of(mmap@),
            r.total() == highest_of(mmap@) / 4096,
            r.free_count() == counted_free_pages(mmap@),
            r.next_index() == 0,
            r.pages().len() == 64 * bitmap_words(mmap@),
            forall|p: int|
                0 <= p < r.pages().len() ==> #[trigger] r.pages()[p] == (p < 512 || !usable_covers(
                    mmap@,
                    p,
                )),
    {
        let n = mmap.len();
        proof {
            lemma_highest_phys(mmap@);
        }
        let mut highest_addr: u64 = 0;
        let mut i: usize = 0;
        while i < n
            invariant
                n == mmap@.len(),
                i <= n,
                in_phys_space(mmap@),
                highest_addr == highest_of(mmap@.take(i as int)),
            decreases n - i,
        {
            proof {
                assert(mmap@.take(i + 1).drop_last() =~= mmap@.take(i as int));
                assert(mmap@.take(i + 1).last() == mmap@[i as int]);
                assert(bounds_highest(mmap@[i as int]) ==> top_of(data_of(mmap@[i as int])) <= MAX_PHYS_ADDR);
            }
            match mmap[i] {
                MemoryEntry::Usable(v) | MemoryEntry::BootLoaderReclaimable(v) => {
                    let top = v.base + v.length;
                    if top > highest_addr {
                        highest_addr = top;
                    }
                },
                _ => {},
            }
            i = i + 1;
        }
        proof {
            assert(mmap@.take(n as int) =~= mmap@);
        }

        let bitmap_sz = (highest_addr / 0x1000) / 8;
        let ghost words = bitmap_sz as int;

        // Find a memory hole for the bitmap.
        let mut bitmap: Vec<u64> = Vec::new();
        let mut hole_base: u64 = 0;
        let mut found = false;
        let mut i: usize = 0;
        while i < n && !found
            invariant
                n == mmap@.len(),
                i <= n,
                !found ==> bitmap@.len() == 0,
                found ==> bitmap@.len() == words,
                found ==> forall|w: int| 0 <= w < words ==> bitmap@[w] == !0u64,
                !found ==> forall|k: int|
                    0 <= k < i ==> !((#[trigger] mmap@[k]) is Usable && data_of(mmap@[k]).length
                        >= bitmap_sz),
                found ==> hole_base < MAX_PHYS_ADDR,
                bitmap_sz >= 8,
                in_phys_space(mmap@),
                words == bitmap_sz,
                bitmap_sz <= MAX_PHYS_ADDR,
            decreases n - i,
        {
            if let MemoryEntry::Usable(v) = mmap[i] {
                if v.length >= bitmap_sz {
                    assert(top_of(data_of(mmap@[i as int])) <= MAX_PHYS_ADDR);
                    assert(data_of(mmap@[i as int]) == v);
                    hole_base = v.base;
                    let mut w: u64 = 0;
                    while w < bitmap_sz
                        invariant
                            w <= bitmap_sz,
                            bitmap@.len() == w,
                            forall|x: int| 0 <= x < w ==> bitmap@[x] == !0u64,
                        decreases bitmap_sz - w,
                    {
                        bitmap.push(!0u64);
                        w = w + 1;
                    }
                    found = true;
                }
            }
            i = i + 1;
        }
        proof {
            if !found {
                let k = choose|k: int|
                    0 <= k < mmap@.len() && (#[trigger] mmap@[k]) is Usable && data_of(
                        mmap@[k],
                    ).length >= bitmap_words(mmap@);
                assert(!(mmap@[k] is Usable && data_of(mmap@[k]).length >= bitmap_sz));
            }
        }
        assert(found);
        let bitmap_ptr = hole_base + PHYS_VIRT_OFFSET;
        let ghost total_bits = 64 * words;
        assert(bitmap@.len() == words);
        assert(bits(bitmap@).len() == total_bits);
        proof {
            assert forall|p: int| 0 <= p < total_bits implies #[trigger] bits(bitmap@)[p] by {
                lemma_word_ones((p % 64) as u64);
            }
            assert(64 * words >= highest_of(mmap@) / 4096);
            assert(total_bits >= 512);
        }

        // Populate the bitmap.
        let mut free_pages: u64 = 0;
        let mut i: usize = 0;
        while i < n
            invariant
                n == mmap@.len(),
                i <= n,
                in_phys_space(mmap@),
                bitmap@.len() == words,
                total_bits == 64 * words,
                total_bits >= highest_of(mmap@) / 4096,
                highest_of(mmap@) <= MAX_PHYS_ADDR,
                bitmap_ptr >= PHYS_VIRT_OFFSET,
                counted_free_pages(mmap@) <= u64::MAX,
                free_pages == counted_free_pages(mmap@.take(i as int)),
                forall|p: int|
                    0 <= p < total_bits ==> #[trigger] bits(bitmap@)[p] == !usable_covers(
                        mmap@.take(i as int),
                        p,
                    ),
            decreases n - i,
        {
            proof {
                assert(mmap@.take(i + 1).drop_last() =~= mmap@.take(i as int));
                assert(mmap@.take(i + 1).last() == mmap@[i as int]);
                lemma_counted_prefix_bound(mmap@, i as int + 1);
            }
            if let MemoryEntry::Usable(v) = mmap[i] {
                assert(top_of(data_of(mmap@[i as int])) <= MAX_PHYS_ADDR);
                let v = if v.base == bitmap_ptr {
                    MemoryData { base: v.base + bitmap_sz, length: v.length - bitmap_sz }
                } else {
                    v
                };
                if (v.base / 0x1000) > 512 {
                    free_pages = free_pages + v.length / 0x1000;
                }
                proof {
                    lemma_highest_bounds(mmap@, i as int);
                }
                let count = v.length / 0x1000;
                let mut j: u64 = 0;
                while j < count
                    invariant
                        j <= count,
                        count == v.length / 4096,
                        v.base + v.length <= highest_of(mmap@),
                        highest_of(mmap@) <= MAX_PHYS_ADDR,
                        bitmap@.len() == words,
                        total_bits == 64 * words,
                        total_bits >= highest_of(mmap@) / 4096,
                        forall|p: int|
                            0 <= p < total_bits ==> #[trigger] bits(bitmap@)[p] == !(usable_covers(
                                mmap@.take(i as int),
                                p,
                            ) || (v.base / 4096 <= p < v.base / 4096 + j)),
                    decreases count - j,
                {
                    assert(j * 4096 < v.length) by (nonlinear_arith)
                        requires
                            j < count,
                            count == v.length / 4096,
                    ;
                    assert((v.base + j * 0x1000) / 0x1000 == v.base / 4096 + j);
                    assert(v.base / 4096 + count <= (v.base + v.length) / 4096) by (nonlinear_arith)
                        requires
                            count == v.length / 4096,
                    ;
                    let page = (v.base + j * 0x1000) / 0x1000;
                    let ghost before = bits(bitmap@);
                    bit_reset(&mut bitmap, page);
                    proof {
                        assert forall|p: int| 0 <= p < total_bits implies #[trigger] bits(
                            bitmap@,
                        )[p] == !(usable_covers(mmap@.take(i as int), p) || (v.base / 4096 <= p
                            < v.base / 4096 + j + 1)) by {
                            if p != page as int {
                                assert(bits(bitmap@)[p] == before[p]);
                            }
                        }
                    }
                    j = j + 1;
                }
            }
            proof {
                assert forall|p: int| 0 <= p < total_bits implies #[trigger] bits(bitmap@)[p]
                    == !usable_covers(mmap@.take(i as int + 1), p) by {
                    let s = mmap@.take(i as int + 1);
                    assert(usable_covers(s, p) == (usable_covers(mmap@.take(i as int), p) || (
                    s.last() is Usable && entry_covers(data_of(s.last()), p))));
                }
            }
            i = i + 1;
        }
        proof {
            assert(mmap@.take(n as int) =~= mmap@);
        }

        // Set all regions under 2 MiB as reserved cause firmware stores stuff here.
        let mut i: u64 = 0;
        while i < 512
            invariant
                i <= 512,
                bitmap@.len() == words,
                total_bits == 64 * words,
                total_bits >= 512,
                forall|p: int|
                    0 <= p < total_bits ==> #[trigger] bits(bitmap@)[p] == (p < i || !usable_covers(
                        mmap@,
                        p,
                    )),
            decreases 512 - i,
        {
            let ghost before = bits(bitmap@);
            bit_set(&mut bitmap, i);
            proof {
                assert forall|p: int| 0 <= p < total_bits implies #[trigger] bits(bitmap@)[p] == (p
                    < i + 1 || !usable_covers(mmap@, p)) by {
                    if p != i as int {
                        assert(bits(bitmap@)[p] == before[p]);
                    }
                }
            }
            i = i + 1;
        }

        let total_pages = highest_addr / 0x1000;
        BitmapAllocator { bitmap, highest_addr, total_pages, free_pages, last_index: 0 }
    }
}

impl BitmapAllocator {
    /// Searches for `count` free pages in a row, starting at the search
    /// position and ending by `limit`, marks them used and returns the
    /// address of the first one.
    fn internal_alloc(&mut self, count: u64, limit: u64) -> (r: Option<u64>)
        requires
            old(self).wf(),
            old(self).last_index <= limit <= old(self).total_pages,
        ensures
            final(self).wf(),
            final(self).highest() == old(self).highest(),
            final(self).total() == old(self).total(),
            final(self).pages() == scan_used(old(self).pages(), old(self).next_index() as int, limit as int, count as int),
            final(self).next_index() == scan_last(old(self).pages(), old(self).next_index() as int, limit as int, count as int),
            r == scan_addr(old(self).pages(), old(self).next_index() as int, limit as int, count as int),
            final(self).free_count() == if r is Some {
                wrap_sub(old(self).free_count(), count)
            } else {
                old(self).free_count()
            },
    {
        let ghost from = self.last_index as int;
        let ghost used = self.pages();
        let mut p: u64 = 0;
        while self.last_index < limit
            invariant
                self.wf(),
                self.highest() == old(self).highest(),
                self.total() == old(self).total(),
                self.free_count() == old(self).free_count(),
                self.pages() == used,
                used == old(self).pages(),
                from == old(self).next_index(),
                used.len() == self.bitmap@.len() * 64,
                from <= self.last_index <= limit,
                limit <= self.total_pages,
                p <= self.last_index - from,
                count > 0 ==> p < count,
                range_free(used, self.last_index - p, self.last_index as int),
                self.last_index - p == from || used[self.last_index - p - 1],
                forall|e: int| e <= self.last_index ==> !#[trigger] fits_at(used, from, limit as int, count as int, e),
            decreases limit - self.last_index,
        {
            let cur = self.last_index;
            assert(p <= cur - from);
            let set = bit_test(&self.bitmap, cur);
            self.last_index = cur + 1;
            if set {
                p = 0;
                proof {
                    let li = self.last_index as int;
                    assert forall|e: int| e <= li implies !#[trigger] fits_at(used, from, limit as int, count as int, e) by {
                        if e == li && fits_at(used, from, limit as int, count as int, e) {
                            assert(!used[li - 1]);
                        }
                    }
                }
            } else {
                assert(p < self.last_index) by {
                    assert(from >= 0);
                }
                p = p + 1;
                if p == count {
                    assert(count <= self.last_index);
                    let page = self.last_index - count;
                    let ghost e = self.last_index as int;
                    proof {
                        assert(fits_at(used, from, limit as int, count as int, e));
                        lemma_first_fit_some(used, from, limit as int, count as int, e);
                    }
                    let mut i = page;
                    while i < self.last_index
                        invariant
                            self.wf(),
                            self.last_index == e,
                            used == old(self).pages(),
                            from == old(self).next_index(),
                            first_fit(used, from, limit as int, count as int) == Some(e),
                            page == e - count,
                            self.highest() == old(self).highest(),
                            self.total() == old(self).total(),
                            self.free_count() == old(self).free_count(),
                            used.len() == self.bitmap@.len() * 64,
                            page <= i <= e,
                            e <= limit <= self.total_pages,
                            self.pages() == mark_range(used, page as int, i as int, true),
                        decreases e - i,
                    {
                        bit_set(&mut self.bitmap, i);
                        proof {
                            assert(self.pages() =~= mark_range(used, page as int, i + 1, true));
                        }
                        i = i + 1;
                    }
                    self.free_pages = self.free_pages.wrapping_sub(count);
                    assert(page * 0x1000 <= self.highest_addr);
                    assert(first_fit(used, from, limit as int, count as int) == Some(e));
                    assert(page as int == e - count);
                    return Some(page * 0x1000);
                }
                proof {
                    let li = self.last_index as int;
                    assert forall|e: int| e <= li implies !#[trigger] fits_at(used, from, limit as int, count as int, e) by {
                        if e == li && fits_at(used, from, limit as int, count as int, e) {
                            if li - p as int != from {
                                assert(used[li - p - 1]);
                                assert(!used[li - p - 1]);
                            }
                        }
                    }
                }
            }
        }
        proof {
            lemma_first_fit_none(used, from, limit as int, count as int);
        }
        None
    }

    /// Allocates `count` consecutive pages and returns the physical address
    /// of the first. The search runs from the last position to the top of
    /// memory; then the position is reset and a second search runs from the
    /// bottom up to the old position. Both searches run, also when the first
    /// one succeeds, and each marks the pages it finds; the address from the
    /// first search is returned when it found pages, else that of the second.
    pub fn alloc_pages(&mut self, count: u64) -> (r: Option<u64>)
        requires
            old(self).wf(),
        ensures
            final(self).wf(),
            final(self).highest() == old(self).highest(),
            final(self).total() == old(self).total(),
            final(self).pages() == alloc_pages_after(*old(self), count),
            final(self).next_index() == alloc_next_after(*old(self), count),
            final(self).free_count() == alloc_free_after(*old(self), count),
            r == alloc_outcome(*old(self), count),
            r matches Some(a) ==> a + count * 4096 <= old(self).highest(),
            old(self).highest() <= MAX_PHYS_ADDR,
    {
        let l = self.last_index;
        let limit = self.highest_addr / 0x1000;
        let first = self.internal_alloc(count, limit);
        self.last_index = 0;
        let second = self.internal_alloc(count, l);
        proof {
            lemma_scan_addr_bound(old(self).pages(), l as int, limit as int, count as int);
            lemma_scan_addr_bound(
                scan_used(old(self).pages(), l as int, limit as int, count as int),
                0,
                l as int,
                count as int,
            );
        }
        match first {
            Some(addr) => Some(addr),
            None => second,
        }
    }

    /// Marks the `count` pages starting at the page of `ptr` free.
    pub fn free(&mut self, ptr: u64, count: u64)
        requires
            old(self).wf(),
            ptr / 4096 + count <= old(self).pages().len(),
        ensures
            final(self).wf(),
            final(self).highest() == old(self).highest(),
            final(self).total() == old(self).total(),
            final(self).next_index() == old(self).next_index(),
            final(self).pages() == mark_range(old(self).pages(), ptr as int / 4096, ptr as int / 4096 + count, false),
            final(self).free_count() == wrap_add(old(self).free_count(), count),
    {
        let idx = ptr / 0x1000;
        let ghost used = self.pages();
        let mut i = idx;
        while i < idx + count
            invariant
                self.wf(),
                self.highest() == old(self).highest(),
                self.total() == old(self).total(),
                self.next_index() == old(self).next_index(),
                self.free_count() == old(self).free_count(),
                used == old(self).pages(),
                used.len() == self.bitmap@.len() * 64,
                idx == ptr / 4096,
                idx + count <= used.len(),
                idx <= i <= idx + count,
                self.pages() == mark_range(used, idx as int, i as int, false),
            decreases idx + count - i,
        {
            bit_reset(&mut self.bitmap, i);
            proof {
                assert(self.pages() =~= mark_range(used, idx as int, i + 1, false));
            }
            i = i + 1;
        }
        self.free_pages = self.free_pages.wrapping_add(count);
    }

    /// The number of page frames the bitmap describes.
    pub fn page_capacity(&self) -> (r: u64)
        requires
            self.wf(),
        ensures
            r == self.pages().len(),
    {
        (self.bitmap.len() as u64) * 64
    }

    /// Whether every one of the `count` pages starting at the page of `ptr` is in use.
    pub fn is_allocated(&self, ptr: u64, count: u64) -> (r: bool)
        requires
            self.wf(),
            ptr / 4096 + count <= self.pages().len(),
        ensures
            r == forall|k: int| ptr / 4096 <= k < ptr / 4096 + count ==> #[trigger] self.pages()[k],
    {
        let idx = ptr / 0x1000;
        let mut i = idx;
        while i < idx + count
            invariant
                idx == ptr / 4096,
                idx + count <= self.pages().len(),
                self.pages().len() == self.bitmap@.len() * 64,
                self.wf(),
                idx <= i <= idx + count,
                forall|k: int| idx <= k < i ==> #[trigger] self.pages()[k],
            decreases idx + count - i,
        {
            if !bit_test(&self.bitmap, i) {
                return false;
            }
            i = i + 1;
        }
        true
    }
}

/// The end of the run a successful scan finds satisfies the scan's conditions.
proof fn lemma_first_fit_fits(used: Seq<bool>, from: int, limit: int, count: int)
    requires
        first_fit(used, from, limit, count) is Some,
    ensures
        fits_at(used, from, limit, count, first_fit(used, from, limit, count).unwrap()),
{
}

/// The pages a scan that found `[e - count, e)` leaves marked: those of
/// the run, and every page that was in use.
proof fn lemma_scan_keeps_used(used: Seq<bool>, from: int, limit: int, count: int, k: int)
    requires
        0 <= k < used.len(),
        used[k],
    ensures
        scan_used(used, from, limit, count)[k],
        scan_used(used, from, limit, count).len() == used.len(),
{
}

/// Freeing what an allocation handed out undoes it: the page flags and the
/// free count are back where they were. This holds when the allocation
/// took only the pages it handed out; `alloc_pages` runs its second scan
/// even after the first found pages, and pages that scan takes stay taken.
pub proof fn law_free_undoes_alloc(p0: BitmapAllocator, p1: BitmapAllocator, p2: BitmapAllocator, count: u64)
    requires
        p0.wf(),
        alloc_outcome(p0, count) is Some,
        alloc_pages_after(p0, count) == mark_range(
            p0.pages(),
            alloc_outcome(p0, count).unwrap() as int / 4096,
            alloc_outcome(p0, count).unwrap() as int / 4096 + count,
            true,
        ),
        alloc_free_after(p0, count) == wrap_sub(p0.free_count(), count),
        p1.pages() == alloc_pages_after(p0, count),
        p1.free_count() == alloc_free_after(p0, count),
        p2.pages() == mark_range(
            p1.pages(),
            alloc_outcome(p0, count).unwrap() as int / 4096,
            alloc_outcome(p0, count).unwrap() as int / 4096 + count,
            false,
        ),
        p2.free_count() == wrap_add(p1.free_count(), count),
    ensures
        p2.pages() == p0.pages(),
        p2.free_count() == p0.free_count(),
{
    lemma_alloc_pages_fresh(p0, count);
    let a = alloc_outcome(p0, count).unwrap();
    assert(p2.pages() =~= p0.pages());
}

/// The pages `alloc_pages(count)` hands out lie below the highest
/// address, start on a page boundary, were all free before the call and
/// are all in use after it.
pub proof fn lemma_alloc_pages_fresh(p: BitmapAllocator, count: u64)
    requires
        p.wf(),
        alloc_outcome(p, count) is Some,
    ensures
        ({
            let a = alloc_outcome(p, count).unwrap();
            &&& a % 4096 == 0
            &&& a <= MAX_PHYS_ADDR
            &&& a / 4096 + count <= p.total()
            &&& p.total() <= p.pages().len()
            &&& alloc_pages_after(p, count).len() == p.pages().len()
            &&& forall|k: int| a / 4096 <= k < a / 4096 + count ==> !#[trigger] p.pages()[k]
            &&& forall|k: int|
                a / 4096 <= k < a / 4096 + count ==> #[trigger] alloc_pages_after(p, count)[k]
        }),
{
    let used0 = p.pages();
    let l = p.next_index() as int;
    let lim = p.total() as int;
    let c = count as int;
    assert(used0.len() == p.bitmap@.len() * 64);
    let used1 = scan_used(used0, l, lim, c);
    let e: int;
    if first_fit(used0, l, lim, c) is Some {
        lemma_first_fit_fits(used0, l, lim, c);
        e = first_fit(used0, l, lim, c).unwrap();
        assert(used1 == mark_range(used0, e - c, e, true));
    } else {
        assert(used1 == used0);
        lemma_first_fit_fits(used0, 0, l, c);
        e = first_fit(used0, 0, l, c).unwrap();
    }
    let a = alloc_outcome(p, count).unwrap();
    assert(0 <= e - c && e <= lim);
    assert(lim <= 0x8_0000_0000);
    assert((e - c) * 4096 <= 0x8_0000_0000 * 4096) by (nonlinear_arith)
        requires
            0 <= e - c <= 0x8_0000_0000,
    ;
    assert(0 <= (e - c) * 4096) by (nonlinear_arith)
        requires
            0 <= e - c,
    ;
    assert(a == (e - c) * 4096);
    assert(a % 4096 == 0 && a / 4096 == e - c) by (nonlinear_arith)
        requires
            a == (e - c) * 4096,
            0 <= e - c,
    ;
    assert forall|k: int| a / 4096 <= k < a / 4096 + count implies #[trigger] alloc_pages_after(
        p,
        count,
    )[k] by {
        if first_fit(used0, l, lim, c) is Some {
            assert(used1[k]);
            lemma_scan_keeps_used(used1, 0, l, c, k);
        } else {
            assert(alloc_pages_after(p, count) == mark_range(used0, e - c, e, true));
        }
    }
}

proof fn lemma_scan_addr_bound(used: Seq<bool>, from: int, limit: int, count: int)
    requires
        0 <= from,
        limit <= 0x1_0000_0000_0000,
    ensures
        scan_addr(used, from, limit, count) matches Some(a) ==> a + count * 4096 <= limit * 4096,
{
    if let Some(e) = first_fit(used, from, limit, count) {
        let c = choose|e: int| #[trigger]
            fits_at(used, from, limit, count, e) && forall|e2: int|
                e2 < e ==> !#[trigger] fits_at(used, from, limit, count, e2);
        assert(fits_at(used, from, limit, count, e));
        assert((e - count) * 4096 + count * 4096 == e * 4096) by (nonlinear_arith);
        assert(e * 4096 <= limit * 4096) by (nonlinear_arith)
            requires
                e <= limit,
        ;
        let x = e - count;
        assert(0 <= x <= limit);
        assert(0 <= x * 4096) by (nonlinear_arith)
            requires
                0 <= x,
        ;
        assert(x * 4096 <= limit * 4096) by (nonlinear_arith)
            requires
                x <= limit,
        ;
    }
}

proof fn lemma_counted_prefix_bound(mmap: Seq<MemoryEntry>, i: int)
    requires
        0 <= i <= mmap.len(),
    ensures
        0 <= counted_free_pages(mmap.take(i)) <= counted_free_pages(mmap),
    decreases mmap.len(),
{
    if i == mmap.len() {
        assert(mmap.take(i) =~= mmap);
        lemma_counted_nonneg(mmap);
    } else {
        assert(mmap.drop_last().take(i) =~= mmap.take(i));
        lemma_counted_prefix_bound(mmap.drop_last(), i);
    }
}

proof fn lemma_counted_nonneg(mmap: Seq<MemoryEntry>)
    ensures
        counted_free_pages(mmap) >= 0,
    decreases mmap.len(),
{
    if mmap.len() > 0 {
        lemma_counted_nonneg(mmap.drop_last());
    }
}

} // verus!
