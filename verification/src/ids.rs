//! A generator of ids for processes, threads and messages: it hands out an
//! id no one holds, and takes ids back for reuse once they are freed.
//! Ids start at 1; 0 stays free for the kernel.

use vstd::prelude::*;

verus! {

/// The ids handed out and not yet freed, the ids freed for reuse, and the
/// next id never handed out.
pub struct IdGen {
    next: u64,
    free: Vec<u64>,
    live: Ghost<Set<u64>>,
}

impl IdGen {
    /// The ids handed out and not freed since.
    pub closed spec fn live(&self) -> Set<u64> {
        self.live@
    }

    /// The generator's invariant: every id below the next fresh one and at
    /// least 1, the freed ids once each and none of them held.
    pub closed spec fn wf(&self) -> bool {
        &&& self.next >= 1
        &&& self.free@.no_duplicates()
        &&& forall|k: int|
            0 <= k < self.free@.len() ==> 1 <= #[trigger] self.free@[k] < self.next && !self.live@.contains(
                self.free@[k],
            )
        &&& forall|i: u64| #[trigger] self.live@.contains(i) ==> 1 <= i < self.next
    }

    /// The id `next` hands out: the id freed last, or else a fresh one.
    pub closed spec fn spec_next(&self) -> u64 {
        if self.free@.len() > 0 {
            self.free@.last()
        } else {
            self.next
        }
    }

    /// Whether no id is left to hand out.
    pub closed spec fn exhausted(&self) -> bool {
        self.free@.len() == 0 && self.next == u64::MAX
    }

    /// The id `next` hands out is not held by anyone.
    pub proof fn lemma_next_fresh(&self)
        requires
            self.wf(),
        ensures
            !self.live().contains(self.spec_next()),
            self.spec_next() != 0,
    {
        if self.free@.len() > 0 {
            assert(self.free@.last() == self.free@[self.free@.len() - 1]);
        }
    }

    /// A generator that has handed out nothing; its first id is 1.
    pub fn new() -> (g: IdGen)
        ensures
            g.wf(),
            g.live() == Set::<u64>::empty(),
            !g.exhausted(),
            g.spec_next() == 1,
    {
        IdGen { next: 1, free: Vec::new(), live: Ghost(Set::empty()) }
    }

    /// Whether no id is left to hand out.
    pub fn is_exhausted(&self) -> (r: bool)
        ensures
            r == self.exhausted(),
    {
        self.free.len() == 0 && self.next == u64::MAX
    }

    /// Hands out an id no one holds.
    pub fn next(&mut self) -> (id: u64)
        requires
            old(self).wf(),
            !old(self).exhausted(),
        ensures
            final(self).wf(),
            id == old(self).spec_next(),
            id != 0,
            !old(self).live().contains(id),
            final(self).live() == old(self).live().insert(id),
    {
        match self.free.pop() {
            Some(id) => {
                proof {
                    let f = old(self).free@;
                    assert(f.last() == id);
                    assert(self.free@ =~= f.drop_last());
                    assert forall|k: int| 0 <= k < self.free@.len() implies self.free@[k] != id by {
                        assert(f[k] != f[f.len() - 1]);
                    }
                    self.live@ = self.live@.insert(id);
                }
                id
            },
            None => {
                let id = self.next;
                self.next = id + 1;
                proof {
                    self.live@ = self.live@.insert(id);
                }
                id
            },
        }
    }

    /// Takes back id `id` for reuse.
    pub fn free(&mut self, id: u64)
        requires
            old(self).wf(),
            old(self).live().contains(id),
        ensures
            final(self).wf(),
            final(self).live() == old(self).live().remove(id),
            final(self).spec_next() == id,
            !final(self).exhausted(),
    {
        self.free.push(id);
        proof {
            self.live@ = self.live@.remove(id);
            let f = old(self).free@;
            assert forall|a: int, b: int| 0 <= a < b < self.free@.len() implies self.free@[a] != self.free@[b] by {
                if b == f.len() {
                    assert(!old(self).live@.contains(f[a]));
                }
            }
        }
    }
}

} // verus!
