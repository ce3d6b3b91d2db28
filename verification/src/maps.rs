//! Hash tables keyed by 64-bit integers, kept in `hashbrown::HashMap`.
//!
//! The tables are opaque to the verifier; each is described by a name for
//! what it holds, and each operation the kernel uses by a contract over
//! that name.

use vstd::prelude::*;
use crate::proc::Thread;
use crate::process::Process;

verus! {

/// A `hashbrown::HashMap<u64, u64>`.
#[verifier::external_body]
pub struct U64Table {
    inner: hashbrown::HashMap<u64, u64>,
}

/// What a `U64Table` holds.
pub uninterp spec fn u64_table_contents(t: U64Table) -> Map<u64, u64>;

/// A `hashbrown::HashMap<u64, (u64, u64)>`.
#[verifier::external_body]
pub struct PairTable {
    inner: hashbrown::HashMap<u64, (u64, u64)>,
}

/// What a `PairTable` holds.
pub uninterp spec fn pair_table_contents(t: PairTable) -> Map<u64, (u64, u64)>;

/// A `hashbrown::HashMap<u64, (u64, bool)>`.
#[verifier::external_body]
pub struct FlagTable {
    inner: hashbrown::HashMap<u64, (u64, bool)>,
}

/// What a `FlagTable` holds.
pub uninterp spec fn flag_table_contents(t: FlagTable) -> Map<u64, (u64, bool)>;

/// A `hashbrown::HashMap<u64, Thread>`.
#[verifier::external_body]
pub struct ThreadTable {
    inner: hashbrown::HashMap<u64, Thread>,
}

/// What a `ThreadTable` holds.
pub uninterp spec fn thread_table_contents(t: ThreadTable) -> Map<u64, Thread>;

/// A `hashbrown::HashMap<u64, Process>`.
#[verifier::external_body]
pub struct ProcessTable {
    inner: hashbrown::HashMap<u64, Process>,
}

/// What a `ProcessTable` holds.
pub uninterp spec fn process_table_contents(t: ProcessTable) -> Map<u64, Process>;

/// The keys of a walk of a table, in order.
pub open spec fn walk_keys(order: Seq<(u64, Thread)>) -> Seq<u64> {
    order.map_values(|e: (u64, Thread)| e.0)
}

impl U64Table {
    /// `hashbrown::HashMap::new`: an empty table.
    #[verifier::external_body]
    pub(crate) fn new() -> (table: U64Table)
        ensures
            u64_table_contents(table).dom().is_empty(),
    {
        U64Table { inner: hashbrown::HashMap::new() }
    }

    /// `hashbrown::HashMap::insert`: binds `k` to `v` and returns the value
    /// `k` was bound to before, if any.
    #[verifier::external_body]
    pub(crate) fn insert(&mut self, k: u64, v: u64) -> (r: Option<u64>)
        ensures
            u64_table_contents(*final(self)) == u64_table_contents(*old(self)).insert(k, v),
            r == (if u64_table_contents(*old(self)).contains_key(k) {
                Some(u64_table_contents(*old(self))[k])
            } else {
                None
            }),
    {
        self.inner.insert(k, v)
    }

    /// `hashbrown::HashMap::remove`: unbinds `k` and returns its value, if any.
    #[verifier::external_body]
    pub(crate) fn remove(&mut self, k: u64) -> (r: Option<u64>)
        ensures
            u64_table_contents(*final(self)) == u64_table_contents(*old(self)).remove(k),
            r == (if u64_table_contents(*old(self)).contains_key(k) {
                Some(u64_table_contents(*old(self))[k])
            } else {
                None
            }),
    {
        self.inner.remove(&k)
    }

    /// `hashbrown::HashMap::get`: the value bound to `k`, if any.
    #[verifier::external_body]
    pub(crate) fn get(&self, k: u64) -> (r: Option<u64>)
        ensures
            r == (if u64_table_contents(*self).contains_key(k) {
                Some(u64_table_contents(*self)[k])
            } else {
                None
            }),
    {
        self.inner.get(&k).copied()
    }

    /// `hashbrown::HashMap::contains_key`.
    #[verifier::external_body]
    pub(crate) fn contains_key(&self, k: u64) -> (r: bool)
        ensures
            r == u64_table_contents(*self).contains_key(k),
    {
        self.inner.contains_key(&k)
    }

    /// `hashbrown::HashMap::try_insert`: binds `k` to `v` unless `k` is
    /// bound already, in which case nothing changes; returns whether it bound.
    #[verifier::external_body]
    pub(crate) fn try_insert(&mut self, k: u64, v: u64) -> (r: bool)
        ensures
            r == !u64_table_contents(*old(self)).contains_key(k),
            r ==> u64_table_contents(*final(self)) == u64_table_contents(*old(self)).insert(k, v),
            !r ==> *final(self) == *old(self),
    {
        self.inner.try_insert(k, v).is_ok()
    }
}

impl PairTable {
    /// `hashbrown::HashMap::new`: an empty table.
    #[verifier::external_body]
    pub(crate) fn new() -> (table: PairTable)
        ensures
            pair_table_contents(table).dom().is_empty(),
    {
        PairTable { inner: hashbrown::HashMap::new() }
    }

    /// `hashbrown::HashMap::insert`: binds `k` to `v` and returns the value
    /// `k` was bound to before, if any.
    #[verifier::external_body]
    pub(crate) fn insert(&mut self, k: u64, v: (u64, u64)) -> (r: Option<(u64, u64)>)
        ensures
            pair_table_contents(*final(self)) == pair_table_contents(*old(self)).insert(k, v),
            r == (if pair_table_contents(*old(self)).contains_key(k) {
                Some(pair_table_contents(*old(self))[k])
            } else {
                None
            }),
    {
        self.inner.insert(k, v)
    }

    /// `hashbrown::HashMap::remove`: unbinds `k` and returns its value, if any.
    #[verifier::external_body]
    pub(crate) fn remove(&mut self, k: u64) -> (r: Option<(u64, u64)>)
        ensures
            pair_table_contents(*final(self)) == pair_table_contents(*old(self)).remove(k),
            r == (if pair_table_contents(*old(self)).contains_key(k) {
                Some(pair_table_contents(*old(self))[k])
            } else {
                None
            }),
    {
        self.inner.remove(&k)
    }

    /// `hashbrown::HashMap::get`: the value bound to `k`, if any.
    #[verifier::external_body]
    pub(crate) fn get(&self, k: u64) -> (r: Option<(u64, u64)>)
        ensures
            r == (if pair_table_contents(*self).contains_key(k) {
                Some(pair_table_contents(*self)[k])
            } else {
                None
            }),
    {
        self.inner.get(&k).copied()
    }

    /// The keys of `hashbrown::HashMap::iter`, collected: each key of the
    /// table once, in the table's own (unspecified) order.
    #[verifier::external_body]
    pub(crate) fn keys(&self) -> (r: Vec<u64>)
        ensures
            r@.no_duplicates(),
            r@.to_set() == pair_table_contents(*self).dom(),
    {
        self.inner.iter().map(|(k, _)| *k).collect()
    }
}

impl FlagTable {
    /// `hashbrown::HashMap::new`: an empty table.
    #[verifier::external_body]
    pub(crate) fn new() -> (table: FlagTable)
        ensures
            flag_table_contents(table).dom().is_empty(),
    {
        FlagTable { inner: hashbrown::HashMap::new() }
    }

    /// `hashbrown::HashMap::insert`: binds `k` to `v` and returns the value
    /// `k` was bound to before, if any.
    #[verifier::external_body]
    pub(crate) fn insert(&mut self, k: u64, v: (u64, bool)) -> (r: Option<(u64, bool)>)
        ensures
            flag_table_contents(*final(self)) == flag_table_contents(*old(self)).insert(k, v),
            r == (if flag_table_contents(*old(self)).contains_key(k) {
                Some(flag_table_contents(*old(self))[k])
            } else {
                None
            }),
    {
        self.inner.insert(k, v)
    }

    /// `hashbrown::HashMap::remove`: unbinds `k` and returns its value, if any.
    #[verifier::external_body]
    pub(crate) fn remove(&mut self, k: u64) -> (r: Option<(u64, bool)>)
        ensures
            flag_table_contents(*final(self)) == flag_table_contents(*old(self)).remove(k),
            r == (if flag_table_contents(*old(self)).contains_key(k) {
                Some(flag_table_contents(*old(self))[k])
            } else {
                None
            }),
    {
        self.inner.remove(&k)
    }

    /// `hashbrown::HashMap::get`: the value bound to `k`, if any.
    #[verifier::external_body]
    pub(crate) fn get(&self, k: u64) -> (r: Option<(u64, bool)>)
        ensures
            r == (if flag_table_contents(*self).contains_key(k) {
                Some(flag_table_contents(*self)[k])
            } else {
                None
            }),
    {
        self.inner.get(&k).copied()
    }

    /// `hashbrown::HashMap::contains_key`.
    #[verifier::external_body]
    pub(crate) fn contains_key(&self, k: u64) -> (r: bool)
        ensures
            r == flag_table_contents(*self).contains_key(k),
    {
        self.inner.contains_key(&k)
    }

    /// The keys of `hashbrown::HashMap::iter`, collected: each key of the
    /// table once, in the table's own (unspecified) order.
    #[verifier::external_body]
    pub(crate) fn keys(&self) -> (r: Vec<u64>)
        ensures
            r@.no_duplicates(),
            r@.to_set() == flag_table_contents(*self).dom(),
    {
        self.inner.iter().map(|(k, _)| *k).collect()
    }
}

impl ThreadTable {
    /// `hashbrown::HashMap::new`: an empty table.
    #[verifier::external_body]
    pub(crate) fn new() -> (table: ThreadTable)
        ensures
            thread_table_contents(table).dom().is_empty(),
    {
        ThreadTable { inner: hashbrown::HashMap::new() }
    }

    /// `hashbrown::HashMap::insert`: binds `k` to `v` and returns the value
    /// `k` was bound to before, if any.
    #[verifier::external_body]
    pub(crate) fn insert(&mut self, k: u64, v: Thread) -> (r: Option<Thread>)
        ensures
            thread_table_contents(*final(self)) == thread_table_contents(*old(self)).insert(k, v),
            r == (if thread_table_contents(*old(self)).contains_key(k) {
                Some(thread_table_contents(*old(self))[k])
            } else {
                None
            }),
    {
        self.inner.insert(k, v)
    }

    /// `hashbrown::HashMap::remove`: unbinds `k` and returns its value, if any.
    #[verifier::external_body]
    pub(crate) fn remove(&mut self, k: u64) -> (r: Option<Thread>)
        ensures
            thread_table_contents(*final(self)) == thread_table_contents(*old(self)).remove(k),
            r == (if thread_table_contents(*old(self)).contains_key(k) {
                Some(thread_table_contents(*old(self))[k])
            } else {
                None
            }),
    {
        self.inner.remove(&k)
    }

    /// `hashbrown::HashMap::get`: the value bound to `k`, if any.
    #[verifier::external_body]
    pub(crate) fn get(&self, k: u64) -> (r: Option<Thread>)
        ensures
            r == (if thread_table_contents(*self).contains_key(k) {
                Some(thread_table_contents(*self)[k])
            } else {
                None
            }),
    {
        self.inner.get(&k).copied()
    }

    /// `hashbrown::HashMap::contains_key`.
    #[verifier::external_body]
    pub(crate) fn contains_key(&self, k: u64) -> (r: bool)
        ensures
            r == thread_table_contents(*self).contains_key(k),
    {
        self.inner.contains_key(&k)
    }

    /// The entries of `hashbrown::HashMap::iter`, collected: each entry of
    /// the table once, in the table's own (unspecified) order.
    #[verifier::external_body]
    pub(crate) fn entries(&self) -> (r: Vec<(u64, Thread)>)
        ensures
            walk_keys(r@).no_duplicates(),
            walk_keys(r@).to_set() == thread_table_contents(*self).dom(),
            forall|i: int|
                0 <= i < r@.len() ==> thread_table_contents(*self).contains_key(#[trigger] r@[i].0)
                    && thread_table_contents(*self)[r@[i].0] == r@[i].1,
    {
        self.inner.iter().map(|(k, v)| (*k, *v)).collect()
    }
}

impl ProcessTable {
    /// `hashbrown::HashMap::new`: an empty table.
    #[verifier::external_body]
    pub(crate) fn new() -> (table: ProcessTable)
        ensures
            process_table_contents(table).dom().is_empty(),
    {
        ProcessTable { inner: hashbrown::HashMap::new() }
    }

    /// `hashbrown::HashMap::insert`, when `k` is not bound: binds `k` to `v`.
    #[verifier::external_body]
    pub(crate) fn insert(&mut self, k: u64, v: Process)
        requires
            !process_table_contents(*old(self)).contains_key(k),
        ensures
            process_table_contents(*final(self)) == process_table_contents(*old(self)).insert(k, v),
    {
        self.inner.insert(k, v);
    }

    /// `hashbrown::HashMap::remove`: unbinds `k` and returns its value, if any.
    #[verifier::external_body]
    pub(crate) fn remove(&mut self, k: u64) -> (r: Option<Process>)
        ensures
            process_table_contents(*final(self)) == process_table_contents(*old(self)).remove(k),
            r == (if process_table_contents(*old(self)).contains_key(k) {
                Some(process_table_contents(*old(self))[k])
            } else {
                None
            }),
    {
        self.inner.remove(&k)
    }

    /// `hashbrown::HashMap::contains_key`.
    #[verifier::external_body]
    pub(crate) fn contains_key(&self, k: u64) -> (r: bool)
        ensures
            r == process_table_contents(*self).contains_key(k),
    {
        self.inner.contains_key(&k)
    }

    /// `hashbrown::HashMap::get`: the value bound to `k`, if any.
    #[verifier::external_body]
    pub(crate) fn get(&self, k: u64) -> (r: Option<&Process>)
        ensures
            r == (if process_table_contents(*self).contains_key(k) {
                Some(&process_table_contents(*self)[k])
            } else {
                None
            }),
    {
        self.inner.get(&k)
    }
}

} // verus!
