//! The reference bridge: counted references from native state to script-side
//! values.
//!
//! An owner environment keeps a value alive while its reference count is
//! positive. `incref` stores the value (by identity) and counts one more
//! reference; `decref` counts one fewer and drops the entry when the count
//! reaches zero, so that the script runtime may reclaim the value.

use vstd::prelude::*;
use std::collections::HashMap;

verus! {

broadcast use vstd::std_specs::hash::group_hash_axioms;

/// Identity of a script-side value held by an environment.
pub type ValueRef = u64;

/// What a `decref` did.
#[derive(PartialEq, Eq, Structural, Debug, Clone, Copy)]
pub enum Decref {
    /// The value had no reference here: nothing changed (a caller bug).
    NotFound,
    /// One reference was dropped; this many remain.
    Remaining(u64),
    /// The last reference was dropped and the entry removed.
    Released,
}

/// Reference counts of the values an environment keeps alive.
pub struct RefTable {
    counts: HashMap<ValueRef, u64>,
}

impl View for RefTable {
    type V = Map<ValueRef, u64>;

    closed spec fn view(&self) -> Map<ValueRef, u64> {
        self.counts@
    }
}

impl RefTable {
    /// Every stored value has at least one reference.
    pub open spec fn wf(&self) -> bool {
        forall|k: ValueRef| #[trigger] self@.contains_key(k) ==> self@[k] >= 1
    }

    /// The number of references to `key` (zero when it is not stored).
    pub open spec fn count_of(&self, key: ValueRef) -> nat {
        if self@.contains_key(key) {
            self@[key] as nat
        } else {
            0
        }
    }

    /// An environment that keeps nothing alive.
    pub fn new() -> (r: RefTable)
        ensures
            r@ == Map::<ValueRef, u64>::empty(),
            r.wf(),
    {
        RefTable { counts: HashMap::new() }
    }

    /// The number of references to `key`.
    pub fn count(&self, key: ValueRef) -> (r: u64)
        ensures
            r == self.count_of(key),
    {
        match self.counts.get(&key) {
            Some(c) => *c,
            None => 0,
        }
    }

    /// Counts one more reference to `key` and returns the handle to give back
    /// to `decref`.
    pub fn incref(&mut self, key: ValueRef) -> (handle: ValueRef)
        requires
            old(self).wf(),
            old(self).count_of(key) < u64::MAX,
        ensures
            handle == key,
            final(self).wf(),
            final(self)@ == old(self)@.insert(key, (old(self).count_of(key) + 1) as u64),
            final(self).count_of(key) == old(self).count_of(key) + 1,
    {
        let c = self.count(key);
        self.counts.insert(key, c + 1);
        key
    }

    /// Counts one reference fewer to `handle`; the entry goes when no
    /// reference is left.
    pub fn decref(&mut self, handle: ValueRef) -> (r: Decref)
        requires
            old(self).wf(),
        ensures
            final(self).wf(),
            old(self).count_of(handle) == 0 ==> r == Decref::NotFound && final(self)@ == old(
                self,
            )@,
            old(self).count_of(handle) == 1 ==> r == Decref::Released && final(self)@ == old(
                self,
            )@.remove(handle),
            old(self).count_of(handle) > 1 ==> r == Decref::Remaining(
                (old(self).count_of(handle) - 1) as u64,
            ) && final(self)@ == old(self)@.insert(
                handle,
                (old(self).count_of(handle) - 1) as u64,
            ),
            final(self).count_of(handle) == if old(self).count_of(handle) == 0 {
                0
            } else {
                (old(self).count_of(handle) - 1) as nat
            },
    {
        let c = self.count(handle);
        if c == 0 {
            Decref::NotFound
        } else if c == 1 {
            self.counts.remove(&handle);
            Decref::Released
        } else {
            self.counts.insert(handle, c - 1);
            Decref::Remaining(c - 1)
        }
    }

    /// Drops every reference.
    pub fn clear(&mut self)
        ensures
            final(self)@ == Map::<ValueRef, u64>::empty(),
            final(self).wf(),
    {
        self.counts = HashMap::new();
    }
}

} // verus!
