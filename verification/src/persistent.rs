//! The persistent store: a structurally shared vector of values.
//!
//! A checkpoint is a clone of the whole store, cheap because the clone
//! shares its nodes with the store. Rolling back puts the clone in the
//! store's place, so everything done since the checkpoint is undone: the
//! slots appended and the values overwritten alike.

use vstd::prelude::*;
use crate::dvec::{dvec_clone, dvec_index, dvec_index_mut, dvec_items, dvec_len, dvec_new, dvec_push};
use crate::store::{lemma_index_as_u32, Measurable, UnificationStore};
use crate::value::{UnifyKey, VarValue};
use dogged::DVec;
use std::marker::PhantomData;
use std::ops::Index;

verus! {

/// The persistent store, and a checkpoint of it, as a mathematical value.
pub struct PersistentView {
    /// The slots, by index.
    pub values: Seq<VarValue>,
}

impl PersistentView {
    /// No slot.
    pub open spec fn empty() -> Self {
        PersistentView { values: Seq::empty() }
    }

    /// The checkpoint that `start_snapshot` hands out in this state: the
    /// state itself.
    pub open spec fn next_snapshot(self) -> Self {
        self
    }

    /// The state after `start_snapshot`: opening a checkpoint leaves no
    /// trace in the store.
    pub open spec fn start_snapshot(self) -> Self {
        self
    }

    /// The state after `rollback_to(snapshot)`: what the checkpoint holds.
    pub open spec fn rollback_to(self, snapshot: Self) -> Self {
        snapshot
    }

    /// The state after `commit`: the store as it is.
    pub open spec fn commit(self) -> Self {
        self
    }

    /// The state after `push(value)`.
    pub open spec fn push(self, value: VarValue) -> Self {
        PersistentView { values: self.values.push(value) }
    }

    /// The state after the values of `added` were pushed, first to last.
    pub open spec fn append(self, added: Seq<VarValue>) -> Self {
        PersistentView { values: self.values + added }
    }

    /// The state after slot `index` was given the value `value`.
    pub open spec fn update(self, index: int, value: VarValue) -> Self {
        PersistentView { values: self.values.update(index, value) }
    }
}

/// Backing store for a persistent unification table.
#[derive(Debug)]
pub struct Persistent<K: UnifyKey> {
    values: DVec<VarValue>,
    key: PhantomData<K>,
}

impl<K: UnifyKey> View for Persistent<K> {
    type V = PersistentView;

    closed spec fn view(&self) -> PersistentView {
        PersistentView { values: dvec_items(self.values) }
    }
}

impl<K: UnifyKey> Default for Persistent<K> {
    fn default() -> (store: Self)
        ensures
            store@ == PersistentView::empty(),
    {
        Persistent { values: dvec_new(), key: PhantomData }
    }
}

impl<K: UnifyKey> Clone for Persistent<K> {
    fn clone(&self) -> (copy: Self)
        ensures
            copy@ == self@,
    {
        Persistent { values: dvec_clone(&self.values), key: PhantomData }
    }
}

impl<K: UnifyKey> Measurable for Persistent<K> {
    open spec fn spec_len(&self) -> nat {
        self@.values.len()
    }

    fn len(&self) -> (n: usize) {
        dvec_len(&self.values)
    }
}

impl<K: UnifyKey> Index<usize> for Persistent<K> {
    type Output = VarValue;

    fn index(&self, index: usize) -> (value: &VarValue)
        ensures
            *value == self@.values[index as int],
    {
        dvec_index(&self.values, index)
    }
}

impl<K: UnifyKey> vstd::std_specs::core::IndexSpecImpl<usize> for Persistent<K> {
    open spec fn index_req(&self, index: &usize) -> bool {
        *index < self@.values.len()
    }
}

impl<K: UnifyKey> UnificationStore for Persistent<K> {
    type Key = K;

    type Snapshot = Self;

    open spec fn values(&self) -> Seq<VarValue> {
        self@.values
    }

    open spec fn wf(&self) -> bool {
        true
    }

    open spec fn resolves(&self, snapshot: &Self) -> bool {
        true
    }

    proof fn lemma_len_counts_values(&self) {
    }

    fn start_snapshot(&mut self) -> (snapshot: Self)
        ensures
            snapshot@ == old(self)@.next_snapshot(),
            final(self)@ == old(self)@.start_snapshot(),
    {
        self.clone()
    }

    fn rollback_to(&mut self, snapshot: Self)
        ensures
            final(self)@ == old(self)@.rollback_to(snapshot@),
    {
        *self = snapshot;
    }

    fn commit(&mut self, snapshot: Self)
        ensures
            final(self)@ == old(self)@.commit(),
    {
    }

    fn reset_unifications(&mut self, mut value: impl FnMut(u32) -> VarValue) {
        let ghost generator = value;
        let n = dvec_len(&self.values);
        let mut i: usize = 0;
        while i < n
            invariant
                value == generator,
                i <= n,
                n == self@.values.len(),
                forall|k: u32| (k as int) < n ==> call_requires(value, (k,)),
                forall|j: int| 0 <= j < i ==> call_ensures(value, (j as u32,), #[trigger] self@.values[j]),
            decreases n - i,
        {
            proof {
                lemma_index_as_u32(i);
            }
            let fresh = value(i as u32);
            let slot = dvec_index_mut(&mut self.values, i);
            *slot = fresh;
            i += 1;
        }
    }

    fn push(&mut self, value: VarValue)
        ensures
            final(self)@ == old(self)@.push(value),
    {
        dvec_push(&mut self.values, value);
    }

    fn reserve(&mut self, num_new_values: usize)
        ensures
            final(self)@ == old(self)@,
    {
    }

    fn update<F>(&mut self, index: usize, op: F) where F: FnOnce(&mut VarValue)
        ensures
            final(self)@ == old(self)@.update(index as int, final(self)@.values[index as int]),
    {
        let slot = dvec_index_mut(&mut self.values, index);
        op(slot);
    }
}

} // verus!
