//! The in-place store: one growable array of values and a log of the
//! checkpoints that are open.
//!
//! A checkpoint is a length. Rolling back truncates the array to it, so the
//! slots appended since are gone, while a slot that was there before keeps
//! whatever `update` or `reset_unifications` last wrote to it: the log holds
//! no entry for a change of value, and nothing undoes one.

use vstd::prelude::*;
use vstd::pervasive::runtime_assert;
use crate::store::{lemma_index_as_u32, Measurable, UnificationStore};
use crate::value::{UnifyKey, VarValue};
use std::marker::PhantomData;
use std::ops::Index;

verus! {

/// What a checkpoint of the in-place store remembers.
pub struct SnapshotView {
    /// The number of slots when the checkpoint was opened.
    pub length: nat,
    /// The number of checkpoints that were open already.
    pub depth: nat,
}

/// A checkpoint of the in-place store. It is neither `Clone` nor `Copy`:
/// closing it uses it up.
#[derive(Debug)]
pub struct Snapshot {
    length: usize,
    depth: usize,
}

impl View for Snapshot {
    type V = SnapshotView;

    closed spec fn view(&self) -> SnapshotView {
        SnapshotView { length: self.length as nat, depth: self.depth as nat }
    }
}

impl Measurable for Snapshot {
    open spec fn spec_len(&self) -> nat {
        self@.length
    }

    fn len(&self) -> (n: usize) {
        self.length
    }
}

/// The in-place store as a mathematical value.
pub struct InPlaceView {
    /// The slots, by index.
    pub values: Seq<VarValue>,
    /// The lengths that the open checkpoints remember, oldest first.
    pub open: Seq<nat>,
}

impl InPlaceView {
    /// The open checkpoints remember lengths that never decrease from one to
    /// the next, and none exceeds the current length.
    pub open spec fn wf(self) -> bool {
        &&& forall|i: int, j: int| 0 <= i <= j < self.open.len() ==> self.open[i] <= self.open[j]
        &&& forall|i: int| 0 <= i < self.open.len() ==> self.open[i] <= self.values.len()
    }

    /// No slot and no open checkpoint.
    pub open spec fn empty() -> Self {
        InPlaceView { values: Seq::empty(), open: Seq::empty() }
    }

    /// The checkpoint that `start_snapshot` hands out in this state.
    pub open spec fn next_snapshot(self) -> SnapshotView {
        SnapshotView { length: self.values.len(), depth: self.open.len() }
    }

    /// The state after `start_snapshot`.
    pub open spec fn start_snapshot(self) -> Self {
        InPlaceView { values: self.values, open: self.open.push(self.values.len()) }
    }

    /// Whether `snapshot` is the checkpoint opened last among those still
    /// open.
    pub open spec fn innermost(self, snapshot: SnapshotView) -> bool {
        &&& self.open.len() == snapshot.depth + 1
        &&& self.open.last() == snapshot.length
    }

    /// The state after `rollback_to(snapshot)`: the first `snapshot.length`
    /// slots as they are now, and one open checkpoint fewer.
    pub open spec fn rollback_to(self, snapshot: SnapshotView) -> Self {
        InPlaceView {
            values: self.values.take(snapshot.length as int),
            open: self.open.drop_last(),
        }
    }

    /// The state after `commit`: the same slots, and one open checkpoint
    /// fewer.
    pub open spec fn commit(self) -> Self {
        InPlaceView { values: self.values, open: self.open.drop_last() }
    }

    /// The state after `push(value)`.
    pub open spec fn push(self, value: VarValue) -> Self {
        InPlaceView { values: self.values.push(value), open: self.open }
    }

    /// The state after the values of `added` were pushed, first to last.
    pub open spec fn append(self, added: Seq<VarValue>) -> Self {
        InPlaceView { values: self.values + added, open: self.open }
    }

    /// The state after slot `index` was given the value `value`.
    pub open spec fn update(self, index: int, value: VarValue) -> Self {
        InPlaceView { values: self.values.update(index, value), open: self.open }
    }
}

/// Backing store for an in-place unification table.
#[derive(Debug)]
pub struct InPlace<K: UnifyKey> {
    values: Vec<VarValue>,
    open: Vec<usize>,
    key: PhantomData<K>,
}

impl<K: UnifyKey> View for InPlace<K> {
    type V = InPlaceView;

    closed spec fn view(&self) -> InPlaceView {
        InPlaceView { values: self.values@, open: self.open@.map_values(|n: usize| n as nat) }
    }
}

impl<K: UnifyKey> Default for InPlace<K> {
    fn default() -> (store: Self)
        ensures
            store@ == InPlaceView::empty(),
    {
        let store = InPlace { values: Vec::new(), open: Vec::new(), key: PhantomData };
        assert(store@.open =~= Seq::empty());
        store
    }
}

impl<K: UnifyKey> Clone for InPlace<K> {
    fn clone(&self) -> (copy: Self)
        ensures
            copy@ == self@,
    {
        let copy = InPlace { values: self.values.clone(), open: self.open.clone(), key: PhantomData };
        assert(copy.values@ =~= self.values@);
        assert(copy.open@ =~= self.open@);
        copy
    }
}

impl<K: UnifyKey> Measurable for InPlace<K> {
    open spec fn spec_len(&self) -> nat {
        self@.values.len()
    }

    fn len(&self) -> (n: usize) {
        self.values.len()
    }
}

impl<K: UnifyKey> Index<usize> for InPlace<K> {
    type Output = VarValue;

    fn index(&self, index: usize) -> (value: &VarValue)
        ensures
            *value == self@.values[index as int],
    {
        &self.values[index]
    }
}

impl<K: UnifyKey> vstd::std_specs::core::IndexSpecImpl<usize> for InPlace<K> {
    open spec fn index_req(&self, index: &usize) -> bool {
        *index < self@.values.len()
    }
}

impl<K: UnifyKey> InPlace<K> {
    /// Stops the program unless `snapshot` is the innermost open checkpoint.
    /// Verified callers always pass; a caller that the verifier has not seen
    /// and that closes a checkpoint twice or out of order is stopped here,
    /// before anything is truncated.
    fn check_innermost(&self, snapshot: &Snapshot)
        requires
            self@.innermost(snapshot@),
    {
        let depth = self.open.len();
        runtime_assert(depth > 0 && depth - 1 == snapshot.depth);
        runtime_assert(self.open[depth - 1] == snapshot.length);
    }
}

impl<K: UnifyKey> UnificationStore for InPlace<K> {
    type Key = K;

    type Snapshot = Snapshot;

    open spec fn values(&self) -> Seq<VarValue> {
        self@.values
    }

    open spec fn wf(&self) -> bool {
        self@.wf()
    }

    open spec fn resolves(&self, snapshot: &Snapshot) -> bool {
        self@.innermost(snapshot@)
    }

    proof fn lemma_len_counts_values(&self) {
    }

    fn start_snapshot(&mut self) -> (snapshot: Snapshot)
        ensures
            snapshot@ == old(self)@.next_snapshot(),
            final(self)@ == old(self)@.start_snapshot(),
    {
        let snapshot = Snapshot { length: self.values.len(), depth: self.open.len() };
        self.open.push(snapshot.length);
        assert(self@.open =~= old(self)@.open.push(snapshot.length as nat));
        snapshot
    }

    fn rollback_to(&mut self, snapshot: Snapshot)
        ensures
            final(self)@ == old(self)@.rollback_to(snapshot@),
    {
        self.check_innermost(&snapshot);
        self.values.truncate(snapshot.length);
        self.open.pop();
        assert(self@.open =~= old(self)@.open.drop_last());
    }

    fn commit(&mut self, snapshot: Snapshot)
        ensures
            final(self)@ == old(self)@.commit(),
    {
        self.check_innermost(&snapshot);
        self.open.pop();
        assert(self@.open =~= old(self)@.open.drop_last());
    }

    fn reset_unifications(&mut self, mut value: impl FnMut(u32) -> VarValue)
        ensures
            final(self)@.open == old(self)@.open,
    {
        let ghost generator = value;
        let n = self.values.len();
        let mut i: usize = 0;
        while i < n
            invariant
                value == generator,
                i <= n,
                n == self.values@.len(),
                self.open == old(self).open,
                forall|k: u32| (k as int) < n ==> call_requires(value, (k,)),
                forall|j: int|
                    0 <= j < i ==> call_ensures(value, (j as u32,), #[trigger] self.values@[j]),
            decreases n - i,
        {
            proof {
                lemma_index_as_u32(i);
            }
            let fresh = value(i as u32);
            self.values[i] = fresh;
            i += 1;
        }
        assert(self@.open == old(self)@.open);
    }

    fn push(&mut self, value: VarValue)
        ensures
            final(self)@ == old(self)@.push(value),
    {
        self.values.push(value);
        assert(self@.open == old(self)@.open);
    }

    fn reserve(&mut self, num_new_values: usize)
        ensures
            final(self)@ == old(self)@,
    {
        self.values.reserve(num_new_values);
    }

    fn update<F>(&mut self, index: usize, op: F) where F: FnOnce(&mut VarValue)
        ensures
            final(self)@ == old(self)@.update(index as int, final(self)@.values[index as int]),
    {
        let slot = &mut self.values[index];
        op(slot);
        assert(self@.open == old(self)@.open);
    }
}

} // verus!
