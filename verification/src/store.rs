//! The interface that every backing store offers.

use vstd::prelude::*;
use crate::value::{UnifyKey, VarValue};
use std::ops::{Index, RangeInclusive};

verus! {

/// Something that holds a number of slots, or remembers one.
pub trait Measurable {
    /// The number of slots.
    spec fn spec_len(&self) -> nat;

    fn len(&self) -> (n: usize)
        ensures
            n == self.spec_len(),
    ;
}

/// A table of variable values addressed by dense index, with checkpoints.
///
/// A checkpoint is opened by `start_snapshot` and closed, once, by
/// `rollback_to` or `commit`; checkpoints close in the reverse of the order in
/// which they were opened. What `rollback_to` does to slots that existed when
/// the checkpoint was opened differs between stores, so this interface
/// promises only what they share; each store's own contract says the rest.
pub trait UnificationStore: Index<usize, Output = VarValue> + Measurable + Clone + Default {
    type Key: UnifyKey;

    type Snapshot: Measurable;

    /// The slots, by index.
    spec fn values(&self) -> Seq<VarValue>;

    /// The store's invariant.
    spec fn wf(&self) -> bool;

    /// Whether `snapshot` is the checkpoint that this store can close now.
    spec fn resolves(&self, snapshot: &Self::Snapshot) -> bool;

    /// The length is the number of slots, and every slot can be read.
    proof fn lemma_len_counts_values(&self)
        requires
            self.wf(),
        ensures
            self.spec_len() == self.values().len(),
            forall|i: usize| i < self.values().len() ==> #[trigger] vstd::std_specs::core::IndexSpec::index_req(self, &i),
    ;

    /// Opens a checkpoint at the current length.
    fn start_snapshot(&mut self) -> (snapshot: Self::Snapshot)
        requires
            old(self).wf(),
        ensures
            final(self).wf(),
            final(self).values() == old(self).values(),
            snapshot.spec_len() == old(self).values().len(),
            final(self).resolves(&snapshot),
    ;

    /// Closes `snapshot`, taking the table back to the length it had when the
    /// checkpoint was opened.
    fn rollback_to(&mut self, snapshot: Self::Snapshot)
        requires
            old(self).wf(),
            old(self).resolves(&snapshot),
        ensures
            final(self).wf(),
            final(self).values().len() == snapshot.spec_len(),
    ;

    /// Closes `snapshot`, keeping everything done since it was opened.
    fn commit(&mut self, snapshot: Self::Snapshot)
        requires
            old(self).wf(),
            old(self).resolves(&snapshot),
        ensures
            final(self).wf(),
            final(self).values() == old(self).values(),
    ;

    /// The inclusive range from the length that `snapshot` remembers up to
    /// the current length. It holds every index added since the checkpoint
    /// was opened and, as its upper end, the current length itself, which is
    /// the index of no slot.
    fn values_since_snapshot(&mut self, snapshot: &Self::Snapshot) -> (range: RangeInclusive<usize>)
        ensures
            range@.start == snapshot.spec_len(),
            range@.end == old(self).spec_len(),
            !range@.exhausted,
            *final(self) == *old(self),
    {
        snapshot.len()..=self.len()
    }

    /// Overwrites every slot with what `value` returns for its index.
    fn reset_unifications(&mut self, value: impl FnMut(u32) -> VarValue)
        requires
            old(self).wf(),
            forall|k: u32| (k as int) < old(self).values().len() ==> call_requires(value, (k,)),
        ensures
            final(self).wf(),
            final(self).values().len() == old(self).values().len(),
            forall|i: int|
                0 <= i < final(self).values().len() ==> call_ensures(
                    value,
                    (i as u32,),
                    #[trigger] final(self).values()[i],
                ),
            forall|s: Self::Snapshot| old(self).resolves(&s) ==> #[trigger] final(self).resolves(&s),
    ;

    /// Appends one slot, whose index is the length before the call.
    fn push(&mut self, value: VarValue)
        requires
            old(self).wf(),
        ensures
            final(self).wf(),
            final(self).values() == old(self).values().push(value),
            forall|s: Self::Snapshot| old(self).resolves(&s) ==> #[trigger] final(self).resolves(&s),
    ;

    /// Makes room for `num_new_values` more slots; the table does not change.
    fn reserve(&mut self, num_new_values: usize)
        requires
            old(self).wf(),
        ensures
            final(self).wf(),
            final(self).values() == old(self).values(),
            forall|s: Self::Snapshot| old(self).resolves(&s) ==> #[trigger] final(self).resolves(&s),
    ;

    /// Lets `op` change the slot at `index`; no other slot changes.
    fn update<F>(&mut self, index: usize, op: F) where F: FnOnce(&mut VarValue)
        requires
            old(self).wf(),
            index < old(self).values().len(),
            forall|slot: &mut VarValue|
                *slot == old(self).values()[index as int] ==> call_requires(op, (slot,)),
        ensures
            final(self).wf(),
            final(self).values() == old(self).values().update(
                index as int,
                final(self).values()[index as int],
            ),
            exists|slot: &mut VarValue|
                {
                    &&& *slot == old(self).values()[index as int]
                    &&& *final(slot) == final(self).values()[index as int]
                    &&& #[trigger] call_ensures(op, (slot,), ())
                },
            forall|s: Self::Snapshot| old(self).resolves(&s) ==> #[trigger] final(self).resolves(&s),
    ;

    /// The label of the kind of key in use: what the key's own `tag` returns.
    fn tag() -> (label: &'static str)
        ensures
            call_ensures(<Self::Key as UnifyKey>::tag, (), label),
    {
        Self::Key::tag()
    }
}

/// Whether `index` lies in the range that `values_since_snapshot` returns in
/// a table of `len` slots for a checkpoint that remembers `snapshot_len`.
pub open spec fn in_values_since(snapshot_len: nat, len: nat, index: int) -> bool {
    snapshot_len <= index <= len
}

/// An index cut down to 32 bits is no greater than the index. So a generator
/// that accepts every index below a table's length accepts what
/// `reset_unifications` hands it for each slot.
pub proof fn lemma_index_as_u32(i: usize)
    ensures
        (i as u32) as int <= i,
{
    let wide = i as u64;
    assert((wide as u32) as u64 <= wide) by (bit_vector);
}

} // verus!
