//! What holds of the two stores whatever they hold, stated over their views.
//!
//! The stores agree on everything but one point, and the laws come in pairs
//! to show it: rolling back the in-place store keeps an update made to a slot
//! that is older than the checkpoint, rolling back the persistent store
//! undoes it.

use vstd::prelude::*;
use crate::in_place::{InPlaceView, SnapshotView};
use crate::persistent::PersistentView;
use crate::store::in_values_since;
use crate::value::VarValue;

verus! {

/// Pushing the values of a sequence one after the other appends the
/// sequence: `append` with one value more is `append` and then `push`.
pub proof fn lemma_in_place_append_is_repeated_push(
    table: InPlaceView,
    added: Seq<VarValue>,
    value: VarValue,
)
    ensures
        table.append(Seq::empty()) == table,
        table.append(added.push(value)) == table.append(added).push(value),
{
    assert(table.values + Seq::<VarValue>::empty() =~= table.values);
    assert(table.values + added.push(value) =~= (table.values + added).push(value));
}

/// The same of the persistent store.
pub proof fn lemma_persistent_append_is_repeated_push(
    table: PersistentView,
    added: Seq<VarValue>,
    value: VarValue,
)
    ensures
        table.append(Seq::empty()) == table,
        table.append(added.push(value)) == table.append(added).push(value),
{
    assert(table.values + Seq::<VarValue>::empty() =~= table.values);
    assert(table.values + added.push(value) =~= (table.values + added).push(value));
}

/// The in-place store stays well formed: the empty store is, and each
/// operation keeps it so, `rollback_to` and `commit` when they are given the
/// innermost open checkpoint.
pub proof fn lemma_in_place_stays_well_formed(
    table: InPlaceView,
    snapshot: SnapshotView,
    added: Seq<VarValue>,
    index: int,
    value: VarValue,
)
    requires
        table.wf(),
    ensures
        InPlaceView::empty().wf(),
        table.start_snapshot().wf(),
        table.push(value).wf(),
        table.append(added).wf(),
        0 <= index < table.values.len() ==> table.update(index, value).wf(),
        table.innermost(snapshot) ==> table.commit().wf(),
        table.innermost(snapshot) ==> table.rollback_to(snapshot).wf(),
{
}

/// A rollback never lengthens the in-place store: it takes the length back
/// to the one that the checkpoint remembers, which the store had when the
/// checkpoint was opened and has not gone below since.
pub proof fn lemma_in_place_rollback_shortens(table: InPlaceView, snapshot: SnapshotView)
    requires
        table.wf(),
        table.innermost(snapshot),
    ensures
        table.rollback_to(snapshot).values.len() == snapshot.length,
        snapshot.length <= table.values.len(),
{
}

/// In the in-place store, a rollback right after the checkpoint was opened
/// changes nothing: slots pushed before the checkpoint stay.
pub proof fn lemma_in_place_rollback_at_once(table: InPlaceView)
    requires
        table.wf(),
    ensures
        table.start_snapshot().innermost(table.next_snapshot()),
        table.start_snapshot().rollback_to(table.next_snapshot()) == table,
{
    let opened = table.start_snapshot();
    assert(opened.values.take(table.values.len() as int) =~= table.values);
    assert(opened.open.drop_last() =~= table.open);
}

/// The same of the persistent store.
pub proof fn lemma_persistent_rollback_at_once(table: PersistentView)
    ensures
        table.start_snapshot().rollback_to(table.next_snapshot()) == table,
{
}

/// In the in-place store, a rollback discards every slot pushed since the
/// checkpoint was opened, and nothing else: the store is what it was before,
/// so its length is the one it had before the pushes and no index of a
/// discarded slot is below it.
pub proof fn lemma_in_place_rollback_discards_appended(table: InPlaceView, added: Seq<VarValue>)
    requires
        table.wf(),
    ensures
        table.start_snapshot().append(added).innermost(table.next_snapshot()),
        table.start_snapshot().append(added).rollback_to(table.next_snapshot()) == table,
{
    let grown = table.start_snapshot().append(added);
    assert(grown.values.take(table.values.len() as int) =~= table.values);
    assert(grown.open.drop_last() =~= table.open);
}

/// The same of the persistent store.
pub proof fn lemma_persistent_rollback_discards_appended(
    table: PersistentView,
    added: Seq<VarValue>,
)
    ensures
        table.start_snapshot().append(added).rollback_to(table.next_snapshot()) == table,
{
}

/// In the in-place store, a rollback keeps an update made since the
/// checkpoint to a slot that existed when it was opened: after the rollback
/// the store is the one from before the checkpoint with that slot updated.
pub proof fn lemma_in_place_rollback_keeps_update(table: InPlaceView, index: int, value: VarValue)
    requires
        table.wf(),
        0 <= index < table.values.len(),
    ensures
        table.start_snapshot().update(index, value).innermost(table.next_snapshot()),
        table.start_snapshot().update(index, value).rollback_to(table.next_snapshot())
            == table.update(index, value),
        table.start_snapshot().update(index, value).rollback_to(
            table.next_snapshot(),
        ).values[index] == value,
{
    let updated = table.start_snapshot().update(index, value);
    assert(updated.values.take(table.values.len() as int) =~= table.values.update(index, value));
    assert(updated.open.drop_last() =~= table.open);
}

/// In the persistent store, a rollback undoes an update made since the
/// checkpoint: after the rollback the slot holds what it held when the
/// checkpoint was opened.
pub proof fn lemma_persistent_rollback_undoes_update(
    table: PersistentView,
    index: int,
    value: VarValue,
)
    requires
        0 <= index < table.values.len(),
    ensures
        table.start_snapshot().update(index, value).rollback_to(table.next_snapshot()) == table,
        table.start_snapshot().update(index, value).rollback_to(
            table.next_snapshot(),
        ).values[index] == table.values[index],
{
}

/// In the in-place store, checkpoints nest: with an outer checkpoint open,
/// values pushed, an inner checkpoint opened, more values pushed and the
/// inner one committed, the outer checkpoint is the innermost again, and
/// rolling back to it discards what was pushed under either.
pub proof fn lemma_in_place_nested_commit_then_rollback(
    table: InPlaceView,
    first: Seq<VarValue>,
    second: Seq<VarValue>,
)
    requires
        table.wf(),
    ensures
        ({
            let outer = table.next_snapshot();
            let middle = table.start_snapshot().append(first);
            let inner = middle.next_snapshot();
            let top = middle.start_snapshot().append(second);
            &&& top.innermost(inner)
            &&& !top.innermost(outer)
            &&& top.commit().values == table.values + first + second
            &&& top.commit().innermost(outer)
            &&& top.commit().rollback_to(outer) == table
        }),
{
    let outer = table.next_snapshot();
    let middle = table.start_snapshot().append(first);
    let top = middle.start_snapshot().append(second);
    assert(top.open.drop_last() =~= middle.open);
    assert(middle.open.drop_last() =~= table.open);
    assert(top.commit().values.take(table.values.len() as int) =~= table.values);
}

/// The same of the persistent store, where committing changes nothing and
/// the outer checkpoint holds the whole earlier table.
pub proof fn lemma_persistent_nested_commit_then_rollback(
    table: PersistentView,
    first: Seq<VarValue>,
    second: Seq<VarValue>,
)
    ensures
        ({
            let outer = table.next_snapshot();
            let middle = table.start_snapshot().append(first);
            let top = middle.start_snapshot().append(second);
            &&& top.commit().values == table.values + first + second
            &&& top.commit().rollback_to(outer) == table
        }),
{
}

/// In the in-place store, committing a checkpoint under which nothing was
/// done leaves the store as it was before the checkpoint was opened.
pub proof fn lemma_in_place_commit_at_once(table: InPlaceView)
    ensures
        table.start_snapshot().innermost(table.next_snapshot()),
        table.start_snapshot().commit() == table,
{
    assert(table.start_snapshot().open.drop_last() =~= table.open);
}

/// The same of the persistent store.
pub proof fn lemma_persistent_commit_at_once(table: PersistentView)
    ensures
        table.start_snapshot().commit() == table,
{
}

/// In either store, committing keeps every slot, whatever was done under the
/// checkpoint.
pub proof fn lemma_commit_keeps_values(in_place: InPlaceView, persistent: PersistentView)
    ensures
        in_place.commit().values == in_place.values,
        persistent.commit().values == persistent.values,
{
}

/// The range of `values_since_snapshot`, for a checkpoint of the in-place
/// store under which the values of `added` were pushed: it holds the index
/// of every slot pushed since, no index of an older slot, and one index more,
/// the current length, which is the index of no slot.
pub proof fn lemma_in_place_values_since_snapshot(table: InPlaceView, added: Seq<VarValue>)
    ensures
        ({
            let remembered = table.next_snapshot().length;
            let len = table.start_snapshot().append(added).values.len();
            &&& remembered == table.values.len()
            &&& len == table.values.len() + added.len()
            &&& forall|i: int| remembered <= i < len ==> in_values_since(remembered, len, i)
            &&& forall|i: int| 0 <= i < remembered ==> !in_values_since(remembered, len, i)
            &&& in_values_since(remembered, len, len as int)
            &&& forall|i: int| in_values_since(remembered, len, i) ==> remembered <= i < len || i == len
        }),
{
}

/// The same of the persistent store, whose checkpoint remembers the length
/// as the number of slots that it holds.
pub proof fn lemma_persistent_values_since_snapshot(table: PersistentView, added: Seq<VarValue>)
    ensures
        ({
            let remembered = table.next_snapshot().values.len();
            let len = table.start_snapshot().append(added).values.len();
            &&& remembered == table.values.len()
            &&& len == table.values.len() + added.len()
            &&& forall|i: int| remembered <= i < len ==> in_values_since(remembered, len, i)
            &&& forall|i: int| 0 <= i < remembered ==> !in_values_since(remembered, len, i)
            &&& in_values_since(remembered, len, len as int)
            &&& forall|i: int| in_values_since(remembered, len, i) ==> remembered <= i < len || i == len
        }),
{
}

} // verus!
