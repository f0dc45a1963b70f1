use unification_store::{Measurable, Persistent, UnificationStore, UnifyKey, VarValue};

struct IntKey;

impl UnifyKey for IntKey {
    fn tag() -> &'static str {
        "IntKey"
    }
}

fn slot(parent: u32, value: u64, rank: u32) -> VarValue {
    VarValue { parent, value, rank }
}

fn table_of(n: u32) -> Persistent<IntKey> {
    let mut store: Persistent<IntKey> = Persistent::default();
    for i in 0..n {
        store.push(slot(i, 100 + u64::from(i), 0));
    }
    store
}

#[test]
fn persistent_starts_empty() {
    let store: Persistent<IntKey> = Persistent::default();
    assert_eq!(store.len(), 0);
}

#[test]
fn persistent_push_appends_at_the_old_length() {
    let mut store: Persistent<IntKey> = Persistent::default();
    store.push(slot(0, 10, 0));
    assert_eq!(store.len(), 1);
    store.push(slot(1, 11, 0));
    assert_eq!(store.len(), 2);
    assert_eq!(store[0], slot(0, 10, 0));
    assert_eq!(store[1], slot(1, 11, 0));
}

#[test]
fn persistent_holds_more_than_one_node() {
    let store = table_of(1100);
    assert_eq!(store.len(), 1100);
    for i in [0u32, 31, 32, 33, 1023, 1024, 1056, 1099] {
        assert_eq!(store[i as usize], slot(i, 100 + u64::from(i), 0));
    }
}

#[test]
fn persistent_tag_is_the_label_of_the_key() {
    assert_eq!(<Persistent<IntKey> as UnificationStore>::tag(), "IntKey");
}

#[test]
fn persistent_snapshot_remembers_the_length() {
    let mut store = table_of(3);
    let snapshot = store.start_snapshot();
    store.push(slot(3, 0, 0));
    assert_eq!(snapshot.len(), 3);
    assert_eq!(store.len(), 4);
    store.commit(snapshot);
    assert_eq!(store.len(), 4);
}

#[test]
fn persistent_rollback_restores_the_length() {
    let mut store = table_of(2);
    let snapshot = store.start_snapshot();
    store.push(slot(2, 7, 0));
    assert_eq!(store.len(), 3);
    store.rollback_to(snapshot);
    assert_eq!(store.len(), 2);
    assert_eq!(store[0], slot(0, 100, 0));
    assert_eq!(store[1], slot(1, 101, 0));
}

#[test]
fn persistent_rollback_right_after_the_checkpoint_keeps_the_pushed_slot() {
    let mut store: Persistent<IntKey> = Persistent::default();
    store.push(slot(0, 5, 1));
    let snapshot = store.start_snapshot();
    store.rollback_to(snapshot);
    assert_eq!(store.len(), 1);
    assert_eq!(store[0], slot(0, 5, 1));
}

#[test]
fn persistent_rollback_undoes_an_update_of_an_older_slot() {
    let v0 = slot(0, 1, 0);
    let v1 = slot(0, 2, 5);
    let mut store: Persistent<IntKey> = Persistent::default();
    store.push(v0);
    let snapshot = store.start_snapshot();
    store.update(0, |value| *value = v1);
    assert_eq!(store[0], v1);
    store.rollback_to(snapshot);
    assert_eq!(store.len(), 1);
    assert_eq!(store[0], v0);
}

#[test]
fn persistent_rollback_undoes_an_update_deep_in_the_tree() {
    let mut store = table_of(200);
    let snapshot = store.start_snapshot();
    store.update(40, |value| value.rank = 9);
    store.update(199, |value| value.rank = 8);
    assert_eq!(store[40], slot(40, 140, 9));
    assert_eq!(store[199], slot(199, 299, 8));
    assert_eq!(snapshot[40], slot(40, 140, 0));
    store.rollback_to(snapshot);
    assert_eq!(store[40], slot(40, 140, 0));
    assert_eq!(store[199], slot(199, 299, 0));
    assert_eq!(store.len(), 200);
}

#[test]
fn persistent_nested_commit_then_rollback() {
    let mut store: Persistent<IntKey> = Persistent::default();
    let s1 = store.start_snapshot();
    assert_eq!(s1.len(), 0);
    store.push(slot(0, 1, 0));
    assert_eq!(store.len(), 1);
    let s2 = store.start_snapshot();
    assert_eq!(s2.len(), 1);
    store.push(slot(1, 2, 0));
    assert_eq!(store.len(), 2);
    store.commit(s2);
    assert_eq!(store.len(), 2);
    store.rollback_to(s1);
    assert_eq!(store.len(), 0);
}

#[test]
fn persistent_values_since_snapshot_runs_up_to_the_length() {
    let mut store = table_of(4);
    let snapshot = store.start_snapshot();
    store.push(slot(4, 0, 0));
    store.push(slot(5, 0, 0));
    let range = store.values_since_snapshot(&snapshot);
    assert_eq!(range, 4..=6);
    assert!(range.contains(&4));
    assert!(range.contains(&5));
    // The upper end is the length itself, which is the index of no slot.
    assert!(range.contains(&6));
    assert_eq!(store.len(), 6);
    assert!(!range.contains(&3));
    assert!(!range.contains(&7));
}

#[test]
fn persistent_reset_unifications_rewrites_every_slot() {
    let mut store = table_of(70);
    store.reset_unifications(|i| slot(i, u64::from(i) * 3, 1));
    assert_eq!(store.len(), 70);
    for i in 0..70u32 {
        assert_eq!(store[i as usize], slot(i, u64::from(i) * 3, 1));
    }
}

#[test]
fn persistent_reset_unifications_is_undone_by_rollback() {
    let mut store = table_of(2);
    let snapshot = store.start_snapshot();
    store.reset_unifications(|i| slot(i, 0, 0));
    assert_eq!(store[1], slot(1, 0, 0));
    store.rollback_to(snapshot);
    assert_eq!(store[0], slot(0, 100, 0));
    assert_eq!(store[1], slot(1, 101, 0));
}

#[test]
fn persistent_commit_at_once_changes_nothing() {
    let mut store = table_of(3);
    let before = store.clone();
    let snapshot = store.start_snapshot();
    store.commit(snapshot);
    assert_eq!(store.len(), before.len());
    for i in 0..3 {
        assert_eq!(store[i], before[i]);
    }
}

#[test]
fn persistent_commit_keeps_what_was_done() {
    let mut store = table_of(1);
    let snapshot = store.start_snapshot();
    store.push(slot(1, 8, 0));
    store.update(0, |value| value.rank = 4);
    store.commit(snapshot);
    assert_eq!(store.len(), 2);
    assert_eq!(store[0], slot(0, 100, 4));
    assert_eq!(store[1], slot(1, 8, 0));
}

#[test]
fn persistent_update_changes_one_slot() {
    let mut store = table_of(3);
    store.update(1, |value| {
        value.parent = 0;
        value.rank += 2;
    });
    assert_eq!(store[0], slot(0, 100, 0));
    assert_eq!(store[1], slot(0, 101, 2));
    assert_eq!(store[2], slot(2, 102, 0));
    assert_eq!(store.len(), 3);
}

#[test]
fn persistent_reserve_changes_nothing() {
    let mut store = table_of(2);
    store.reserve(1000);
    assert_eq!(store.len(), 2);
    assert_eq!(store[0], slot(0, 100, 0));
    assert_eq!(store[1], slot(1, 101, 0));
}

#[test]
fn persistent_clone_is_independent() {
    let mut store = table_of(40);
    let copy = store.clone();
    store.push(slot(40, 0, 0));
    store.update(3, |value| value.value = 1);
    assert_eq!(copy.len(), 40);
    assert_eq!(copy[3], slot(3, 103, 0));
    assert_eq!(store.len(), 41);
    assert_eq!(store[3], slot(3, 1, 0));
}

#[test]
fn persistent_rollback_takes_any_checkpoint() {
    let mut store = table_of(1);
    let older = store.start_snapshot();
    store.push(slot(1, 0, 0));
    let newer = store.start_snapshot();
    store.push(slot(2, 0, 0));
    store.rollback_to(older);
    assert_eq!(store.len(), 1);
    store.rollback_to(newer);
    assert_eq!(store.len(), 2);
    assert_eq!(store[1], slot(1, 0, 0));
}
