//! What a table stores in a slot, and what it asks of a key type.

use vstd::prelude::*;

verus! {

/// The value of one variable: the index of its parent in the union-find
/// forest, the rank of its tree, and the payload that unification attached to
/// it. A store keeps, hands out and overwrites such values; it never looks
/// inside one.
#[derive(Clone, Copy, Debug, PartialEq, Eq, Structural)]
pub struct VarValue {
    pub parent: u32,
    pub value: u64,
    pub rank: u32,
}

/// A kind of key. Keys are dense indices into a table; the one thing the
/// storage layer needs from the kind itself is a label for diagnostics.
pub trait UnifyKey {
    /// The label of this kind of key.
    fn tag() -> &'static str;
}

} // verus!
