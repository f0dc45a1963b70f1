//! What this library takes on trust about `dogged::DVec`, the persistent
//! vector under the persistent store. Nothing in this file is proved: each
//! contract restates what the vector's source does, for a vector of
//! [`VarValue`].

use vstd::prelude::*;
use crate::value::VarValue;
use dogged::DVec;

verus! {

/// `dogged::DVec`, which the verifier carries through without looking inside.
#[verifier::external_type_specification]
#[verifier::external_body]
#[verifier::reject_recursive_types(T)]
pub struct ExDVec<T>(DVec<T>);

/// The elements of a persistent vector, by index.
pub uninterp spec fn dvec_items(v: DVec<VarValue>) -> Seq<VarValue>;

/// `DVec::new`: a vector without elements.
#[verifier::external_body]
pub(crate) fn dvec_new() -> (v: DVec<VarValue>)
    ensures
        dvec_items(v) == Seq::<VarValue>::empty(),
{
    DVec::new()
}

/// `DVec::len`: the number of elements.
#[verifier::external_body]
pub(crate) fn dvec_len(v: &DVec<VarValue>) -> (n: usize)
    ensures
        n == dvec_items(*v).len(),
{
    v.len()
}

/// `DVec::push`: the vector gains `value` as its last element and keeps the
/// others.
#[verifier::external_body]
pub(crate) fn dvec_push(v: &mut DVec<VarValue>, value: VarValue)
    ensures
        dvec_items(*final(v)) == dvec_items(*old(v)).push(value),
{
    v.push(value)
}

/// `DVec`'s `Index::index`: a reference to the element at `index`. The call
/// panics on an index that is not below the length, which `requires` leaves
/// out.
#[verifier::external_body]
pub(crate) fn dvec_index(v: &DVec<VarValue>, index: usize) -> (value: &VarValue)
    requires
        index < dvec_items(*v).len(),
    ensures
        *value == dvec_items(*v)[index as int],
{
    &v[index]
}

/// `DVec`'s `IndexMut::index_mut`: a mutable reference to the element at
/// `index`. What is written through it becomes that element; the others stay,
/// and so does every clone taken earlier, since the vector copies the nodes
/// that it shares before it hands out the reference. The call panics on an
/// index that is not below the length, which `requires` leaves out.
#[verifier::external_body]
pub(crate) fn dvec_index_mut(v: &mut DVec<VarValue>, index: usize) -> (slot: &mut VarValue)
    requires
        index < dvec_items(*old(v)).len(),
    ensures
        *slot == dvec_items(*old(v))[index as int],
        dvec_items(*final(v)) == dvec_items(*old(v)).update(index as int, *final(slot)),
{
    &mut v[index]
}

/// `DVec`'s `Clone::clone`: a vector with the same elements.
#[verifier::external_body]
pub(crate) fn dvec_clone(v: &DVec<VarValue>) -> (copy: DVec<VarValue>)
    ensures
        dvec_items(copy) == dvec_items(*v),
{
    v.clone()
}

} // verus!
