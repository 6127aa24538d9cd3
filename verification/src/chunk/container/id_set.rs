//! The hash set that holds chunk ids.

use vstd::prelude::*;

verus! {

/// A `bevy::utils::HashSet` of chunk ids.
#[verifier::external_body]
pub struct IdSet {
    set: bevy::utils::HashSet<i32>,
}

/// The ids that a set holds.
pub uninterp spec fn id_set_items(set: IdSet) -> Set<i32>;

/// `HashSet::default`: a set without ids.
#[verifier::external_body]
pub(crate) fn id_set_new() -> (set: IdSet)
    ensures
        id_set_items(set) == Set::<i32>::empty(),
{
    IdSet { set: bevy::utils::HashSet::default() }
}

/// `HashSet::insert`: adds `id`, and says whether it was new.
#[verifier::external_body]
pub(crate) fn id_set_insert(set: &mut IdSet, id: i32) -> (added: bool)
    ensures
        id_set_items(*final(set)) == id_set_items(*old(set)).insert(id),
        added == !id_set_items(*old(set)).contains(id),
{
    set.set.insert(id)
}

/// `HashSet::contains`.
#[verifier::external_body]
pub(crate) fn id_set_contains(set: &IdSet, id: i32) -> (found: bool)
    ensures
        found == id_set_items(*set).contains(id),
{
    set.set.contains(&id)
}

/// `HashSet::drain`, gathered into a vector: every id of the set, once each,
/// and the set is left empty. The order is the set's own and differs from run
/// to run, so nothing is stated of it.
#[verifier::external_body]
pub(crate) fn id_set_drain(set: &mut IdSet) -> (ids: Vec<i32>)
    ensures
        id_set_items(*final(set)) == Set::<i32>::empty(),
        ids@.no_duplicates(),
        ids@.to_set() == id_set_items(*old(set)),
{
    set.set.drain().collect()
}

/// `HashSet::iter`, copied into a vector: every id of the set, once each. The
/// order is the set's own and differs from run to run, so nothing is stated of
/// it.
#[verifier::external_body]
pub(crate) fn id_set_items_of(set: &IdSet) -> (ids: Vec<i32>)
    ensures
        ids@.no_duplicates(),
        ids@.to_set() == id_set_items(*set),
{
    set.set.iter().copied().collect()
}

} // verus!
