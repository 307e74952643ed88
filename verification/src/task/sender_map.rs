//! The concurrent map from an executor's id to the sender of its ready queue.
use dashmap::DashMap;
use std::collections::hash_map::RandomState;
use vstd::prelude::*;

verus! {

/// `dashmap::DashMap`, whose insides the verifier does not look into.
#[verifier::external_type_specification]
#[verifier::external_body]
#[verifier::reject_recursive_types(K)]
#[verifier::reject_recursive_types(V)]
#[verifier::reject_recursive_types(S)]
pub struct ExDashMap<K, V, S>(DashMap<K, V, S>);

/// The sender stored under each executor id.
pub uninterp spec fn senders_of(map: DashMap<usize, usize, RandomState>) -> Map<usize, usize>;

/// `DashMap::with_capacity`: the map starts empty, whatever room is set aside.
///
/// The bound on `capacity` keeps clear of the sizes that no allocation can serve.
#[verifier::external_body]
pub(crate) fn senders_with_capacity(capacity: usize) -> (senders: DashMap<usize, usize, RandomState>)
    requires
        capacity <= 1024,
    ensures
        senders_of(senders) == (Map::<usize, usize>::empty()),
{
    DashMap::with_capacity(capacity)
}

/// `DashMap::insert`: the key now leads to the value, every other key to what it led to before;
/// the value that was displaced is returned.
#[verifier::external_body]
pub(crate) fn senders_insert(
    senders: &mut DashMap<usize, usize, RandomState>,
    executor_id: usize,
    sender: usize,
) -> (displaced: Option<usize>)
    ensures
        senders_of(*final(senders)) == senders_of(*old(senders)).insert(executor_id, sender),
        displaced == (if senders_of(*old(senders)).contains_key(executor_id) {
            Some(senders_of(*old(senders))[executor_id])
        } else {
            None
        }),
{
    senders.insert(executor_id, sender)
}

/// `DashMap::get`, with the value copied out of the guard: the value under the key, if there is
/// one.
#[verifier::external_body]
pub(crate) fn senders_get(
    senders: &DashMap<usize, usize, RandomState>,
    executor_id: usize,
) -> (sender: Option<usize>)
    ensures
        sender == (if senders_of(*senders).contains_key(executor_id) {
            Some(senders_of(*senders)[executor_id])
        } else {
            None
        }),
{
    senders.get(&executor_id).map(|entry| *entry.value())
}

} // verus!
