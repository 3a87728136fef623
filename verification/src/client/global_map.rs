//! The local identifier that each global object is bound to.

use std::collections::BTreeMap;

use vstd::prelude::*;

verus! {

broadcast use vstd::std_specs::btree::group_btree_axioms;

/// The local identifier of each global object.
pub struct GlobalMap {
    global_to_local: BTreeMap<u32, u32>,
}

impl View for GlobalMap {
    type V = Map<u32, u32>;

    closed spec fn view(&self) -> Map<u32, u32> {
        self.global_to_local@
    }
}

impl GlobalMap {
    /// No bindings.
    pub fn new() -> (r: Self)
        ensures
            r@ == Map::<u32, u32>::empty(),
    {
        GlobalMap { global_to_local: BTreeMap::new() }
    }

    /// Bind the global object `global_id` to `local_id`, replacing the
    /// binding it had.
    pub fn insert(&mut self, local_id: u32, global_id: u32)
        ensures
            final(self)@ == old(self)@.insert(global_id, local_id),
    {
        self.global_to_local.insert(global_id, local_id);
    }

    /// The local identifier of the global object `global_id`.
    pub fn by_global(&self, global_id: u32) -> (r: Option<u32>)
        ensures
            r == (if self@.contains_key(global_id) {
                Some(self@[global_id])
            } else {
                None
            }),
    {
        match self.global_to_local.get(&global_id) {
            Some(local) => Some(*local),
            None => None,
        }
    }

    /// Unbind the global object `global_id`, returning its local
    /// identifier.
    pub fn remove_by_global(&mut self, global_id: u32) -> (r: Option<u32>)
        ensures
            final(self)@ == old(self)@.remove(global_id),
            r == (if old(self)@.contains_key(global_id) {
                Some(old(self)@[global_id])
            } else {
                None
            }),
    {
        self.global_to_local.remove(&global_id)
    }
}

/// A global object bound by `insert` is found by `by_global` and unbound by
/// `remove_by_global`, which hands its local identifier back; other
/// bindings are untouched.
pub proof fn lemma_global_map_round_trip(m: Map<u32, u32>, local_id: u32, global_id: u32, other: u32)
    requires
        other != global_id,
    ensures
        m.insert(global_id, local_id).contains_key(global_id),
        m.insert(global_id, local_id)[global_id] == local_id,
        !m.insert(global_id, local_id).remove(global_id).contains_key(global_id),
        m.insert(global_id, local_id).remove(global_id).contains_key(other) == m.contains_key(
            other,
        ),
        m.contains_key(other) ==> m.insert(global_id, local_id).remove(global_id)[other]
            == m[other],
{
}

} // verus!
