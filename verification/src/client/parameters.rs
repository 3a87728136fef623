//! A collection of parameters of an object, each with its values and flags.

use std::collections::BTreeMap;

use vstd::std_specs::btree::spec_keys_iter;
use vstd::std_specs::iter::IteratorSpec;

use vstd::prelude::*;

use super::ports::{PortParam, PARAM_FLAG_READ, PARAM_FLAG_WRITE};

verus! {

broadcast use vstd::std_specs::btree::group_btree_axioms;

/// The values and flags of one parameter.
pub struct ParamEntry {
    /// The values of the parameter.
    pub values: Vec<PortParam>,
    /// The flags of the parameter.
    pub flags: u32,
}

/// A collection of parameters of an object.
pub struct Parameters {
    values: BTreeMap<u32, ParamEntry>,
    modified: bool,
}

/// The values of the entry of `id`, none if it has no entry.
pub open spec fn values_of(entries: Map<u32, ParamEntry>, id: u32) -> Seq<PortParam> {
    if entries.contains_key(id) {
        entries[id].values@
    } else {
        Seq::<PortParam>::empty()
    }
}

/// The flags of the entry of `id`, zero if it has no entry.
pub open spec fn flags_of(entries: Map<u32, ParamEntry>, id: u32) -> u32 {
    if entries.contains_key(id) {
        entries[id].flags
    } else {
        0
    }
}

impl Parameters {
    /// The entries, by parameter.
    pub closed spec fn spec_entries(&self) -> Map<u32, ParamEntry> {
        self.values@
    }

    /// Whether the collection changed since it was last published.
    pub closed spec fn spec_modified(&self) -> bool {
        self.modified
    }

    /// No parameters, unchanged.
    pub fn new() -> (r: Self)
        ensures
            r.spec_entries() == Map::<u32, ParamEntry>::empty(),
            !r.spec_modified(),
    {
        Parameters { values: BTreeMap::new(), modified: false }
    }

    /// Whether the collection changed since it was last published.
    pub fn is_modified(&self) -> (r: bool)
        ensures
            r == self.spec_modified(),
    {
        self.modified
    }

    /// Whether the collection changed since it was last published, which it
    /// then no longer counts as.
    pub fn take_modified(&mut self) -> (r: bool)
        ensures
            r == old(self).spec_modified(),
            !final(self).spec_modified(),
            final(self).spec_entries() == old(self).spec_entries(),
    {
        let r = self.modified;
        self.modified = false;
        r
    }

    /// Take the entry of `id` out, or an empty one.
    fn take_entry(&mut self, id: u32) -> (e: ParamEntry)
        ensures
            e.values@ == values_of(old(self).spec_entries(), id),
            e.flags == flags_of(old(self).spec_entries(), id),
            final(self).spec_entries() == old(self).spec_entries().remove(id),
            final(self).spec_modified() == old(self).spec_modified(),
    {
        match self.values.remove(&id) {
            Some(e) => e,
            None => ParamEntry { values: Vec::new(), flags: 0 },
        }
    }

    /// Mark the parameter `id` as readable.
    pub fn set_readable(&mut self, id: u32)
        ensures
            final(self).spec_entries().dom() == old(self).spec_entries().dom().insert(id),
            values_of(final(self).spec_entries(), id) == values_of(old(self).spec_entries(), id),
            flags_of(final(self).spec_entries(), id) == flags_of(old(self).spec_entries(), id)
                | PARAM_FLAG_READ,
            forall|k: u32|
                k != id ==> #[trigger] final(self).spec_entries().get(k) == old(
                    self,
                ).spec_entries().get(k),
            final(self).spec_modified(),
    {
        let mut e = self.take_entry(id);
        e.flags = e.flags | PARAM_FLAG_READ;
        self.values.insert(id, e);
        self.modified = true;
        proof {
            assert(self.values@.dom() =~= old(self).values@.dom().insert(id));
        }
    }

    /// Mark the parameter `id` as writable.
    pub fn set_writable(&mut self, id: u32)
        ensures
            final(self).spec_entries().dom() == old(self).spec_entries().dom().insert(id),
            values_of(final(self).spec_entries(), id) == values_of(old(self).spec_entries(), id),
            flags_of(final(self).spec_entries(), id) == flags_of(old(self).spec_entries(), id)
                | PARAM_FLAG_WRITE,
            forall|k: u32|
                k != id ==> #[trigger] final(self).spec_entries().get(k) == old(
                    self,
                ).spec_entries().get(k),
            final(self).spec_modified(),
    {
        let mut e = self.take_entry(id);
        e.flags = e.flags | PARAM_FLAG_WRITE;
        self.values.insert(id, e);
        self.modified = true;
        proof {
            assert(self.values@.dom() =~= old(self).values@.dom().insert(id));
        }
    }

    /// Set the values of the parameter `id`, replacing those it had; it
    /// becomes readable.
    pub fn set(&mut self, id: u32, values: Vec<PortParam>)
        ensures
            final(self).spec_entries().dom() == old(self).spec_entries().dom().insert(id),
            values_of(final(self).spec_entries(), id) == values@,
            flags_of(final(self).spec_entries(), id) == flags_of(old(self).spec_entries(), id)
                | PARAM_FLAG_READ,
            forall|k: u32|
                k != id ==> #[trigger] final(self).spec_entries().get(k) == old(
                    self,
                ).spec_entries().get(k),
            final(self).spec_modified(),
    {
        let e = self.take_entry(id);
        let flags = e.flags | PARAM_FLAG_READ;
        self.values.insert(id, ParamEntry { values, flags });
        self.modified = true;
        proof {
            assert(self.values@.dom() =~= old(self).values@.dom().insert(id));
        }
    }

    /// Append a value to the parameter `id`; it becomes readable.
    pub fn push(&mut self, id: u32, value: PortParam)
        ensures
            final(self).spec_entries().dom() == old(self).spec_entries().dom().insert(id),
            values_of(final(self).spec_entries(), id) == values_of(old(self).spec_entries(), id).push(
                value,
            ),
            flags_of(final(self).spec_entries(), id) == flags_of(old(self).spec_entries(), id)
                | PARAM_FLAG_READ,
            forall|k: u32|
                k != id ==> #[trigger] final(self).spec_entries().get(k) == old(
                    self,
                ).spec_entries().get(k),
            final(self).spec_modified(),
    {
        let mut e = self.take_entry(id);
        e.values.push(value);
        e.flags = e.flags | PARAM_FLAG_READ;
        self.values.insert(id, e);
        self.modified = true;
        proof {
            assert(self.values@.dom() =~= old(self).values@.dom().insert(id));
        }
    }

    /// Clear the values of the parameter `id`, which gets an entry if it has
    /// none; a removed parameter is no longer readable. Returns whether it
    /// had values.
    pub fn remove(&mut self, id: u32) -> (r: bool)
        ensures
            r == (values_of(old(self).spec_entries(), id).len() > 0),
            final(self).spec_entries().dom() == old(self).spec_entries().dom().insert(id),
            values_of(final(self).spec_entries(), id) == Seq::<PortParam>::empty(),
            flags_of(final(self).spec_entries(), id) == flags_of(old(self).spec_entries(), id)
                & !PARAM_FLAG_READ,
            forall|k: u32|
                k != id ==> #[trigger] final(self).spec_entries().get(k) == old(
                    self,
                ).spec_entries().get(k),
            final(self).spec_modified(),
    {
        let e = self.take_entry(id);
        let removed = e.values.len() > 0;
        let flags = e.flags & !PARAM_FLAG_READ;
        self.values.insert(id, ParamEntry { values: Vec::new(), flags });
        self.modified = true;
        proof {
            assert(self.values@.dom() =~= old(self).values@.dom().insert(id));
        }
        removed
    }

    /// The values of the parameter `id`; none if it has no entry.
    pub fn get(&self, id: u32) -> (r: &[PortParam])
        ensures
            r@ == values_of(self.spec_entries(), id),
    {
        match self.values.get(&id) {
            Some(e) => e.values.as_slice(),
            None => &[],
        }
    }

    /// The flags of the parameter `id`; zero if it has no entry.
    pub fn flags_of(&self, id: u32) -> (r: u32)
        ensures
            r == flags_of(self.spec_entries(), id),
    {
        match self.values.get(&id) {
            Some(e) => e.flags,
            None => 0,
        }
    }

    /// The parameters that have an entry, in increasing order.
    pub fn ids(&self) -> (r: Vec<u32>)
        ensures
            r@.to_set() == self.spec_entries().dom(),
            r@.len() == self.spec_entries().dom().len(),
            forall|i: int, j: int| 0 <= i < j < r@.len() ==> r@[i] < r@[j],
    {
        broadcast use vstd::laws_cmp::group_laws_cmp;
        let ghost all = spec_keys_iter(&self.values).remaining();
        let mut out: Vec<u32> = Vec::new();
        for k in it: self.values.keys()
            invariant
                it.seq() == all,
                out@ == all.take(it.index()).map_values(|x: &u32| *x),
        {
            out.push(*k);
        }
        proof {
            assert(out@ == all.map_values(|x: &u32| *x));
            assert(out@ =~= all.unref());
            assert(all.unref().to_set() == self.values@.dom());
            assert(vstd::std_specs::btree::increasing_seq(all));
            assert(vstd::laws_cmp::obeys_cmp::<&u32>());
            assert forall|i: int, j: int| 0 <= i < j < out@.len() implies out@[i] < out@[j] by {
                assert(vstd::std_specs::cmp::OrdSpec::cmp_spec(&all[i], &all[j]) is Less);
            }
        }
        out
    }

    /// The entries, by parameter.
    pub fn entries(&self) -> (r: &BTreeMap<u32, ParamEntry>)
        ensures
            r@ == self.spec_entries(),
    {
        &self.values
    }
}

/// Setting a parameter and then removing it leaves it without values and
/// without the readable bit, its other flags as they were before the set.
pub proof fn lemma_set_then_remove(
    before: Map<u32, ParamEntry>,
    set: Map<u32, ParamEntry>,
    removed: Map<u32, ParamEntry>,
    id: u32,
    values: Seq<PortParam>,
)
    requires
        values_of(set, id) == values,
        flags_of(set, id) == flags_of(before, id) | PARAM_FLAG_READ,
        values_of(removed, id) == Seq::<PortParam>::empty(),
        flags_of(removed, id) == flags_of(set, id) & !PARAM_FLAG_READ,
    ensures
        values_of(removed, id).len() == 0,
        flags_of(removed, id) & PARAM_FLAG_READ == 0,
        flags_of(removed, id) == flags_of(before, id) & !PARAM_FLAG_READ,
{
    let f = flags_of(before, id);
    assert(((f | 2u32) & !2u32) & 2u32 == 0 && ((f | 2u32) & !2u32) == f & !2u32) by (bit_vector);
}

} // verus!
