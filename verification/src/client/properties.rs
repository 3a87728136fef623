//! Properties of an object: string keys with string values, in the order
//! they were first set, with a mark of whether they changed since they were
//! last published.

use vstd::prelude::*;

verus! {

/// Whether two byte strings are equal.
pub fn bytes_eq(a: &[u8], b: &[u8]) -> (r: bool)
    ensures
        r == (a@ == b@),
{
    if a.len() != b.len() {
        return false;
    }
    let mut i: usize = 0;
    while i < a.len()
        invariant
            a@.len() == b@.len(),
            0 <= i <= a@.len(),
            forall|k: int| 0 <= k < i ==> a@[k] == b@[k],
        decreases a@.len() - i,
    {
        if a[i] != b[i] {
            return false;
        }
        i = i + 1;
    }
    assert(a@ =~= b@);
    true
}

/// Properties: keys with values, each key once.
pub struct Properties {
    pairs: Vec<(Vec<u8>, Vec<u8>)>,
    modified: bool,
}

impl View for Properties {
    type V = Seq<(Seq<u8>, Seq<u8>)>;

    closed spec fn view(&self) -> Seq<(Seq<u8>, Seq<u8>)> {
        self.pairs@.map_values(|p: (Vec<u8>, Vec<u8>)| (p.0@, p.1@))
    }
}

impl Properties {
    /// Whether the properties changed since they were last published.
    pub closed spec fn spec_modified(&self) -> bool {
        self.modified
    }

    /// No properties, unchanged.
    pub fn new() -> (r: Self)
        ensures
            r@ == Seq::<(Seq<u8>, Seq<u8>)>::empty(),
            !r.spec_modified(),
    {
        let r = Properties { pairs: Vec::new(), modified: false };
        assert(r@ =~= Seq::<(Seq<u8>, Seq<u8>)>::empty());
        r
    }

    /// Set the value of `key`: in its place if it is there, else at the end.
    /// The properties are then modified.
    pub fn insert(&mut self, key: Vec<u8>, value: Vec<u8>)
        ensures
            final(self).spec_modified(),
            (exists|i: int| 0 <= i < old(self)@.len() && old(self)@[i].0 == key@) ==> exists|i: int|
                0 <= i < old(self)@.len() && old(self)@[i].0 == key@ && final(self)@ == old(
                self,
            )@.update(i, (key@, value@)),
            !(exists|i: int| 0 <= i < old(self)@.len() && old(self)@[i].0 == key@) ==> final(self)@
                == old(self)@.push((key@, value@)),
    {
        let mut i: usize = 0;
        while i < self.pairs.len()
            invariant
                0 <= i <= self.pairs@.len(),
                self.pairs == old(self).pairs,
                forall|k: int| 0 <= k < i ==> self@[k].0 != key@,
                self@ == old(self)@,
            decreases self.pairs@.len() - i,
        {
            if bytes_eq(self.pairs[i].0.as_slice(), key.as_slice()) {
                let ghost before = self@;
                let ghost k = key@;
                let ghost v = value@;
                self.pairs.set(i, (key, value));
                self.modified = true;
                assert(self@ =~= before.update(i as int, (k, v)));
                assert(before[i as int].0 == k);
                return ;
            }
            i = i + 1;
        }
        let ghost before = self@;
        let ghost k = key@;
        let ghost v = value@;
        self.pairs.push((key, value));
        self.modified = true;
        assert(self@ =~= before.push((k, v)));
    }

    /// The number of properties.
    pub fn len(&self) -> (r: usize)
        ensures
            r == self@.len(),
    {
        self.pairs.len()
    }

    /// The properties, in order.
    pub fn pairs(&self) -> (r: &[(Vec<u8>, Vec<u8>)])
        ensures
            r@.len() == self@.len(),
            forall|i: int| 0 <= i < r@.len() ==> (#[trigger] r@[i].0@, r@[i].1@) == self@[i],
    {
        self.pairs.as_slice()
    }

    /// Whether the properties changed since they were last published.
    pub fn is_modified(&self) -> (r: bool)
        ensures
            r == self.spec_modified(),
    {
        self.modified
    }

    /// Whether the properties changed since they were last published, which
    /// they then no longer count as.
    pub fn take_modified(&mut self) -> (r: bool)
        ensures
            r == old(self).spec_modified(),
            !final(self).spec_modified(),
            final(self)@ == old(self)@,
    {
        let r = self.modified;
        self.modified = false;
        r
    }
}

} // verus!
