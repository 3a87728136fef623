use vstd::prelude::*;

use super::CapacityError;

verus! {

/// A vector with a fixed capacity of `N` elements.
pub struct ArrayVec<T, const N: usize> {
    data: Vec<T>,
}

impl<T, const N: usize> View for ArrayVec<T, N> {
    type V = Seq<T>;

    closed spec fn view(&self) -> Seq<T> {
        self.data@
    }
}

impl<T, const N: usize> ArrayVec<T, N> {
    /// The capacity bound holds: at most `N` elements are stored.
    pub closed spec fn wf(&self) -> bool {
        self.data.len() <= N
    }

    /// Construct an empty vector.
    pub fn new() -> (v: Self)
        ensures
            v.wf(),
            v@ == Seq::<T>::empty(),
    {
        ArrayVec { data: Vec::new() }
    }

    /// Push a value, failing if the vector is full.
    pub fn push(&mut self, value: T) -> (r: Result<(), CapacityError>)
        requires
            old(self).wf(),
        ensures
            final(self).wf(),
            old(self)@.len() < N ==> r is Ok && final(self)@ == old(self)@.push(value),
            old(self)@.len() >= N ==> r is Err && final(self)@ == old(self)@,
    {
        if self.data.len() >= N {
            return Err(CapacityError);
        }
        self.data.push(value);
        Ok(())
    }

    /// The number of stored elements.
    pub fn len(&self) -> (n: usize)
        ensures
            n == self@.len(),
    {
        self.data.len()
    }

    /// Whether no elements are stored.
    pub fn is_empty(&self) -> (b: bool)
        ensures
            b == (self@.len() == 0),
    {
        self.data.len() == 0
    }

    /// The capacity of the vector.
    pub fn capacity(&self) -> (n: usize)
        ensures
            n == N,
    {
        N
    }

    /// Append all of `slice`, failing without change if it does not fit.
    pub fn extend_from_slice(&mut self, slice: &[T]) -> (r: Result<(), CapacityError>)
        where
            T: Copy,
        requires
            old(self).wf(),
        ensures
            final(self).wf(),
            r is Ok <==> old(self)@.len() + slice@.len() <= N,
            r is Ok ==> final(self)@ == old(self)@ + slice@,
            r is Err ==> final(self)@ == old(self)@,
    {
        if slice.len() > N - self.data.len() {
            return Err(CapacityError);
        }
        let ghost start = self.data@;
        let mut i: usize = 0;
        while i < slice.len()
            invariant
                0 <= i <= slice.len(),
                start.len() + slice@.len() <= N,
                self.data@ == start + slice@.take(i as int),
            decreases slice.len() - i,
        {
            self.data.push(slice[i]);
            proof {
                assert(slice@.take(i + 1) =~= slice@.take(i as int).push(slice@[i as int]));
            }
            i = i + 1;
        }
        proof {
            assert(slice@.take(i as int) =~= slice@);
        }
        Ok(())
    }

    /// Remove and return the last element.
    pub fn pop(&mut self) -> (r: Option<T>)
        requires
            old(self).wf(),
        ensures
            final(self).wf(),
            old(self)@.len() == 0 ==> r is None && final(self)@ == old(self)@,
            old(self)@.len() > 0 ==> r == Some(old(self)@.last()) && final(self)@
                == old(self)@.drop_last(),
    {
        self.data.pop()
    }

    /// Construct a full vector from an array.
    pub fn from_array(words: [T; N]) -> (v: Self)
        where
            T: Copy,
        ensures
            v.wf(),
            v@ == words@,
    {
        ArrayVec { data: vstd::slice::slice_to_vec(words.as_slice()) }
    }

    /// Construct a vector holding the elements of `words`.
    pub fn from_slice(words: &[T]) -> (v: Self)
        where
            T: Copy,
        requires
            words@.len() <= N,
        ensures
            v.wf(),
            v@ == words@,
    {
        ArrayVec { data: vstd::slice::slice_to_vec(words) }
    }

    /// Remove all elements.
    pub fn clear(&mut self)
        ensures
            final(self).wf(),
            final(self)@ == Seq::<T>::empty(),
    {
        self.data.clear();
    }

    /// The stored elements.
    pub fn as_slice(&self) -> (s: &[T])
        ensures
            s@ == self@,
    {
        self.data.as_slice()
    }

    /// The stored elements, mutably.
    pub fn as_slice_mut(&mut self) -> (s: &mut [T])
        ensures
            s@ == old(self)@,
            final(self)@ == final(s)@,
    {
        self.data.as_mut_slice()
    }
}

} // verus!
