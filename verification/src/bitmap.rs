//! Bitmaps: sequences of bytes whose bits are flags.

use vstd::prelude::*;

verus! {

/// A borrowed bitmap.
#[derive(Clone, Copy)]
pub struct Bitmap<'a> {
    data: &'a [u8],
}

/// An owned bitmap.
#[derive(Clone, PartialEq, Eq)]
pub struct OwnedBitmap {
    data: Vec<u8>,
}

impl<'a> View for Bitmap<'a> {
    type V = Seq<u8>;

    closed spec fn view(&self) -> Seq<u8> {
        self.data@
    }
}

impl View for OwnedBitmap {
    type V = Seq<u8>;

    closed spec fn view(&self) -> Seq<u8> {
        self.data@
    }
}

impl<'a> Bitmap<'a> {
    /// Construct a bitmap over the given bytes.
    pub fn new(data: &'a [u8]) -> (b: Self)
        ensures
            b@ == data@,
    {
        Bitmap { data }
    }

    /// The bytes of the bitmap.
    pub fn as_bytes(&self) -> (s: &'a [u8])
        ensures
            s@ == self@,
    {
        self.data
    }

    /// Copy the bitmap into an owned one.
    pub fn to_owned(&self) -> (o: OwnedBitmap)
        ensures
            o@ == self@,
    {
        OwnedBitmap::new(vstd::slice::slice_to_vec(self.data))
    }

    /// Whether the bitmap holds exactly the bytes of `other`.
    pub fn eq_bytes(&self, other: &[u8]) -> (b: bool)
        ensures
            b == (self@ == other@),
    {
        if self.data.len() != other.len() {
            return false;
        }
        let mut i: usize = 0;
        while i < other.len()
            invariant
                0 <= i <= other.len(),
                self.data@.len() == other@.len(),
                forall|j: int| 0 <= j < i ==> self.data@[j] == other@[j],
            decreases other.len() - i,
        {
            if self.data[i] != other[i] {
                return false;
            }
            i = i + 1;
        }
        proof {
            assert(self.data@ =~= other@);
        }
        true
    }
}

impl OwnedBitmap {
    /// Construct an owned bitmap from a vector of bytes.
    pub fn new(data: Vec<u8>) -> (b: Self)
        ensures
            b@ == data@,
    {
        OwnedBitmap { data }
    }

    /// Borrow the owned bitmap.
    pub fn as_bitmap(&self) -> (b: Bitmap<'_>)
        ensures
            b@ == self@,
    {
        Bitmap::new(self.data.as_slice())
    }
}

} // verus!
