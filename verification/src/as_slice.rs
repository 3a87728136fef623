//! Values whose bytes can be read through a slice reader.

use vstd::prelude::*;

use crate::buf::{ArrayBuf, DynamicBuf, SliceBuf};

verus! {

/// Only the types of this crate and byte containers can be sliced.
pub trait Sealed {

}

impl Sealed for Vec<u8> {

}

impl<'de> Sealed for SliceBuf<'de> {

}

impl<const N: usize> Sealed for ArrayBuf<N> {

}

impl Sealed for DynamicBuf {

}

/// A value whose bytes can be read through a slice reader that borrows it.
pub trait AsSlice: Sealed {
    /// Whether the value can be read from.
    spec fn readable(&self) -> bool;

    /// The bytes the reader reads.
    spec fn slice_bytes(&self) -> Seq<u8>;

    /// A reader over the bytes of the value.
    fn as_slice(&self) -> (r: SliceBuf<'_>)
        requires
            self.readable(),
        ensures
            r.wf(),
            r@ == self.slice_bytes(),
            r.spec_off() == 0,
    ;
}

impl AsSlice for Vec<u8> {
    open spec fn readable(&self) -> bool {
        true
    }

    open spec fn slice_bytes(&self) -> Seq<u8> {
        self@
    }

    fn as_slice(&self) -> (r: SliceBuf<'_>) {
        SliceBuf::new(self.as_slice())
    }
}

impl<'de> AsSlice for SliceBuf<'de> {
    open spec fn readable(&self) -> bool {
        self.wf()
    }

    open spec fn slice_bytes(&self) -> Seq<u8> {
        self@
    }

    fn as_slice(&self) -> (r: SliceBuf<'_>) {
        SliceBuf::new(self.as_bytes())
    }
}

impl<const N: usize> AsSlice for ArrayBuf<N> {
    open spec fn readable(&self) -> bool {
        true
    }

    open spec fn slice_bytes(&self) -> Seq<u8> {
        self@
    }

    fn as_slice(&self) -> (r: SliceBuf<'_>) {
        SliceBuf::new(self.as_bytes())
    }
}

impl AsSlice for DynamicBuf {
    open spec fn readable(&self) -> bool {
        true
    }

    open spec fn slice_bytes(&self) -> Seq<u8> {
        self@
    }

    fn as_slice(&self) -> (r: SliceBuf<'_>) {
        SliceBuf::new(self.as_bytes())
    }
}

} // verus!
