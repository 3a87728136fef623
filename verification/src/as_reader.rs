//! Values that can be read from through a reader that borrows them.

use vstd::prelude::*;

use crate::buf::{ArrayBuf, DynamicBuf, SliceBuf};

verus! {

/// Only the types of this crate and byte containers can be read from.
pub trait Sealed {

}

impl Sealed for Vec<u8> {

}

impl<'de> Sealed for SliceBuf<'de> {

}

impl<const N: usize> Sealed for ArrayBuf<N> {

}

impl Sealed for DynamicBuf {

}

/// A value that can be read from through a reader that borrows it.
pub trait AsReader: Sealed {
    /// Whether the value can be read from.
    spec fn readable(&self) -> bool;

    /// The bytes the reader reads.
    spec fn reader_bytes(&self) -> Seq<u8>;

    /// A reader over the bytes of the value.
    fn as_reader(&self) -> (r: SliceBuf<'_>)
        requires
            self.readable(),
        ensures
            r.wf(),
            r@ == self.reader_bytes(),
            r.spec_off() == 0,
    ;
}

impl AsReader for Vec<u8> {
    open spec fn readable(&self) -> bool {
        true
    }

    open spec fn reader_bytes(&self) -> Seq<u8> {
        self@
    }

    fn as_reader(&self) -> (r: SliceBuf<'_>) {
        SliceBuf::new(self.as_slice())
    }
}

impl<'de> AsReader for SliceBuf<'de> {
    open spec fn readable(&self) -> bool {
        self.wf()
    }

    open spec fn reader_bytes(&self) -> Seq<u8> {
        self@
    }

    fn as_reader(&self) -> (r: SliceBuf<'_>) {
        SliceBuf::new(self.as_bytes())
    }
}

impl<const N: usize> AsReader for ArrayBuf<N> {
    open spec fn readable(&self) -> bool {
        true
    }

    open spec fn reader_bytes(&self) -> Seq<u8> {
        self@
    }

    fn as_reader(&self) -> (r: SliceBuf<'_>) {
        SliceBuf::new(self.as_bytes())
    }
}

impl AsReader for DynamicBuf {
    open spec fn readable(&self) -> bool {
        true
    }

    open spec fn reader_bytes(&self) -> Seq<u8> {
        self@
    }

    fn as_reader(&self) -> (r: SliceBuf<'_>) {
        SliceBuf::new(self.as_bytes())
    }
}

} // verus!
