use vstd::prelude::*;

pub mod array_buf;
pub use self::array_buf::{ArrayBuf, ArrayBufPos};

pub mod array_vec;

pub mod slice_buf;
pub use self::slice_buf::SliceBuf;

pub mod dynamic_buf;
pub use self::dynamic_buf::{AllocError, DynamicBuf};

pub use self::array_vec::ArrayVec;

pub mod writer_slice;
pub use self::writer_slice::WriterSlice;

verus! {

/// Capacity overflow when writing to a fixed-size buffer.
#[derive(Debug, Clone, Copy, PartialEq, Eq)]
pub struct CapacityError;

/// Construct a reader over a slice.
pub fn slice(data: &[u8]) -> (s: SliceBuf<'_>)
    ensures
        s.wf(),
        s@ == data@,
        s.spec_off() == 0,
{
    SliceBuf::new(data)
}

} // verus!
