use vstd::prelude::*;

verus! {

/// The kind of an error raised while building or reading a POD.
#[derive(Debug, Clone, Copy, PartialEq, Eq)]
pub enum ErrorKind {
    /// A write went past the capacity of a fixed buffer.
    BufferOverflow,
    /// A read went past the data available in a buffer.
    BufferUnderflow,
    /// A size did not fit in the integer type that holds it.
    SizeOverflow,
    /// A reserved position is smaller than what was written into it.
    ReservedSizeMismatch { expected: usize, actual: usize },
    /// A position does not match the size of what was written into it.
    PositionSizeMismatch { expected: usize, actual: usize },
    /// A reserved position lies outside of the written data.
    ReservedOverflow { write: usize, len: usize, capacity: usize },
    /// The capacity of a fixed buffer was exceeded.
    CapacityError,
    /// Memory could not be reserved.
    AllocError,
    /// A value of one type was found where another was expected.
    Expected { expected_type: u32, actual_type: u32 },
    /// A child value is larger than what its container allows.
    ChildSizeMismatch { expected: usize, actual: usize },
    /// An array or choice was given a child type without a fixed size.
    UnsizedTypeInArray { ty: u32 },
    /// The size in a header does not fit the type it names.
    InvalidSize { size: usize },
    /// A POD of a type that cannot be read here.
    UnsupportedType { ty: u32 },
}

/// An error raised while building or reading a POD.
#[derive(Debug, Clone, Copy, PartialEq, Eq)]
pub struct Error {
    pub kind: ErrorKind,
}

impl Error {
    /// Construct an error of the given kind.
    pub fn new(kind: ErrorKind) -> (e: Self)
        ensures
            e.kind == kind,
    {
        Error { kind }
    }

    /// The kind of the error.
    pub fn kind(&self) -> (k: ErrorKind)
        ensures
            k == self.kind,
    {
        self.kind
    }
}

} // verus!
