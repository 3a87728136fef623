use vstd::prelude::*;

use crate::bytes::BytesInhabited;

verus! {

/// The type of a POD, as stored in its header.
#[derive(Debug, Clone, Copy, PartialEq, Eq, Hash)]
pub struct Type(pub u32);

/// No value.
pub const NONE: u32 = 1;
/// A boolean, stored as a 32-bit integer.
pub const BOOL: u32 = 2;
/// An identifier.
pub const ID: u32 = 3;
/// A signed 32-bit integer.
pub const INT: u32 = 4;
/// A signed 64-bit integer.
pub const LONG: u32 = 5;
/// A string.
pub const STRING: u32 = 8;
/// A sequence of bytes.
pub const BYTES: u32 = 9;
/// A fraction: a numerator and a denominator.
pub const FRACTION: u32 = 11;
/// An array of equally sized children.
pub const ARRAY: u32 = 13;
/// A struct of children.
pub const STRUCT: u32 = 14;
/// An object with properties.
pub const OBJECT: u32 = 15;
/// A sequence of controls.
pub const SEQUENCE: u32 = 16;
/// A file descriptor.
pub const FD: u32 = 18;
/// A choice among children.
pub const CHOICE: u32 = 19;
/// A nested POD.
pub const POD: u32 = 20;

impl Type {
    /// Convert the type into a `u32`.
    pub fn into_u32(self) -> (v: u32)
        ensures
            v == self.0,
    {
        self.0
    }

    /// Convert a `u32` into a type.
    pub fn from_u32(v: u32) -> (t: Self)
        ensures
            t.0 == v,
    {
        Type(v)
    }

    /// The size of a value of the type when it has a fixed size.
    pub fn size(self) -> (r: Option<usize>)
        ensures
            r == spec_type_size(self.0),
    {
        if self.0 == NONE {
            Some(0)
        } else if self.0 == BOOL || self.0 == ID || self.0 == INT {
            Some(4)
        } else if self.0 == LONG {
            Some(8)
        } else if self.0 == FD {
            Some(8)
        } else {
            None
        }
    }
}

/// The size of a value of type `ty` when it has a fixed size.
pub open spec fn spec_type_size(ty: u32) -> Option<usize> {
    if ty == NONE {
        Some(0)
    } else if ty == BOOL || ty == ID || ty == INT {
        Some(4)
    } else if ty == LONG || ty == FD {
        Some(8)
    } else {
        None
    }
}

/// The fixed size of a type is the size of its value: booleans,
/// identifiers and integers take four bytes, long integers and file
/// descriptors eight, none nothing; a string, bytes, a struct, an array, an
/// object or a choice has no fixed size.
pub proof fn lemma_type_sizes()
    ensures
        spec_type_size(NONE) == Some(0usize),
        spec_type_size(BOOL) == Some(4usize),
        spec_type_size(ID) == Some(4usize),
        spec_type_size(INT) == Some(4usize),
        spec_type_size(LONG) == Some(8usize),
        spec_type_size(FD) == Some(8usize),
        spec_type_size(ID) == Some(u32::spec_size() as usize),
        spec_type_size(INT) == Some(u32::spec_size() as usize),
        spec_type_size(LONG) == Some(u64::spec_size() as usize),
        spec_type_size(STRING) is None,
        spec_type_size(BYTES) is None,
        spec_type_size(STRUCT) is None,
        spec_type_size(ARRAY) is None,
        spec_type_size(OBJECT) is None,
        spec_type_size(CHOICE) is None,
{
}

} // verus!
