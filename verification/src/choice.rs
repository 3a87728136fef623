//! The kinds of choice PODs.

use vstd::prelude::*;

verus! {

/// The type of a choice.
#[derive(Debug, Clone, Copy, PartialEq, Eq, Hash)]
pub struct ChoiceType(pub u32);

/// Only the first child is a valid option.
pub const NONE: u32 = 0;
/// The first child is the default; options lie between the second and third.
pub const RANGE: u32 = 1;
/// Like a range, in steps of the fourth child.
pub const STEP: u32 = 2;
/// The first child is the default; options are any of the children.
pub const ENUM: u32 = 3;
/// The first child is the default; options are any of the children as flags.
pub const FLAGS: u32 = 4;

impl ChoiceType {
    /// Convert the choice into a `u32`.
    pub fn into_u32(self) -> (v: u32)
        ensures
            v == self.0,
    {
        self.0
    }

    /// Convert a `u32` into a choice.
    pub fn from_u32(value: u32) -> (c: Self)
        ensures
            c.0 == value,
    {
        ChoiceType(value)
    }

    /// Whether the choice is one of the known kinds.
    pub fn is_known(self) -> (b: bool)
        ensures
            b == (self.0 <= FLAGS),
    {
        self.0 <= FLAGS
    }
}

} // verus!
