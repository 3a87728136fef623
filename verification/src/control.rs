//! Controls: timed values inside a sequence POD.

use vstd::prelude::*;

use crate::pod::Field;

verus! {

/// A control item inside of a sequence.
pub struct Control {
    offset: u32,
    ty: u32,
    value: Field,
}

impl Control {
    /// Construct a control.
    pub fn new(offset: u32, ty: u32, value: Field) -> (c: Self)
        ensures
            c.spec_offset() == offset,
            c.spec_ty() == ty,
            c.spec_value() == value,
    {
        Control { offset, ty, value }
    }

    /// The offset of the control.
    pub closed spec fn spec_offset(&self) -> u32 {
        self.offset
    }

    /// The type of the control.
    pub closed spec fn spec_ty(&self) -> u32 {
        self.ty
    }

    /// The value of the control.
    pub closed spec fn spec_value(&self) -> Field {
        self.value
    }

    /// Get the offset of the control.
    pub fn offset(&self) -> (o: u32)
        ensures
            o == self.spec_offset(),
    {
        self.offset
    }

    /// Get the type of the control.
    pub fn ty(&self) -> (t: u32)
        ensures
            t == self.spec_ty(),
    {
        self.ty
    }

    /// Take the value of the control.
    pub fn value(self) -> (v: Field)
        ensures
            v == self.spec_value(),
    {
        self.value
    }
}

} // verus!
