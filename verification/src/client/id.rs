//! Identifiers of objects, nodes, ports and mixes.

use vstd::prelude::*;

verus! {

/// An identifier allocated by the client for an object.
#[derive(Debug, Clone, Copy, PartialEq, Eq, Structural, Hash)]
pub struct LocalId(pub u32);

/// An identifier assigned by the server to a global object.
#[derive(Debug, Clone, Copy, PartialEq, Eq, Structural, Hash)]
pub struct GlobalId(pub u32);

/// The identifier of a client node: its key in the collection of nodes.
#[derive(Debug, Clone, Copy, PartialEq, Eq, Structural, Hash)]
pub struct ClientNodeId(pub u32);

/// The identifier of a port, unique per direction: its position among the
/// ports of that direction.
#[derive(Debug, Clone, Copy, PartialEq, Eq, Structural, Hash)]
pub struct PortId(pub u32);

/// The identifier of a mix, that is of one link of a port.
#[derive(Debug, Clone, Copy, PartialEq, Eq, Structural, Hash)]
pub struct MixId(pub u32);

impl LocalId {
    /// Create an identifier from a `u32`.
    pub fn new(id: u32) -> (r: Self)
        ensures
            r.0 == id,
    {
        LocalId(id)
    }

    /// The identifier as a `u32`.
    pub fn into_u32(self) -> (r: u32)
        ensures
            r == self.0,
    {
        self.0
    }

    /// The identifier as an index.
    pub fn index(self) -> (r: usize)
        ensures
            r == self.0,
    {
        self.0 as usize
    }
}

impl GlobalId {
    /// Create an identifier from a `u32`.
    pub fn new(id: u32) -> (r: Self)
        ensures
            r.0 == id,
    {
        GlobalId(id)
    }

    /// The identifier as a `u32`.
    pub fn into_u32(self) -> (r: u32)
        ensures
            r == self.0,
    {
        self.0
    }

    /// The identifier as an index.
    pub fn index(self) -> (r: usize)
        ensures
            r == self.0,
    {
        self.0 as usize
    }
}

impl ClientNodeId {
    /// Create an identifier from a `u32`.
    pub fn new(id: u32) -> (r: Self)
        ensures
            r.0 == id,
    {
        ClientNodeId(id)
    }

    /// The identifier as a `u32`.
    pub fn into_u32(self) -> (r: u32)
        ensures
            r == self.0,
    {
        self.0
    }

    /// The index of the node; a `u32` always fits in a `usize`.
    pub fn index(self) -> (r: usize)
        ensures
            r == self.0,
    {
        self.0 as usize
    }
}

impl PortId {
    /// Create an identifier from a `u32`.
    pub fn new(id: u32) -> (r: Self)
        ensures
            r.0 == id,
    {
        PortId(id)
    }

    /// The index of the port among the ports of its direction.
    pub fn index(self) -> (r: usize)
        ensures
            r == self.0,
    {
        self.0 as usize
    }
}

/// The raw value of the zero mix.
pub const MIX_ZERO: u32 = 0;

/// The raw value of the invalid mix, which stands for every mix.
pub const MIX_INVALID: u32 = 0xffff_ffff;

impl MixId {
    /// The zero mix identifier.
    pub fn zero() -> (r: Self)
        ensures
            r.0 == MIX_ZERO,
    {
        MixId(MIX_ZERO)
    }

    /// The invalid mix identifier, which stands for every mix.
    pub fn invalid() -> (r: Self)
        ensures
            r.0 == MIX_INVALID,
    {
        MixId(MIX_INVALID)
    }

    /// Create an identifier from a `u32`.
    pub fn new(id: u32) -> (r: Self)
        ensures
            r.0 == id,
    {
        MixId(id)
    }

    /// Create an identifier from the `i32` of the wire format, read as the
    /// `u32` with the same bits.
    pub fn from_i32(id: i32) -> (r: Self)
        ensures
            r.0 == id as u32,
    {
        MixId(id as u32)
    }

    /// The identifier as an index.
    pub fn index(self) -> (r: usize)
        ensures
            r == self.0,
    {
        self.0 as usize
    }
}

} // verus!
