//! Events a stream reports to the client implementation.

use vstd::prelude::*;

use super::id::{ClientNodeId, PortId};

verus! {

/// A parameter of a client node has been set.
#[derive(Debug, Clone, Copy, PartialEq, Eq, Structural)]
pub struct SetNodeParamEvent {
    pub node_id: ClientNodeId,
    pub param: u32,
}

/// A parameter of a client node has been removed.
#[derive(Debug, Clone, Copy, PartialEq, Eq, Structural)]
pub struct RemoveNodeParamEvent {
    pub node_id: ClientNodeId,
    pub param: u32,
}

/// A parameter of the port of a client node has been set.
#[derive(Debug, Clone, Copy, PartialEq, Eq, Structural)]
pub struct SetPortParamEvent {
    pub node_id: ClientNodeId,
    pub direction: u32,
    pub port_id: PortId,
    pub param: u32,
}

/// A parameter of the port of a client node has been removed.
#[derive(Debug, Clone, Copy, PartialEq, Eq, Structural)]
pub struct RemovePortParamEvent {
    pub node_id: ClientNodeId,
    pub direction: u32,
    pub port_id: PortId,
    pub param: u32,
}

/// An event about things which might interest a client implementation.
#[derive(Debug, Clone, Copy, PartialEq, Eq, Structural)]
pub enum StreamEvent {
    Process(ClientNodeId),
    NodeCreated(ClientNodeId),
    SetNodeParam(SetNodeParamEvent),
    RemoveNodeParam(RemoveNodeParamEvent),
    SetPortParam(SetPortParamEvent),
    RemovePortParam(RemovePortParamEvent),
}

} // verus!
