//! Activation records of the peers that a node wakes when it is done.

use vstd::prelude::*;

use super::region::Region;

verus! {

/// The version of the activation protocol to use.
#[derive(Debug, Clone, Copy, PartialEq, Eq, Structural)]
pub enum Version {
    V0,
    V1,
}

/// The version of the activation protocol a server speaks, from the
/// version in its activation record.
pub open spec fn spec_version(server_version: u32) -> Version {
    if server_version == 0 {
        Version::V0
    } else {
        Version::V1
    }
}

/// The activation record of a peer, with the descriptor to signal it
/// through.
pub struct PeerActivation {
    /// The peer the record belongs to.
    pub peer_id: u32,
    /// The descriptor to signal the peer through.
    pub signal_fd: i32,
    /// The region of the record.
    pub region: Region<()>,
    /// The version of the protocol to signal the peer with.
    pub version: Version,
}

impl PeerActivation {
    /// The record of `peer_id` in `region`, whose server wrote
    /// `server_version` into it.
    pub fn new(peer_id: u32, signal_fd: i32, region: Region<()>, server_version: u32) -> (r: Self)
        ensures
            r.peer_id == peer_id,
            r.signal_fd == signal_fd,
            r.region == region,
            r.version == spec_version(server_version),
    {
        let version = if server_version == 0 {
            Version::V0
        } else {
            Version::V1
        };
        PeerActivation { peer_id, signal_fd, region, version }
    }
}

/// What signalling a peer comes to once this node has taken itself off the
/// peer's pending count.
#[derive(Debug, Clone, Copy, PartialEq, Eq, Structural)]
pub enum SignalStep {
    /// Others are still pending: the peer is not signalled.
    Wait,
    /// Mark the peer triggered and signal it.
    Trigger,
    /// Signal the peer only if its status goes from not triggered to
    /// triggered.
    TriggerIfNotTriggered,
}

impl PeerActivation {
    /// The step after this node took itself off the peer's pending count,
    /// which was `pending_before` just before: only the last one pending
    /// signals, the first protocol version unconditionally, the second only
    /// when no one triggered the peer already.
    pub fn after_decrement(&self, pending_before: u32) -> (r: SignalStep)
        ensures
            pending_before != 1 ==> r == SignalStep::Wait,
            pending_before == 1 && self.version == Version::V0 ==> r == SignalStep::Trigger,
            pending_before == 1 && self.version == Version::V1 ==> r
                == SignalStep::TriggerIfNotTriggered,
    {
        if pending_before != 1 {
            SignalStep::Wait
        } else {
            match self.version {
                Version::V0 => SignalStep::Trigger,
                Version::V1 => SignalStep::TriggerIfNotTriggered,
            }
        }
    }
}

} // verus!
