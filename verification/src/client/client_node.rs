//! Client nodes: the nodes this client exports to the server, and the
//! collection they are kept in.

use std::collections::BTreeMap;

use slab::Slab;
use vstd::prelude::*;

use super::activation::PeerActivation;
use super::id::ClientNodeId;
use super::ports::Ports;
use super::region::Region;

verus! {

broadcast use vstd::std_specs::btree::group_btree_axioms;

/// What must be written to the `active_driver_id` field of the activation
/// record of a node after its regions changed.
#[derive(Debug, Clone, Copy, PartialEq, Eq, Structural)]
pub enum DriverUpdate {
    /// The node has no activation record: nothing is written.
    Nothing,
    /// The node has no position region: the invalid identifier is written.
    Invalid,
    /// The identifier of the clock in the position region is written.
    FromPosition,
}

/// A node that this client exports to the server.
pub struct ClientNode {
    /// The identifier of the node.
    pub id: u32,
    /// The activation record of the node.
    pub activation: Option<Region<()>>,
    /// The activation records of the nodes that depend on this one.
    pub peer_activations: Vec<PeerActivation>,
    /// The ports of the node.
    pub ports: Ports,
    /// The descriptor the node is woken through.
    pub read_fd: Option<i32>,
    /// The token of the read descriptor.
    pub read_token: u64,
    /// The descriptor the node wakes its peers through.
    pub write_fd: Option<i32>,
    /// The token of the write descriptor.
    pub write_token: u64,
    /// The clock region of the node.
    pub io_clock: Option<Region<()>>,
    /// The control region of the node.
    pub io_control: Option<Region<[u8]>>,
    /// The position region of the node.
    pub io_position: Option<Region<()>>,
    params: BTreeMap<u32, Vec<Vec<u8>>>,
    modified: bool,
}

/// What must be written to the activation record, given whether the node
/// has one and whether it has a position region.
pub open spec fn driver_update(has_activation: bool, has_position: bool) -> DriverUpdate {
    if !has_activation {
        DriverUpdate::Nothing
    } else if !has_position {
        DriverUpdate::Invalid
    } else {
        DriverUpdate::FromPosition
    }
}

/// Two nodes agree on their identifier, ports, descriptors and peers.
pub open spec fn node_same(a: ClientNode, b: ClientNode) -> bool {
    &&& a.spec_id() == b.spec_id()
    &&& a.spec_ports() == b.spec_ports()
    &&& a.spec_fds() == b.spec_fds()
    &&& a.spec_peer_activations() == b.spec_peer_activations()
}

impl ClientNode {
    /// The identifier of the node.
    pub closed spec fn spec_id(&self) -> u32 {
        self.id
    }

    /// The ports of the node.
    pub closed spec fn spec_ports(&self) -> Ports {
        self.ports
    }

    /// The descriptors the node is woken through and wakes its peers
    /// through, with their tokens.
    pub closed spec fn spec_fds(&self) -> (Option<i32>, u64, Option<i32>, u64) {
        (self.read_fd, self.read_token, self.write_fd, self.write_token)
    }

    /// The activation records of the peers of the node.
    pub closed spec fn spec_peer_activations(&self) -> Seq<PeerActivation> {
        self.peer_activations@
    }

    /// The parameters of the node, each with its encoded values.
    pub closed spec fn spec_params(&self) -> Map<u32, Vec<Vec<u8>>> {
        self.params@
    }

    /// Whether the node changed since it was last published.
    pub closed spec fn spec_modified(&self) -> bool {
        self.modified
    }

    /// The regions of the node: its activation record, clock, control and
    /// position.
    pub closed spec fn spec_io(&self) -> (
        Option<Region<()>>,
        Option<Region<()>>,
        Option<Region<[u8]>>,
        Option<Region<()>>,
    ) {
        (self.activation, self.io_clock, self.io_control, self.io_position)
    }

    /// A node without regions, descriptors or parameters, which counts as
    /// changed.
    pub fn new(id: u32, ports: Ports, write_token: u64, read_token: u64) -> (r: Self)
        ensures
            r.spec_id() == id,
            r.spec_ports() == ports,
            r.spec_fds() == (None::<i32>, read_token, None::<i32>, write_token),
            r.spec_io() == (
                None::<Region<()>>,
                None::<Region<()>>,
                None::<Region<[u8]>>,
                None::<Region<()>>,
            ),
            r.spec_peer_activations().len() == 0,
            r.spec_params() == Map::<u32, Vec<Vec<u8>>>::empty(),
            r.spec_modified(),
    {
        ClientNode {
            id,
            activation: None,
            peer_activations: Vec::new(),
            ports,
            read_fd: None,
            read_token,
            write_fd: None,
            write_token,
            io_clock: None,
            io_control: None,
            io_position: None,
            params: BTreeMap::new(),
            modified: true,
        }
    }

    /// What must be written to the activation record now.
    pub fn update_activation_record(&self) -> (r: DriverUpdate)
        ensures
            r == driver_update(self.spec_io().0 is Some, self.spec_io().3 is Some),
    {
        if self.activation.is_none() {
            DriverUpdate::Nothing
        } else if self.io_position.is_none() {
            DriverUpdate::Invalid
        } else {
            DriverUpdate::FromPosition
        }
    }

    /// Take the activation record away; returns it and what must then be
    /// written.
    pub fn take_activation(&mut self) -> (r: (Option<Region<()>>, DriverUpdate))
        ensures
            r.0 == old(self).spec_io().0,
            final(self).spec_io() == (
                None::<Region<()>>,
                old(self).spec_io().1,
                old(self).spec_io().2,
                old(self).spec_io().3,
            ),
            r.1 == DriverUpdate::Nothing,
            node_same(*final(self), *old(self)),
            final(self).spec_params() == old(self).spec_params(),
            final(self).spec_modified() == old(self).spec_modified(),
    {
        let old = self.activation.take();
        (old, self.update_activation_record())
    }

    /// Replace the activation record; returns the old one and what must
    /// then be written.
    pub fn replace_activation(&mut self, activation: Region<()>) -> (r: (
        Option<Region<()>>,
        DriverUpdate,
    ))
        ensures
            r.0 == old(self).spec_io().0,
            final(self).spec_io() == (
                Some(activation),
                old(self).spec_io().1,
                old(self).spec_io().2,
                old(self).spec_io().3,
            ),
            r.1 == driver_update(true, old(self).spec_io().3 is Some),
            node_same(*final(self), *old(self)),
            final(self).spec_params() == old(self).spec_params(),
            final(self).spec_modified() == old(self).spec_modified(),
    {
        let old = self.activation.take();
        self.activation = Some(activation);
        (old, self.update_activation_record())
    }

    /// Take the position region away; returns it and what must then be
    /// written.
    pub fn take_io_position(&mut self) -> (r: (Option<Region<()>>, DriverUpdate))
        ensures
            r.0 == old(self).spec_io().3,
            final(self).spec_io() == (
                old(self).spec_io().0,
                old(self).spec_io().1,
                old(self).spec_io().2,
                None::<Region<()>>,
            ),
            r.1 == driver_update(old(self).spec_io().0 is Some, false),
            node_same(*final(self), *old(self)),
            final(self).spec_params() == old(self).spec_params(),
            final(self).spec_modified() == old(self).spec_modified(),
    {
        let old = self.io_position.take();
        (old, self.update_activation_record())
    }

    /// Replace the position region; returns the old one and what must then
    /// be written.
    pub fn replace_io_position(&mut self, io_position: Region<()>) -> (r: (
        Option<Region<()>>,
        DriverUpdate,
    ))
        ensures
            r.0 == old(self).spec_io().3,
            final(self).spec_io() == (
                old(self).spec_io().0,
                old(self).spec_io().1,
                old(self).spec_io().2,
                Some(io_position),
            ),
            r.1 == driver_update(old(self).spec_io().0 is Some, true),
            node_same(*final(self), *old(self)),
            final(self).spec_params() == old(self).spec_params(),
            final(self).spec_modified() == old(self).spec_modified(),
    {
        let old = self.io_position.take();
        self.io_position = Some(io_position);
        (old, self.update_activation_record())
    }

    /// Replace the clock region, returning the old one.
    pub fn replace_io_clock(&mut self, io_clock: Option<Region<()>>) -> (r: Option<Region<()>>)
        ensures
            r == old(self).spec_io().1,
            final(self).spec_io() == (
                old(self).spec_io().0,
                io_clock,
                old(self).spec_io().2,
                old(self).spec_io().3,
            ),
            node_same(*final(self), *old(self)),
            final(self).spec_params() == old(self).spec_params(),
            final(self).spec_modified() == old(self).spec_modified(),
    {
        let old = self.io_clock.take();
        self.io_clock = io_clock;
        old
    }

    /// Replace the control region, returning the old one.
    pub fn replace_io_control(&mut self, io_control: Option<Region<[u8]>>) -> (r: Option<
        Region<[u8]>,
    >)
        ensures
            r == old(self).spec_io().2,
            final(self).spec_io() == (
                old(self).spec_io().0,
                old(self).spec_io().1,
                io_control,
                old(self).spec_io().3,
            ),
            node_same(*final(self), *old(self)),
            final(self).spec_params() == old(self).spec_params(),
            final(self).spec_modified() == old(self).spec_modified(),
    {
        let old = self.io_control.take();
        self.io_control = io_control;
        old
    }

    /// Set the descriptors the node is woken through and wakes its peers
    /// through; returns the old ones.
    pub fn set_fds(&mut self, read_fd: Option<i32>, write_fd: Option<i32>) -> (r: (
        Option<i32>,
        Option<i32>,
    ))
        ensures
            r == (old(self).spec_fds().0, old(self).spec_fds().2),
            final(self).spec_fds() == (
                read_fd,
                old(self).spec_fds().1,
                write_fd,
                old(self).spec_fds().3,
            ),
            final(self).spec_id() == old(self).spec_id(),
            final(self).spec_ports() == old(self).spec_ports(),
            final(self).spec_peer_activations() == old(self).spec_peer_activations(),
            final(self).spec_io() == old(self).spec_io(),
            final(self).spec_params() == old(self).spec_params(),
            final(self).spec_modified() == old(self).spec_modified(),
    {
        let old = (self.read_fd, self.write_fd);
        self.read_fd = read_fd;
        self.write_fd = write_fd;
        old
    }

    /// Add the activation record of a peer.
    pub fn push_peer(&mut self, peer: PeerActivation)
        ensures
            final(self).spec_peer_activations() == old(self).spec_peer_activations().push(peer),
            final(self).spec_id() == old(self).spec_id(),
            final(self).spec_ports() == old(self).spec_ports(),
            final(self).spec_fds() == old(self).spec_fds(),
            final(self).spec_io() == old(self).spec_io(),
            final(self).spec_params() == old(self).spec_params(),
            final(self).spec_modified() == old(self).spec_modified(),
    {
        self.peer_activations.push(peer);
    }

    /// Remove the activation records of the peer `peer_id`, returning them
    /// in order.
    pub fn remove_peers(&mut self, peer_id: u32) -> (removed: Vec<PeerActivation>)
        ensures
            removed@ == old(self).spec_peer_activations().filter(
                |a: PeerActivation| a.peer_id == peer_id,
            ),
            final(self).spec_peer_activations() == old(self).spec_peer_activations().filter(
                |a: PeerActivation| a.peer_id != peer_id,
            ),
            final(self).spec_id() == old(self).spec_id(),
            final(self).spec_ports() == old(self).spec_ports(),
            final(self).spec_fds() == old(self).spec_fds(),
            final(self).spec_io() == old(self).spec_io(),
            final(self).spec_params() == old(self).spec_params(),
            final(self).spec_modified() == old(self).spec_modified(),
    {
        let ghost all = self.peer_activations@;
        let ghost keep = |a: PeerActivation| a.peer_id != peer_id;
        let ghost take = |a: PeerActivation| a.peer_id == peer_id;
        let mut rest: Vec<PeerActivation> = Vec::new();
        core::mem::swap(&mut rest, &mut self.peer_activations);
        let mut removed: Vec<PeerActivation> = Vec::new();
        let len = rest.len();
        let mut n: usize = 0;
        while n < len
            invariant
                n <= len,
                len == all.len(),
                keep == (|a: PeerActivation| a.peer_id != peer_id),
                take == (|a: PeerActivation| a.peer_id == peer_id),
                rest@ == all.subrange(n as int, len as int),
                self.peer_activations@ == all.subrange(0, n as int).filter(keep),
                removed@ == all.subrange(0, n as int).filter(take),
                self.id == old(self).id,
                self.ports == old(self).ports,
                self.read_fd == old(self).read_fd,
                self.read_token == old(self).read_token,
                self.write_fd == old(self).write_fd,
                self.write_token == old(self).write_token,
                self.activation == old(self).activation,
                self.io_clock == old(self).io_clock,
                self.io_control == old(self).io_control,
                self.io_position == old(self).io_position,
                self.params == old(self).params,
                self.modified == old(self).modified,
            decreases len - n,
        {
            let a = rest.remove(0);
            let kept = a.peer_id != peer_id;
            proof {
                reveal(Seq::filter);
                let s = all.subrange(0, n + 1);
                assert(s.drop_last() =~= all.subrange(0, n as int));
                assert(s.last() == a);
            }
            if kept {
                self.peer_activations.push(a);
            } else {
                removed.push(a);
            }
            assert(rest@ =~= all.subrange(n + 1, len as int));
            n = n + 1;
        }
        assert(all.subrange(0, len as int) =~= all);
        removed
    }

    /// Set the encoded values of the parameter `param`.
    pub fn set_param(&mut self, param: u32, values: Vec<Vec<u8>>)
        ensures
            final(self).spec_params() == old(self).spec_params().insert(param, values),
            final(self).spec_modified(),
            final(self).spec_io() == old(self).spec_io(),
            node_same(*final(self), *old(self)),
    {
        self.params.insert(param, values);
        self.modified = true;
    }

    /// Remove the parameter `param`.
    pub fn remove_param(&mut self, param: u32)
        ensures
            final(self).spec_params() == old(self).spec_params().remove(param),
            final(self).spec_modified(),
            final(self).spec_io() == old(self).spec_io(),
            node_same(*final(self), *old(self)),
    {
        self.params.remove(&param);
        self.modified = true;
    }

    /// The parameters of the node.
    pub fn params(&self) -> (r: &BTreeMap<u32, Vec<Vec<u8>>>)
        ensures
            r@ == self.spec_params(),
    {
        &self.params
    }

    /// Whether the node changed since it was last published, which it then
    /// no longer counts as.
    pub fn take_modified(&mut self) -> (r: bool)
        ensures
            r == old(self).spec_modified(),
            !final(self).spec_modified(),
            final(self).spec_params() == old(self).spec_params(),
            final(self).spec_io() == old(self).spec_io(),
            node_same(*final(self), *old(self)),
    {
        let r = self.modified;
        self.modified = false;
        r
    }
}

/// The nodes a slab holds, by key.
pub uninterp spec fn slab_nodes(s: Slab<ClientNode>) -> Map<usize, ClientNode>;

/// An empty slab of nodes.
///
/// Calls `Slab::new` of `slab`, which holds no values.
#[verifier::external_body]
fn node_slab_new() -> (r: Slab<ClientNode>)
    ensures
        forall|k: usize| !#[trigger] slab_nodes(r).contains_key(k),
{
    Slab::new()
}

/// Insert a node, returning its key.
///
/// Calls `Slab::insert` of `slab`, which stores the value at a key that
/// held none. Running out of memory is not described.
#[verifier::external_body]
fn node_slab_insert(s: &mut Slab<ClientNode>, node: ClientNode) -> (k: usize)
    ensures
        !slab_nodes(*old(s)).contains_key(k),
        slab_nodes(*final(s)) == slab_nodes(*old(s)).insert(k, node),
{
    s.insert(node)
}

/// Remove the node at `key`, if any.
///
/// Calls `Slab::try_remove` of `slab`, which returns the value the key held
/// and frees the key, or `None` if it held none.
#[verifier::external_body]
fn node_slab_try_remove(s: &mut Slab<ClientNode>, key: usize) -> (r: Option<ClientNode>)
    ensures
        r == (if slab_nodes(*old(s)).contains_key(key) {
            Some(slab_nodes(*old(s))[key])
        } else {
            None
        }),
        slab_nodes(*final(s)) == slab_nodes(*old(s)).remove(key),
{
    s.try_remove(key)
}

/// The node at `key`, if any.
///
/// Calls `Slab::get` of `slab`.
#[verifier::external_body]
fn node_slab_get(s: &Slab<ClientNode>, key: usize) -> (r: Option<&ClientNode>)
    ensures
        r is Some <==> slab_nodes(*s).contains_key(key),
        r matches Some(n) ==> *n == slab_nodes(*s)[key],
{
    s.get(key)
}

/// The node at `key` to change in place, if any.
///
/// Calls `Slab::get_mut` of `slab`; the node is changed where it is stored,
/// under the same key.
#[verifier::external_body]
fn node_slab_get_mut(s: &mut Slab<ClientNode>, key: usize) -> (r: Option<&mut ClientNode>)
    ensures
        r is Some <==> slab_nodes(*old(s)).contains_key(key),
        r matches Some(n) ==> *n == slab_nodes(*old(s))[key] && slab_nodes(*final(s))
            == slab_nodes(*old(s)).insert(key, *final(n)),
        r is None ==> slab_nodes(*final(s)) == slab_nodes(*old(s)),
{
    s.get_mut(key)
}

/// Why a node could not be found.
#[derive(Debug, Clone, Copy, PartialEq, Eq, Structural)]
pub struct NodeNotFound {
    pub id: ClientNodeId,
}

/// The client nodes, by key.
pub struct ClientNodes {
    data: Slab<ClientNode>,
}

impl ClientNodes {
    /// The nodes, by key.
    pub closed spec fn spec_nodes(&self) -> Map<usize, ClientNode> {
        slab_nodes(self.data)
    }

    /// The keys of the nodes.
    pub open spec fn spec_keys(&self) -> Set<usize> {
        self.spec_nodes().dom()
    }

    /// No nodes.
    pub fn new() -> (r: Self)
        ensures
            r.spec_nodes() == Map::<usize, ClientNode>::empty(),
    {
        let data = node_slab_new();
        assert(slab_nodes(data) =~= Map::<usize, ClientNode>::empty());
        ClientNodes { data }
    }

    /// Add a node; its identifier is its key.
    pub fn insert(&mut self, node: ClientNode) -> (r: ClientNodeId)
        ensures
            exists|k: usize|
                {
                    &&& !old(self).spec_nodes().contains_key(k)
                    &&& final(self).spec_nodes() == old(self).spec_nodes().insert(k, node)
                    &&& r.0 == k as u32
                },
    {
        let ghost n = node;
        let key = node_slab_insert(&mut self.data, node);
        let id = ClientNodeId::new(key as u32);
        assert({
            &&& !old(self).spec_nodes().contains_key(key)
            &&& self.spec_nodes() == old(self).spec_nodes().insert(key, n)
            &&& id.0 == key as u32
        });
        id
    }

    /// Remove the node `id`, returning it.
    pub fn remove(&mut self, id: ClientNodeId) -> (r: Option<ClientNode>)
        ensures
            r == (if old(self).spec_nodes().contains_key(id.0 as usize) {
                Some(old(self).spec_nodes()[id.0 as usize])
            } else {
                None
            }),
            final(self).spec_nodes() == old(self).spec_nodes().remove(id.0 as usize),
    {
        node_slab_try_remove(&mut self.data, id.index())
    }

    /// The node `id`.
    pub fn get(&self, id: ClientNodeId) -> (r: Result<&ClientNode, NodeNotFound>)
        ensures
            r is Ok <==> self.spec_nodes().contains_key(id.0 as usize),
            r matches Ok(n) ==> *n == self.spec_nodes()[id.0 as usize],
            r is Err ==> r == Err::<&ClientNode, NodeNotFound>(NodeNotFound { id }),
    {
        match node_slab_get(&self.data, id.index()) {
            Some(node) => Ok(node),
            None => Err(NodeNotFound { id }),
        }
    }

    /// The node `id`, to change in place.
    pub fn get_mut(&mut self, id: ClientNodeId) -> (r: Result<&mut ClientNode, NodeNotFound>)
        ensures
            r is Ok <==> old(self).spec_nodes().contains_key(id.0 as usize),
            r matches Ok(n) ==> *n == old(self).spec_nodes()[id.0 as usize]
                && final(self).spec_nodes() == old(self).spec_nodes().insert(id.0 as usize, *final(n)),
            r is Err ==> r == Err::<&mut ClientNode, NodeNotFound>(NodeNotFound { id })
                && final(self).spec_nodes() == old(self).spec_nodes(),
    {
        match node_slab_get_mut(&mut self.data, id.index()) {
            Some(node) => Ok(node),
            None => Err(NodeNotFound { id }),
        }
    }
}

} // verus!
