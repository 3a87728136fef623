//! The decisions of a stream: which operations the events of the server
//! lead to, which event each operation reports, how received descriptors
//! are handed out, and which objects a global binds.
//!
//! Sending and receiving are left to the caller, which performs each
//! operation and feeds each event in.

use std::collections::{BTreeMap, VecDeque};

use vstd::prelude::*;

use super::events::{
    RemoveNodeParamEvent, RemovePortParamEvent, SetNodeParamEvent, SetPortParamEvent, StreamEvent,
};
use super::global_map::GlobalMap;
use super::id::{ClientNodeId, PortId};

verus! {

broadcast use vstd::std_specs::btree::group_btree_axioms;

/// The sequence number of the sync that ends the first listing of the
/// registry.
pub const GET_REGISTRY_SYNC: i32 = 0x1000;

/// The sequence number of the sync that follows the creation of a node.
pub const CREATE_CLIENT_NODE: i32 = 0x2000;

/// The command that pauses a node.
pub const NODE_COMMAND_PAUSE: u32 = 1;

/// The command that starts a node.
pub const NODE_COMMAND_START: u32 = 2;

/// What changed in a node that the client implementation hears of.
#[derive(Debug, Clone, Copy, PartialEq, Eq, Structural)]
pub enum NodeUpdateWhat {
    SetNodeParam(u32),
    RemoveNodeParam(u32),
    SetPortParam(u32, PortId, u32),
    RemovePortParam(u32, PortId, u32),
}

/// An operation the stream performs in turn.
#[derive(Debug, Clone, Copy, PartialEq, Eq, Structural)]
pub enum Op {
    /// Greet the server and send the client properties.
    CoreHello,
    /// Ask for the registry and sync on it.
    GetRegistry,
    /// Answer a ping.
    Pong { id: u32, seq: u32 },
    /// Create a client node.
    ConstructNode,
    /// A node was created: activate it.
    NodeCreated { node_id: ClientNodeId },
    /// Publish what changed in a node.
    NodeUpdate { node_id: ClientNodeId, what: Option<NodeUpdateWhat> },
    /// Start a node.
    NodeStart { node_id: ClientNodeId },
    /// Pause a node.
    NodePause { node_id: ClientNodeId },
    /// Watch the read descriptor of a node.
    NodeReadInterest { node_id: ClientNodeId },
}

/// What an object of the client is.
#[derive(Debug, Clone, Copy, PartialEq, Eq, Structural)]
pub enum Kind {
    Registry,
    ClientNode(ClientNodeId),
}

/// The event that reports what changed in a node.
pub open spec fn spec_update_event(node_id: ClientNodeId, what: NodeUpdateWhat) -> StreamEvent {
    match what {
        NodeUpdateWhat::SetNodeParam(param) => StreamEvent::SetNodeParam(
            SetNodeParamEvent { node_id, param },
        ),
        NodeUpdateWhat::RemoveNodeParam(param) => StreamEvent::RemoveNodeParam(
            RemoveNodeParamEvent { node_id, param },
        ),
        NodeUpdateWhat::SetPortParam(direction, port_id, param) => StreamEvent::SetPortParam(
            SetPortParamEvent { node_id, direction, port_id, param },
        ),
        NodeUpdateWhat::RemovePortParam(direction, port_id, param) => StreamEvent::RemovePortParam(
            RemovePortParamEvent { node_id, direction, port_id, param },
        ),
    }
}

/// The event that reports a change in a node is of the same kind as the
/// change, for the same node, parameter, direction and port: a set
/// parameter is reported as set and a removed one as removed.
pub proof fn lemma_update_event_kind(node_id: ClientNodeId, what: NodeUpdateWhat)
    ensures
        ({
            let e = spec_update_event(node_id, what);
            &&& what matches NodeUpdateWhat::SetNodeParam(p) ==> e == StreamEvent::SetNodeParam(
                SetNodeParamEvent { node_id, param: p },
            )
            &&& what matches NodeUpdateWhat::RemoveNodeParam(p) ==> e
                == StreamEvent::RemoveNodeParam(RemoveNodeParamEvent { node_id, param: p })
            &&& what matches NodeUpdateWhat::SetPortParam(d, port_id, p) ==> e
                == StreamEvent::SetPortParam(
                SetPortParamEvent { node_id, direction: d, port_id, param: p },
            )
            &&& what matches NodeUpdateWhat::RemovePortParam(d, port_id, p) ==> e
                == StreamEvent::RemovePortParam(
                RemovePortParamEvent { node_id, direction: d, port_id, param: p },
            )
        }),
{
}

/// The event that reports what changed in a node.
pub fn update_event(node_id: ClientNodeId, what: NodeUpdateWhat) -> (r: StreamEvent)
    ensures
        r == spec_update_event(node_id, what),
        what matches NodeUpdateWhat::SetNodeParam(p) ==> r == StreamEvent::SetNodeParam(
            SetNodeParamEvent { node_id, param: p },
        ),
        what matches NodeUpdateWhat::RemoveNodeParam(p) ==> r == StreamEvent::RemoveNodeParam(
            RemoveNodeParamEvent { node_id, param: p },
        ),
        what matches NodeUpdateWhat::SetPortParam(d, port_id, p) ==> r == StreamEvent::SetPortParam(
            SetPortParamEvent { node_id, direction: d, port_id, param: p },
        ),
        what matches NodeUpdateWhat::RemovePortParam(d, port_id, p) ==> r
            == StreamEvent::RemovePortParam(
            RemovePortParamEvent { node_id, direction: d, port_id, param: p },
        ),
{
    match what {
        NodeUpdateWhat::SetNodeParam(param) => StreamEvent::SetNodeParam(
            SetNodeParamEvent { node_id, param },
        ),
        NodeUpdateWhat::RemoveNodeParam(param) => StreamEvent::RemoveNodeParam(
            RemoveNodeParamEvent { node_id, param },
        ),
        NodeUpdateWhat::SetPortParam(direction, port_id, param) => StreamEvent::SetPortParam(
            SetPortParamEvent { node_id, direction, port_id, param },
        ),
        NodeUpdateWhat::RemovePortParam(direction, port_id, param) => StreamEvent::RemovePortParam(
            RemovePortParamEvent { node_id, direction, port_id, param },
        ),
    }
}

/// The event an operation reports once it is performed, if any.
pub open spec fn spec_op_event(op: Op) -> Option<StreamEvent> {
    match op {
        Op::NodeCreated { node_id } => Some(StreamEvent::NodeCreated(node_id)),
        Op::NodeUpdate { node_id, what } => match what {
            Some(w) => Some(spec_update_event(node_id, w)),
            None => None,
        },
        _ => None,
    }
}

/// The event an operation reports once it is performed, if any: the
/// creation of a node, or the change a node update carries.
pub fn op_event(op: Op) -> (r: Option<StreamEvent>)
    ensures
        r == spec_op_event(op),
{
    match op {
        Op::NodeCreated { node_id } => Some(StreamEvent::NodeCreated(node_id)),
        Op::NodeUpdate { node_id, what } => match what {
            Some(w) => Some(update_event(node_id, w)),
            None => None,
        },
        _ => None,
    }
}

/// The operations a stream has yet to perform, in order.
pub struct Ops {
    ops: VecDeque<Op>,
}

impl View for Ops {
    type V = Seq<Op>;

    closed spec fn view(&self) -> Seq<Op> {
        self.ops@
    }
}

/// The operation a command leads to, if any.
pub open spec fn command_op(node_id: ClientNodeId, command: u32) -> Option<Op> {
    if command == NODE_COMMAND_START {
        Some(Op::NodeStart { node_id })
    } else if command == NODE_COMMAND_PAUSE {
        Some(Op::NodePause { node_id })
    } else {
        None
    }
}

impl Ops {
    /// A new stream starts by greeting the server.
    pub fn new() -> (r: Self)
        ensures
            r@ == seq![Op::CoreHello],
    {
        let mut ops = VecDeque::new();
        ops.push_back(Op::CoreHello);
        Ops { ops }
    }

    /// Queue an operation.
    pub fn push(&mut self, op: Op)
        ensures
            final(self)@ == old(self)@.push(op),
    {
        self.ops.push_back(op);
    }

    /// The next operation to perform.
    pub fn pop(&mut self) -> (r: Option<Op>)
        ensures
            old(self)@.len() == 0 ==> r is None && final(self)@ == old(self)@,
            old(self)@.len() > 0 ==> r == Some(old(self)@[0]) && final(self)@ == old(self)@.drop_first(),
    {
        self.ops.pop_front()
    }

    /// Take the operations to perform now: each in turn up to and
    /// including the first that reports an event, which is returned with
    /// them; all of them, and no event, when none reports one.
    pub fn take_until_event(&mut self) -> (r: (Vec<Op>, Option<StreamEvent>))
        ensures
            ({
                let n = r.0@.len();
                &&& n <= old(self)@.len()
                &&& r.0@ == old(self)@.take(n as int)
                &&& final(self)@ == old(self)@.skip(n as int)
                &&& forall|i: int| 0 <= i < n - 1 ==> #[trigger] spec_op_event(old(self)@[i]) is None
                &&& r.1 is Some ==> n > 0 && r.1 == spec_op_event(old(self)@[n - 1])
                &&& r.1 is None ==> n == old(self)@.len() && forall|i: int|
                    0 <= i < n ==> #[trigger] spec_op_event(old(self)@[i]) is None
            }),
    {
        let ghost all = self@;
        let mut done: Vec<Op> = Vec::new();
        loop
            invariant
                all == old(self)@,
                done@.len() <= all.len(),
                done@ == all.take(done@.len() as int),
                self@ == all.skip(done@.len() as int),
                forall|i: int| 0 <= i < done@.len() ==> #[trigger] spec_op_event(all[i]) is None,
            decreases self@.len(),
        {
            let op = match self.pop() {
                Some(op) => op,
                None => {
                    proof {
                        assert(done@.len() == all.len());
                    }
                    return (done, None);
                },
            };
            let ghost k: int = done@.len() as int;
            done.push(op);
            proof {
                assert(op == all[k]);
                assert(done@ =~= all.take(k + 1));
                assert(self@ =~= all.skip(k + 1));
            }
            let event = op_event(op);
            if event.is_some() {
                return (done, event);
            }
        }
    }

    /// The server described itself: get the registry next.
    pub fn core_info(&mut self)
        ensures
            final(self)@ == old(self)@.push(Op::GetRegistry),
    {
        self.ops.push_back(Op::GetRegistry);
    }

    /// A sync is done: after the first listing of the registry, construct
    /// the client node; nothing follows other syncs.
    pub fn core_done(&mut self, id: i32, seq: i32)
        ensures
            id == GET_REGISTRY_SYNC ==> final(self)@ == old(self)@.push(Op::ConstructNode),
            id != GET_REGISTRY_SYNC ==> final(self)@ == old(self)@,
    {
        if id == GET_REGISTRY_SYNC {
            self.ops.push_back(Op::ConstructNode);
        }
    }

    /// The server pinged: answer it.
    pub fn core_ping(&mut self, id: u32, seq: u32)
        ensures
            final(self)@ == old(self)@.push(Op::Pong { id, seq }),
    {
        self.ops.push_back(Op::Pong { id, seq });
    }

    /// A node was constructed: activate it.
    pub fn node_constructed(&mut self, node_id: ClientNodeId)
        ensures
            final(self)@ == old(self)@.push(Op::NodeCreated { node_id }),
    {
        self.ops.push_back(Op::NodeCreated { node_id });
    }

    /// The server sent a command to a node: start or pause it; other
    /// commands lead to nothing.
    pub fn node_command(&mut self, node_id: ClientNodeId, command: u32)
        ensures
            final(self)@ == match command_op(node_id, command) {
                Some(op) => old(self)@.push(op),
                None => old(self)@,
            },
    {
        if command == NODE_COMMAND_START {
            self.ops.push_back(Op::NodeStart { node_id });
        } else if command == NODE_COMMAND_PAUSE {
            self.ops.push_back(Op::NodePause { node_id });
        }
    }

    /// A parameter of a node was set (`set`) or removed: publish the node
    /// and report it.
    pub fn node_param(&mut self, node_id: ClientNodeId, param: u32, set: bool)
        ensures
            final(self)@ == old(self)@.push(
                Op::NodeUpdate {
                    node_id,
                    what: Some(
                        if set {
                            NodeUpdateWhat::SetNodeParam(param)
                        } else {
                            NodeUpdateWhat::RemoveNodeParam(param)
                        },
                    ),
                },
            ),
    {
        let what = if set {
            NodeUpdateWhat::SetNodeParam(param)
        } else {
            NodeUpdateWhat::RemoveNodeParam(param)
        };
        self.ops.push_back(Op::NodeUpdate { node_id, what: Some(what) });
    }

    /// A parameter of a port was set (`set`) or removed: publish the node
    /// and report it.
    pub fn port_param(
        &mut self,
        node_id: ClientNodeId,
        direction: u32,
        port_id: PortId,
        param: u32,
        set: bool,
    )
        ensures
            final(self)@ == old(self)@.push(
                Op::NodeUpdate {
                    node_id,
                    what: Some(
                        if set {
                            NodeUpdateWhat::SetPortParam(direction, port_id, param)
                        } else {
                            NodeUpdateWhat::RemovePortParam(direction, port_id, param)
                        },
                    ),
                },
            ),
    {
        let what = if set {
            NodeUpdateWhat::SetPortParam(direction, port_id, param)
        } else {
            NodeUpdateWhat::RemovePortParam(direction, port_id, param)
        };
        self.ops.push_back(Op::NodeUpdate { node_id, what: Some(what) });
    }

    /// A node got its transport: watch its read descriptor if it has one.
    pub fn node_transport(&mut self, node_id: ClientNodeId, has_read_fd: bool)
        ensures
            has_read_fd ==> final(self)@ == old(self)@.push(Op::NodeReadInterest { node_id }),
            !has_read_fd ==> final(self)@ == old(self)@,
    {
        if has_read_fd {
            self.ops.push_back(Op::NodeReadInterest { node_id });
        }
    }
}

/// Why a received descriptor could not be taken.
#[derive(Debug, Clone, Copy, PartialEq, Eq, Structural)]
pub enum FdError {
    /// The message names a descriptor past those it carries.
    OutOfRange { index: i64, n_fds: u32 },
    /// The descriptor was not received.
    NotStored { index: i64, stored: usize },
    /// The descriptor was taken already.
    AlreadyTaken { index: i64 },
    /// The message carries more descriptors than were received.
    TooMany { n_fds: u32, stored: usize },
}

/// Take the descriptor at `index` among the `n_fds` that the current
/// message carries; a negative index names none.
pub fn take_fd(fds: &mut Vec<Option<i32>>, n_fds: u32, index: i64) -> (r: Result<
    Option<i32>,
    FdError,
>)
    ensures
        index < 0 ==> r == Ok::<Option<i32>, FdError>(None) && final(fds)@ == old(fds)@,
        0 <= index && index >= n_fds ==> r == Err::<Option<i32>, FdError>(
            FdError::OutOfRange { index, n_fds },
        ) && final(fds)@ == old(fds)@,
        0 <= index < n_fds && index >= old(fds)@.len() ==> r == Err::<Option<i32>, FdError>(
            FdError::NotStored { index, stored: old(fds)@.len() as usize },
        ) && final(fds)@ == old(fds)@,
        0 <= index < n_fds && index < old(fds)@.len() ==> {
            let slot = old(fds)@[index as int];
            &&& slot is None ==> r == Err::<Option<i32>, FdError>(FdError::AlreadyTaken { index })
                && final(fds)@ == old(fds)@
            &&& slot matches Some(fd) ==> r == Ok::<Option<i32>, FdError>(Some(fd)) && final(fds)@ == old(fds)@.update(index as int, None)
        },
{
    if index < 0 {
        return Ok(None);
    }
    if index >= n_fds as i64 {
        return Err(FdError::OutOfRange { index, n_fds });
    }
    let i = index as usize;
    if i >= fds.len() {
        return Err(FdError::NotStored { index, stored: fds.len() });
    }
    match fds[i] {
        None => Err(FdError::AlreadyTaken { index }),
        Some(fd) => {
            fds.set(i, None);
            Ok(Some(fd))
        },
    }
}

/// After a message, drop the `n_fds` descriptors it carried; those not
/// taken are returned so they can be closed.
pub fn release_fds(fds: &mut Vec<Option<i32>>, n_fds: u32) -> (r: Result<Vec<i32>, FdError>)
    ensures
        n_fds > old(fds)@.len() ==> r == Err::<Vec<i32>, FdError>(
            FdError::TooMany { n_fds, stored: old(fds)@.len() as usize },
        ) && final(fds)@ == old(fds)@,
        n_fds <= old(fds)@.len() ==> (r matches Ok(unused) && {
            &&& final(fds)@ == old(fds)@.subrange(n_fds as int, old(fds)@.len() as int)
            &&& unused@ == untaken(old(fds)@.subrange(0, n_fds as int))
        }),
{
    let n = n_fds as usize;
    if n > fds.len() {
        return Err(FdError::TooMany { n_fds, stored: fds.len() });
    }
    let ghost all = fds@;
    let mut unused: Vec<i32> = Vec::new();
    let mut k: usize = 0;
    while k < n
        invariant
            n == n_fds,
            k <= n <= all.len(),
            fds@ == all.subrange(k as int, all.len() as int),
            unused@ == untaken(all.subrange(0, k as int)),
        decreases n - k,
    {
        let slot = fds.remove(0);
        proof {
            assert(all.subrange(0, k + 1).drop_last() =~= all.subrange(0, k as int));
        }
        match slot {
            Some(fd) => unused.push(fd),
            None => {},
        }
        assert(fds@ =~= all.subrange(k + 1, all.len() as int));
        k = k + 1;
    }
    Ok(unused)
}

/// The descriptors among `slots` that were not taken, in order.
pub open spec fn untaken(slots: Seq<Option<i32>>) -> Seq<i32>
    decreases slots.len(),
{
    if slots.len() == 0 {
        Seq::empty()
    } else {
        let before = untaken(slots.drop_last());
        match slots.last() {
            Some(fd) => before.push(fd),
            None => before,
        }
    }
}

/// The objects of the client: what each local identifier is, which local
/// identifier each global is bound to, and which registry entry each
/// global has.
pub struct Objects {
    globals: GlobalMap,
    local_id_to_kind: BTreeMap<u32, Kind>,
    id_to_registry: BTreeMap<u32, usize>,
}

impl Objects {
    /// The local identifier each global is bound to.
    pub closed spec fn spec_globals(&self) -> Map<u32, u32> {
        self.globals@
    }

    /// What each local identifier is.
    pub closed spec fn spec_kinds(&self) -> Map<u32, Kind> {
        self.local_id_to_kind@
    }

    /// The registry entry of each global.
    pub closed spec fn spec_registries(&self) -> Map<u32, usize> {
        self.id_to_registry@
    }

    /// No objects.
    pub fn new() -> (r: Self)
        ensures
            r.spec_globals() == Map::<u32, u32>::empty(),
            r.spec_kinds() == Map::<u32, Kind>::empty(),
            r.spec_registries() == Map::<u32, usize>::empty(),
    {
        Objects {
            globals: GlobalMap::new(),
            local_id_to_kind: BTreeMap::new(),
            id_to_registry: BTreeMap::new(),
        }
    }

    /// The local identifier `local_id` names an object of `kind`.
    pub fn register(&mut self, local_id: u32, kind: Kind)
        ensures
            final(self).spec_kinds() == old(self).spec_kinds().insert(local_id, kind),
            final(self).spec_globals() == old(self).spec_globals(),
            final(self).spec_registries() == old(self).spec_registries(),
    {
        self.local_id_to_kind.insert(local_id, kind);
    }

    /// What the local identifier `local_id` names.
    pub fn kind(&self, local_id: u32) -> (r: Option<Kind>)
        ensures
            r == (if self.spec_kinds().contains_key(local_id) {
                Some(self.spec_kinds()[local_id])
            } else {
                None
            }),
    {
        match self.local_id_to_kind.get(&local_id) {
            Some(kind) => Some(*kind),
            None => None,
        }
    }

    /// The server bound the local object `local_id` to the global
    /// `global_id`.
    pub fn bound_id(&mut self, local_id: u32, global_id: u32)
        ensures
            final(self).spec_globals() == old(self).spec_globals().insert(global_id, local_id),
            final(self).spec_kinds() == old(self).spec_kinds(),
            final(self).spec_registries() == old(self).spec_registries(),
    {
        self.globals.insert(local_id, global_id);
    }

    /// The registry announced the global `id`, kept at `index`: if it is
    /// bound to a client node, that node is published again.
    pub fn registry_global(&mut self, id: u32, index: usize) -> (r: Option<Op>)
        ensures
            final(self).spec_registries() == old(self).spec_registries().insert(id, index),
            final(self).spec_globals() == old(self).spec_globals(),
            final(self).spec_kinds() == old(self).spec_kinds(),
            r == global_op(old(self).spec_globals(), old(self).spec_kinds(), id),
    {
        self.id_to_registry.insert(id, index);
        match self.globals.by_global(id) {
            Some(local_id) => match self.local_id_to_kind.get(&local_id) {
                Some(kind) => match *kind {
                    Kind::Registry => None,
                    Kind::ClientNode(node_id) => Some(Op::NodeUpdate { node_id, what: None }),
                },
                None => None,
            },
            None => None,
        }
    }

    /// The registry removed the global `id`: forget its registry entry and
    /// return where it was kept, if it had one.
    pub fn forget_registry(&mut self, id: u32) -> (r: Option<usize>)
        ensures
            final(self).spec_registries() == old(self).spec_registries().remove(id),
            r == (if old(self).spec_registries().contains_key(id) {
                Some(old(self).spec_registries()[id])
            } else {
                None
            }),
            final(self).spec_globals() == old(self).spec_globals(),
            final(self).spec_kinds() == old(self).spec_kinds(),
    {
        self.id_to_registry.remove(&id)
    }

    /// Unbind the global `id`: returns the local identifier it was bound
    /// to, now free, and the client node that identifier named, now gone.
    pub fn unbind(&mut self, id: u32) -> (r: (Option<u32>, Option<ClientNodeId>))
        ensures
            final(self).spec_globals() == old(self).spec_globals().remove(id),
            final(self).spec_registries() == old(self).spec_registries(),
            !old(self).spec_globals().contains_key(id) ==> r == (None::<u32>, None::<ClientNodeId>)
                && final(self).spec_kinds() == old(self).spec_kinds(),
            old(self).spec_globals().contains_key(id) ==> {
                let local = old(self).spec_globals()[id];
                let kinds = old(self).spec_kinds();
                &&& r.0 == Some(local)
                &&& final(self).spec_kinds() == kinds.remove(local)
                &&& r.1 == (if kinds.contains_key(local) {
                    match kinds[local] {
                        Kind::ClientNode(node_id) => Some(node_id),
                        Kind::Registry => None,
                    }
                } else {
                    None
                })
            },
    {
        let local_id = match self.globals.remove_by_global(id) {
            Some(local_id) => local_id,
            None => {
                return (None, None);
            },
        };
        let node = match self.local_id_to_kind.remove(&local_id) {
            Some(Kind::ClientNode(node_id)) => Some(node_id),
            _ => None,
        };
        (Some(local_id), node)
    }
}

/// The operation the announcement of the global `id` leads to: publishing
/// the client node it is bound to, if any.
pub open spec fn global_op(globals: Map<u32, u32>, kinds: Map<u32, Kind>, id: u32) -> Option<Op> {
    if globals.contains_key(id) && kinds.contains_key(globals[id]) {
        match kinds[globals[id]] {
            Kind::ClientNode(node_id) => Some(Op::NodeUpdate { node_id, what: None }),
            Kind::Registry => None,
        }
    } else {
        None
    }
}

} // verus!
