use std::collections::BTreeMap;

use pod::client::activation::{PeerActivation, SignalStep, Version};
use pod::client::buffer::{Buffer, Buffers, Data};
use pod::client::client_node::{ClientNode, ClientNodes, DriverUpdate, NodeNotFound};
use pod::client::events::{SetPortParamEvent, StreamEvent};
use pod::client::ffi::{Chunk, IoBuffers, STATUS_HAVE_DATA, STATUS_NEED_DATA, STATUS_OK};
use pod::client::global_map::GlobalMap;
use pod::client::id::{ClientNodeId, GlobalId, LocalId, MixId, PortId, MIX_INVALID};
use pod::client::memory::{protection, Memory, MemoryError, DATA_TYPE_MEM_FD, DATA_TYPE_MEM_PTR};
use pod::client::parameters::Parameters;
use pod::client::port_buffers::{IoBufferState, PortBuffers, DIRECTION_INPUT, DIRECTION_OUTPUT};
use pod::client::ports::{
    Port, PortError, PortMixInfo, PortParam, Ports, PARAM_FLAG_READ, PARAM_FLAG_WRITE,
};
use pod::buf::SliceBuf;
use pod::client::region::{Region, RegionError};
use pod::client::properties::Properties;
use pod::client::requests::Client;
use pod::pod::field::Field;
use pod::pod::read::read_struct;
use pod::client::stats::{IdSet, Stats};
use pod::client::stream::{
    op_event, release_fds, take_fd, FdError, Kind, NodeUpdateWhat, Objects, Op, Ops,
    GET_REGISTRY_SYNC, NODE_COMMAND_PAUSE, NODE_COMMAND_START,
};

fn buffers(mix_id: MixId, n: u32) -> Buffers {
    let mut list = Vec::new();
    for id in 0..n {
        list.push(Buffer { id, offset: 0, size: 64, metas: Vec::new(), datas: Vec::new() });
    }
    Buffers {
        direction: DIRECTION_OUTPUT,
        port_id: PortId::new(0),
        mix_id,
        flags: 0,
        buffers: list,
        available: 0,
    }
}

fn io(mix: u32, status: i32, buffer_id: i32) -> IoBufferState {
    IoBufferState { mix_id: MixId::new(mix), status, buffer_id }
}

#[test]
fn identifiers_round_trip() {
    assert_eq!(ClientNodeId::new(7).index(), 7);
    assert_eq!(ClientNodeId::new(7).into_u32(), 7);
    assert_eq!(PortId::new(3).index(), 3);
    assert_eq!(MixId::new(9).index(), 9);
    assert_eq!(MixId::zero(), MixId::new(0));
    assert_eq!(MixId::invalid().0, u32::MAX);
    assert_eq!(MixId::from_i32(-1), MixId::invalid());
    assert_eq!(LocalId::new(4).into_u32(), 4);
    assert_eq!(GlobalId::new(5).index(), 5);
}

#[test]
fn region_slice_and_size() {
    let region: Region<[u32]> = Region::from_raw_parts(2, 16, 0x1000);
    let sub = region.slice(4, 8).unwrap();
    assert_eq!(sub.len(), 8);
    assert_eq!(sub.as_ptr(), 0x1000 + 4 * 4);
    assert_eq!(sub.file(), 2);
    assert!(region.slice(10, 7).is_none());
    assert_eq!(region.size(16).unwrap().len(), 16);
    assert_eq!(
        region.size(17).err(),
        Some(RegionError::SizeOutOfBounds { requested: 17, size: 16 })
    );
}

#[test]
fn region_casts() {
    let bytes: Region<[u8]> = Region::from_raw_parts(1, 16, 0x2000);
    let words = bytes.cast_array::<u32>().unwrap();
    assert_eq!(words.len(), 4);
    assert_eq!(words.as_ptr(), 0x2000);
    let pair = bytes.size(8).unwrap().cast::<u64>().unwrap();
    assert_eq!(pair.as_ptr(), 0x2000);
    assert_eq!(
        bytes.cast::<u64>().err(),
        Some(RegionError::SizeMismatch { expected: 8, actual: 16 })
    );
    let odd: Region<[u8]> = Region::from_raw_parts(1, 16, 0x2001);
    assert_eq!(
        odd.cast_array::<u32>().err(),
        Some(RegionError::Misaligned { addr: 0x2001, align: 4 })
    );
    let short: Region<[u8]> = Region::from_raw_parts(1, 6, 0x2000);
    assert_eq!(
        short.cast_array::<u32>().err(),
        Some(RegionError::SizeNotMultiple { element: 4, actual: 6 })
    );
    let same: Region<[i32]> = words.cast_array_unchecked::<i32>();
    assert_eq!(same.len(), 4);
}

#[test]
fn region_offset_rounds_up() {
    let bytes: Region<[u8]> = Region::from_raw_parts(1, 32, 0x3000);
    let rest = bytes.offset(3, 8).unwrap();
    assert_eq!(rest.as_ptr(), 0x3008);
    assert_eq!(rest.len(), 24);
    assert_eq!(bytes.offset(32, 1).unwrap().len(), 0);
    assert_eq!(
        bytes.offset(33, 8).err(),
        Some(RegionError::OffsetOutOfBounds { offset: 40, size: 32 })
    );
    let typed: Region<u64> = Region::new(5, 8, 0x4000);
    let erased = typed.erase();
    assert_eq!(erased.as_ptr(), 0x4000);
    assert_eq!(erased.file(), 5);
}

#[test]
fn output_buffers_are_handed_out_lowest_first() {
    let mut pb = PortBuffers::new(DIRECTION_OUTPUT);
    assert_eq!(pb.mixes().len(), 64);
    assert!(pb.replace(buffers(MixId::invalid(), 3)).is_empty());
    let ios = [io(0, STATUS_OK, -1), io(1, STATUS_OK, -1)];
    assert_eq!(pb.next_output(&ios), Some(0));
    assert_eq!(pb.next_output(&ios), Some(1));
    assert_eq!(pb.sets()[0].available, 0b11);
    assert_eq!(pb.mixes()[0], 0b11);
    assert_eq!(pb.mixes()[1], 0b11);
    assert_eq!(pb.next_output(&ios), Some(2));
    assert_eq!(pb.next_output(&ios), None);
}

#[test]
fn recycled_buffer_is_free_once_no_mix_holds_it() {
    let mut pb = PortBuffers::new(DIRECTION_OUTPUT);
    pb.replace(buffers(MixId::invalid(), 2));
    let ios = [io(0, STATUS_OK, -1), io(1, STATUS_OK, -1)];
    assert_eq!(pb.next_output(&ios), Some(0));
    assert_eq!(pb.next_output(&ios), Some(1));
    // Only mix 0 hands buffer 0 back: mix 1 still holds it.
    let ios = [io(0, STATUS_NEED_DATA, 0), io(1, STATUS_OK, -1)];
    assert_eq!(pb.next_output(&ios), None);
    assert_eq!(pb.mixes()[0], 0b10);
    assert_eq!(pb.sets()[0].available, 0b11);
    // Now mix 1 hands it back too and it is handed out again.
    let ios = [io(0, STATUS_OK, -1), io(1, STATUS_NEED_DATA, 0)];
    assert_eq!(pb.next_output(&ios), Some(0));
}

#[test]
fn free_and_free_all_release_buffers() {
    let mut pb = PortBuffers::new(DIRECTION_OUTPUT);
    pb.replace(buffers(MixId::invalid(), 4));
    let ios = [io(2, STATUS_OK, -1)];
    pb.next_output(&ios);
    pb.next_output(&ios);
    assert_eq!(pb.mixes()[2], 0b11);
    pb.free(MixId::new(2), 0);
    assert_eq!(pb.mixes()[2], 0b10);
    assert_eq!(pb.sets()[0].available, 0b10);
    pb.free_all(MixId::new(2));
    assert_eq!(pb.mixes()[2], 0);
    assert_eq!(pb.sets()[0].available, 0);
    // A mix out of range changes nothing.
    pb.free_all(MixId::new(100));
    assert_eq!(pb.sets()[0].available, 0);
}

#[test]
fn have_data_frees_for_refusing_mixes() {
    let mut pb = PortBuffers::new(DIRECTION_OUTPUT);
    pb.replace(buffers(MixId::invalid(), 2));
    let ios = [io(0, STATUS_OK, -1), io(1, STATUS_OK, -1)];
    let id = pb.next_output(&ios).unwrap();
    let taken = pb.have_data(id, &[io(0, STATUS_NEED_DATA, -1), io(1, STATUS_HAVE_DATA, -1)]);
    // STATUS_OK is zero, so only a peer that needs data takes the buffer.
    assert_eq!(taken, vec![true, false]);
    assert_eq!(pb.mixes()[1], 0);
    assert_eq!(pb.sets()[0].available, 1);
}

#[test]
fn input_buffers_and_replacement() {
    let mut pb = PortBuffers::new(DIRECTION_INPUT);
    assert_eq!(pb.mixes().len(), 0);
    pb.replace(buffers(MixId::new(1), 2));
    pb.replace(buffers(MixId::new(2), 3));
    assert_eq!(pb.next_input(MixId::new(2), STATUS_HAVE_DATA, 2), Some((1, 2)));
    assert_eq!(pb.next_input(MixId::new(2), STATUS_NEED_DATA, 2), None);
    assert_eq!(pb.next_input(MixId::new(1), STATUS_HAVE_DATA, 2), None);
    assert_eq!(pb.get(MixId::new(3), 0), None);
    let removed = pb.replace(buffers(MixId::new(1), 1));
    assert_eq!(removed.len(), 1);
    assert_eq!(pb.sets().len(), 2);
    assert_eq!(pb.sets()[1].mix_id, MixId::new(1));
    let removed = pb.replace(buffers(MixId::new(MIX_INVALID), 1));
    assert_eq!(removed.len(), 2);
    assert_eq!(pb.sets().len(), 1);
}

#[test]
fn valid_region_of_a_chunk() {
    let data = Data {
        ty: DATA_TYPE_MEM_PTR,
        region: Region::from_raw_parts(1, 100, 0x5000),
        flags: 0,
        chunk: Region::new(1, 16, 0x6000),
    };
    let chunk = Chunk { offset: 110, size: 40, stride: 0, flags: 0 };
    let valid = data.valid_region(chunk).unwrap();
    assert_eq!(valid.as_ptr(), 0x5000 + 10);
    assert_eq!(valid.len(), 30);
    let chunk = Chunk { offset: 90, size: 200, stride: 0, flags: 0 };
    assert!(data.valid_region(chunk).is_none());
    assert_eq!(data.uninit_region().len(), 100);
}

#[test]
fn memory_counts_its_users() {
    let mut memory = Memory::new();
    let (file, freed) = memory.insert(7, DATA_TYPE_MEM_FD, 3, 3, 4096, 0x10000).unwrap();
    assert_eq!(file, 0);
    assert!(freed.is_none());
    assert_eq!(memory.data_type(7), Some(DATA_TYPE_MEM_FD));
    let region = memory.map(7, 16, 32).unwrap();
    assert_eq!(region.as_ptr(), 0x10010);
    assert_eq!(region.len(), 32);
    assert_eq!(memory.users(file), Some(2));
    memory.track(&region);
    assert_eq!(memory.users(file), Some(3));
    assert!(memory.free(region.clone()).is_none());
    assert!(memory.free(region).is_none());
    let gone = memory.remove(7).unwrap();
    assert_eq!(gone.fd, 3);
    assert_eq!(memory.users(file), None);
    assert_eq!(memory.data_type(7), None);
}

#[test]
fn memory_errors() {
    let mut memory = Memory::new();
    assert_eq!(
        memory.insert(1, DATA_TYPE_MEM_PTR, 3, 0, 16, 0x1000).err(),
        Some(MemoryError::NotMemFd { mem_id: 1, ty: DATA_TYPE_MEM_PTR })
    );
    assert_eq!(Memory::check_type(1, DATA_TYPE_MEM_PTR).err(), Some(MemoryError::NotMemFd {
        mem_id: 1,
        ty: DATA_TYPE_MEM_PTR,
    }));
    assert_eq!(memory.map(1, 0, 1).err(), Some(MemoryError::Missing { mem_id: 1 }));
    memory.insert(1, DATA_TYPE_MEM_FD, 4, 0, 64, 0x1000).unwrap();
    assert_eq!(
        memory.map(1, 65, 0).err(),
        Some(MemoryError::Region(RegionError::OffsetOutOfBounds { offset: 65, size: 64 }))
    );
    assert_eq!(
        memory.map(1, 60, 8).err(),
        Some(MemoryError::Region(RegionError::SizeOutOfBounds { requested: 8, size: 4 }))
    );
    assert_eq!(memory.users(0), Some(1));
}

#[test]
fn memory_replaced_identifier_frees_old_file() {
    let mut memory = Memory::new();
    let (first, _) = memory.insert(1, DATA_TYPE_MEM_FD, 10, 0, 64, 0x1000).unwrap();
    let next = memory.next_file();
    let (second, freed) = memory.insert(1, DATA_TYPE_MEM_FD, 11, 0, 64, 0x2000).unwrap();
    assert_eq!(second, next);
    assert_eq!(freed.unwrap().fd, 10);
    assert_eq!(memory.users(first), None);
    assert_eq!(protection(1), (true, false));
    assert_eq!(protection(3), (true, true));
}

#[test]
fn ports_are_numbered_per_direction() {
    let mut ports = Ports::new();
    assert_eq!(ports.insert(DIRECTION_INPUT), Ok(PortId::new(0)));
    assert_eq!(ports.insert(DIRECTION_INPUT), Ok(PortId::new(1)));
    assert_eq!(ports.insert(DIRECTION_OUTPUT), Ok(PortId::new(0)));
    assert_eq!(ports.inputs().len(), 2);
    assert_eq!(ports.outputs().len(), 1);
    assert_eq!(ports.get(DIRECTION_INPUT, PortId::new(1)).unwrap().id, PortId::new(1));
    assert!(matches!(
        ports.get(DIRECTION_OUTPUT, PortId::new(1)),
        Err(PortError::NotFound { direction: DIRECTION_OUTPUT, id: PortId(1) })
    ));
    let port = ports.get_mut(DIRECTION_OUTPUT, PortId::new(0)).unwrap();
    port.name = String::from("out");
    assert_eq!(ports.outputs()[0].name, "out");
    assert_eq!(ports.outputs()[0].port_buffers.mixes().len(), 64);
}

#[test]
fn port_parameter_flags() {
    let mut port = Port::new(DIRECTION_INPUT, PortId::new(0));
    assert!(port.take_modified());
    assert!(!port.take_modified());
    port.set_write(3);
    assert!(port.take_modified());
    assert_eq!(port.param_flags().get(&3), Some(&PARAM_FLAG_WRITE));
    port.set_write(3);
    assert!(!port.take_modified());
    port.set_param(3, vec![PortParam::with_flags(vec![1, 2], 5)]);
    assert_eq!(port.param_flags().get(&3), Some(&(PARAM_FLAG_WRITE | PARAM_FLAG_READ)));
    port.push_param(3, PortParam::new(vec![3]));
    assert_eq!(port.get_param(3).len(), 2);
    assert_eq!(port.get_param(3)[0].flags, 5);
    let removed = port.remove_param(3).unwrap();
    assert_eq!(removed.len(), 2);
    assert_eq!(port.param_flags().get(&3), Some(&PARAM_FLAG_WRITE));
    assert!(port.get_param(3).is_empty());
    assert!(port.remove_param(3).is_none());
    assert_eq!(port.param_flags().get(&3), Some(&PARAM_FLAG_WRITE));
}

#[test]
fn port_mix_info_links() {
    let mut info = PortMixInfo::new();
    info.insert(MixId::new(1), PortId::new(10), BTreeMap::new());
    let mut props = BTreeMap::new();
    props.insert(String::from("k"), String::from("v"));
    info.insert(MixId::new(2), PortId::new(20), props);
    info.insert(MixId::new(1), PortId::new(11), BTreeMap::new());
    info.remove(MixId::new(1));
    assert_eq!(info.peers().len(), 1);
    assert_eq!(info.peers()[0].peer_id, PortId::new(20));
    assert_eq!(info.peers()[0].properties.get("k").map(String::as_str), Some("v"));
}

#[test]
fn parameters_collection() {
    let mut params = Parameters::new();
    assert!(!params.is_modified());
    params.set_writable(1);
    assert!(params.take_modified());
    params.set(1, vec![PortParam::new(vec![1])]);
    params.set(1, vec![PortParam::new(vec![2]), PortParam::new(vec![3])]);
    assert_eq!(params.get(1).len(), 2);
    assert_eq!(params.get(1)[0].value, vec![2]);
    params.push(1, PortParam::new(vec![4]));
    assert_eq!(params.get(1).len(), 3);
    assert_eq!(params.entries().get(&1).unwrap().flags, PARAM_FLAG_READ | PARAM_FLAG_WRITE);
    assert!(params.remove(1));
    assert!(params.get(1).is_empty());
    assert_eq!(params.entries().get(&1).unwrap().flags, PARAM_FLAG_WRITE);
    // A removed parameter is not readable, whatever its flags were.
    assert!(!params.remove(2));
    assert_eq!(params.entries().get(&2).unwrap().flags, 0);
    params.set_writable(5);
    assert!(!params.remove(5));
    assert_eq!(params.entries().get(&5).unwrap().flags, PARAM_FLAG_WRITE);
}

#[test]
fn global_map_binds_and_unbinds() {
    let mut map = GlobalMap::new();
    map.insert(3, 40);
    map.insert(4, 41);
    assert_eq!(map.by_global(40), Some(3));
    assert_eq!(map.remove_by_global(40), Some(3));
    assert_eq!(map.by_global(40), None);
    assert_eq!(map.remove_by_global(40), None);
    assert_eq!(map.by_global(41), Some(4));
}

#[test]
fn client_nodes_keep_their_keys() {
    let mut nodes = ClientNodes::new();
    let a = nodes.insert(ClientNode::new(5, Ports::new(), 1, 2));
    let b = nodes.insert(ClientNode::new(6, Ports::new(), 3, 4));
    assert_ne!(a, b);
    assert_eq!(nodes.get(a).ok().map(|n| n.id), Some(5));
    assert_eq!(nodes.get_mut(b).ok().map(|n| n.id), Some(6));
    assert!(nodes.remove(a).is_some());
    assert!(nodes.remove(a).is_none());
    assert_eq!(nodes.get(a).err(), Some(NodeNotFound { id: a }));
}

#[test]
fn client_node_activation_updates() {
    let mut node = ClientNode::new(1, Ports::new(), 1, 2);
    assert_eq!(node.update_activation_record(), DriverUpdate::Nothing);
    let (old, update) = node.replace_activation(Region::new(0, 64, 0x1000));
    assert!(old.is_none());
    assert_eq!(update, DriverUpdate::Invalid);
    let (_, update) = node.replace_io_position(Region::new(0, 64, 0x2000));
    assert_eq!(update, DriverUpdate::FromPosition);
    let (old, update) = node.take_activation();
    assert_eq!(old.map(|r| r.as_ptr()), Some(0x1000));
    assert_eq!(update, DriverUpdate::Nothing);
    assert!(node.take_modified());
    node.set_param(4, vec![vec![1, 2, 3]]);
    assert!(node.take_modified());
    assert_eq!(node.params().get(&4).map(Vec::len), Some(1));
    node.remove_param(4);
    assert!(node.params().is_empty());
}

#[test]
fn peer_activation_version() {
    let a = PeerActivation::new(1, 9, Region::new(0, 8, 0x10), 0);
    assert_eq!(a.version, Version::V0);
    let b = PeerActivation::new(2, 9, Region::new(0, 8, 0x10), 3);
    assert_eq!(b.version, Version::V1);
    assert_eq!(b.peer_id, 2);
}

#[test]
fn stream_operations_follow_events() {
    let mut ops = Ops::new();
    assert_eq!(ops.pop(), Some(Op::CoreHello));
    assert_eq!(ops.pop(), None);
    ops.core_info();
    ops.core_done(GET_REGISTRY_SYNC, 1);
    ops.core_done(5, 2);
    ops.core_ping(3, 4);
    let node = ClientNodeId::new(0);
    ops.node_command(node, NODE_COMMAND_START);
    ops.node_command(node, NODE_COMMAND_PAUSE);
    ops.node_command(node, 99);
    ops.node_transport(node, true);
    ops.node_transport(node, false);
    assert_eq!(ops.pop(), Some(Op::GetRegistry));
    assert_eq!(ops.pop(), Some(Op::ConstructNode));
    assert_eq!(ops.pop(), Some(Op::Pong { id: 3, seq: 4 }));
    assert_eq!(ops.pop(), Some(Op::NodeStart { node_id: node }));
    assert_eq!(ops.pop(), Some(Op::NodePause { node_id: node }));
    assert_eq!(ops.pop(), Some(Op::NodeReadInterest { node_id: node }));
    assert_eq!(ops.pop(), None);
}

#[test]
fn stream_reports_node_events() {
    let node = ClientNodeId::new(2);
    let mut ops = Ops::new();
    ops.pop();
    ops.port_param(node, DIRECTION_OUTPUT, PortId::new(1), 4, true);
    ops.node_param(node, 7, false);
    ops.node_constructed(node);
    let op = ops.pop().unwrap();
    assert_eq!(
        op_event(op),
        Some(StreamEvent::SetPortParam(SetPortParamEvent {
            node_id: node,
            direction: DIRECTION_OUTPUT,
            port_id: PortId::new(1),
            param: 4,
        }))
    );
    let op = ops.pop().unwrap();
    assert_eq!(
        op,
        Op::NodeUpdate { node_id: node, what: Some(NodeUpdateWhat::RemoveNodeParam(7)) }
    );
    assert_eq!(op_event(ops.pop().unwrap()), Some(StreamEvent::NodeCreated(node)));
    assert_eq!(op_event(Op::NodeUpdate { node_id: node, what: None }), None);
    assert_eq!(op_event(Op::CoreHello), None);
}

#[test]
fn received_descriptors_are_taken_once() {
    let mut fds = vec![Some(10), Some(11), Some(12)];
    assert_eq!(take_fd(&mut fds, 2, -1), Ok(None));
    assert_eq!(take_fd(&mut fds, 2, 1), Ok(Some(11)));
    assert_eq!(take_fd(&mut fds, 2, 1), Err(FdError::AlreadyTaken { index: 1 }));
    assert_eq!(take_fd(&mut fds, 2, 2), Err(FdError::OutOfRange { index: 2, n_fds: 2 }));
    assert_eq!(take_fd(&mut fds, 5, 4), Err(FdError::NotStored { index: 4, stored: 3 }));
    assert_eq!(release_fds(&mut fds, 2), Ok(vec![10]));
    assert_eq!(fds, vec![Some(12)]);
    assert_eq!(release_fds(&mut fds, 2), Err(FdError::TooMany { n_fds: 2, stored: 1 }));
}

#[test]
fn objects_bind_globals_to_nodes() {
    let node = ClientNodeId::new(1);
    let mut objects = Objects::new();
    objects.register(5, Kind::ClientNode(node));
    objects.register(6, Kind::Registry);
    assert_eq!(objects.registry_global(100, 0), None);
    objects.bound_id(5, 100);
    objects.bound_id(6, 101);
    assert_eq!(objects.registry_global(100, 1), Some(Op::NodeUpdate { node_id: node, what: None }));
    assert_eq!(objects.registry_global(101, 2), None);
    assert_eq!(objects.kind(6), Some(Kind::Registry));
    assert_eq!(objects.forget_registry(100), Some(1));
    assert_eq!(objects.forget_registry(100), None);
    assert_eq!(objects.unbind(100), (Some(5), Some(node)));
    assert_eq!(objects.unbind(100), (None, None));
    assert_eq!(objects.unbind(101), (Some(6), None));
    assert_eq!(objects.kind(5), None);
}

#[test]
fn stats_merge_and_report() {
    let mut total = Stats::new();
    let mut part = Stats::new();
    part.non_ready = 2;
    part.non_ready_set.set(4);
    part.non_ready_set.set(4);
    part.signal_ok = 1;
    part.timing_sum = 300;
    part.timing_count = 3;
    total.non_ready_set.set(5);
    total.merge(&mut part);
    assert_eq!(part.non_ready, 0);
    assert_eq!(part.timing_count, 0);
    assert!(!part.non_ready_set.contains(4));
    assert_eq!(total.non_ready, 2);
    assert!(total.non_ready_set.contains(4) && total.non_ready_set.contains(5));
    assert_eq!(total.non_ready_set.ids().len(), 2);
    let report = total.report();
    assert_eq!(report.non_ready.map(|(n, ids)| (n, ids.len())), Some((2, 2)));
    assert_eq!(report.signals.map(|(e, o, _, _)| (e, o)), Some((0, 1)));
    assert_eq!(report.timing, Some((3, 300)));
    assert_eq!(report.no_input_buffer, None);
    assert_eq!(total.non_ready, 0);
    assert!(total.report().timing.is_none());
}

#[test]
fn id_set_union() {
    let mut a = IdSet::new();
    a.set(1);
    a.set(2);
    let mut b = IdSet::new();
    b.set(2);
    b.set(3);
    a.union(&b);
    assert_eq!(a.ids().len(), 3);
    assert!(a.contains(3));
    a.clear();
    assert!(!a.contains(1));
}

#[test]
fn io_buffers_layout_values() {
    let area = IoBuffers { status: STATUS_HAVE_DATA, buffer_id: 3 };
    assert_eq!(area.buffer_id, 3);
}

fn le_words(ws: &[u32]) -> Vec<u8> {
    let mut out = Vec::new();
    for w in ws {
        out.extend_from_slice(&w.to_le_bytes());
    }
    out
}

#[test]
fn hello_body_holds_the_version() {
    let client = Client::new();
    assert_eq!(client.core_hello(3), le_words(&[16, 14, 4, 4, 3, 0]));
}

#[test]
fn sync_numbers_each_request() {
    let mut client = Client::new();
    let (first, body) = client.core_sync(0x1000);
    assert_eq!(first, 1);
    assert_eq!(body, le_words(&[32, 14, 4, 4, 0x1000, 0, 4, 4, 1, 0]));
    let (second, _) = client.core_sync(7);
    assert_eq!(second, 2);
}

#[test]
fn request_bodies_read_back() {
    let client = Client::new();
    let body = client.core_pong(5, 9);
    let mut r = SliceBuf::new(&body);
    assert_eq!(read_struct(&mut r).unwrap(), vec![Field::Int(5), Field::Int(9)]);
    let body = client.core_get_registry(3, LocalId(2));
    let mut r = SliceBuf::new(&body);
    assert_eq!(read_struct(&mut r).unwrap(), vec![Field::Int(3), Field::Int(2)]);
    let body = client.client_node_get_node(4, 11);
    let mut r = SliceBuf::new(&body);
    assert_eq!(read_struct(&mut r).unwrap(), vec![Field::Int(4), Field::Int(11)]);
    let body = client.client_node_set_active(true);
    assert_eq!(body, le_words(&[16, 14, 4, 2, 1, 0]));
}

fn words_and(ws: &[u32], tail: &[u8]) -> Vec<u8> {
    let mut out = le_words(ws);
    out.extend_from_slice(tail);
    out
}

#[test]
fn port_update_body_carries_changes() {
    let client = Client::new();
    let mut props = Properties::new();
    props.insert(b"k".to_vec(), b"v".to_vec());
    let mut params = Parameters::new();
    let value = le_words(&[0, 15]);
    params.set(3, vec![PortParam::new(value.clone())]);
    let out = client.client_node_port_update(1, PortId::new(0), &mut props, &mut params).unwrap();
    assert!(!props.is_modified());
    assert!(!params.is_modified());
    let mut expected = le_words(&[224, 14]);
    expected.extend(le_words(&[4, 4, 1, 0, 4, 4, 0, 0, 4, 4, 3, 0, 4, 4, 1, 0]));
    expected.extend(value);
    expected.extend(le_words(&[144, 14]));
    expected.extend(le_words(&[8, 5, 13, 0, 8, 5, 0, 0, 8, 11, 0, 0, 4, 4, 1, 0]));
    expected.extend(words_and(&[2, 8], b"k\0\0\0\0\0\0\0"));
    expected.extend(words_and(&[2, 8], b"v\0\0\0\0\0\0\0"));
    expected.extend(le_words(&[4, 4, 1, 0, 4, 3, 3, 0, 4, 4, 2, 0]));
    assert_eq!(out, expected);
    // Nothing changed since: the information holds counts of zero.
    let out = client.client_node_port_update(1, PortId::new(0), &mut props, &mut params).unwrap();
    assert_eq!(out.len(), 8 + 64 + 8 + 8 + 16 * 5);
    assert_eq!(&out[80..96], &le_words(&[80, 14, 8, 5])[..]);
    assert_eq!(&out[96..104], &le_words(&[1, 0])[..]);
}

#[test]
fn properties_keep_their_order() {
    let mut props = Properties::new();
    props.insert(b"a".to_vec(), b"1".to_vec());
    props.insert(b"b".to_vec(), b"2".to_vec());
    props.insert(b"a".to_vec(), b"3".to_vec());
    assert_eq!(props.len(), 2);
    assert_eq!(props.pairs()[0], (b"a".to_vec(), b"3".to_vec()));
    assert!(props.take_modified());
    assert!(!props.is_modified());
}

#[test]
fn removed_parameters_are_not_readable() {
    let mut params = Parameters::new();
    params.set(2, vec![PortParam::new(vec![1])]);
    params.set(1, vec![]);
    assert_eq!(params.ids(), vec![1, 2]);
    assert!(params.remove(2));
    assert_eq!(params.flags_of(2), 0);
}

#[test]
fn node_update_body_without_changes() {
    let client = Client::new();
    let mut props = Properties::new();
    let params = Parameters::new();
    let out = client.client_node_update(4, 4, &mut props, &params).unwrap();
    let mut expected = le_words(&[136, 14, 4, 4, 3, 0, 4, 4, 0, 0, 96, 14]);
    expected.extend(le_words(&[4, 4, 4, 0, 4, 4, 4, 0, 8, 5, 1, 0, 8, 5, 6, 0]));
    expected.extend(le_words(&[4, 4, 0, 0, 4, 4, 0, 0]));
    assert_eq!(out, expected);
}

#[test]
fn operations_run_until_one_reports() {
    let mut ops = Ops::new();
    let node_id = ClientNodeId::new(3);
    ops.push(Op::NodeCreated { node_id });
    ops.push(Op::Pong { id: 1, seq: 2 });
    let (done, event) = ops.take_until_event();
    assert_eq!(done, vec![Op::CoreHello, Op::NodeCreated { node_id }]);
    assert_eq!(event, Some(StreamEvent::NodeCreated(node_id)));
    let (done, event) = ops.take_until_event();
    assert_eq!(done, vec![Op::Pong { id: 1, seq: 2 }]);
    assert_eq!(event, None);
    assert_eq!(ops.pop(), None);
}

#[test]
fn only_the_last_pending_signals() {
    let v0 = PeerActivation::new(1, 9, Region::new(0, 8, 0x10), 0);
    let v1 = PeerActivation::new(1, 9, Region::new(0, 8, 0x10), 1);
    assert_eq!(v0.after_decrement(2), SignalStep::Wait);
    assert_eq!(v0.after_decrement(1), SignalStep::Trigger);
    assert_eq!(v1.after_decrement(1), SignalStep::TriggerIfNotTriggered);
    assert_eq!(v1.after_decrement(0), SignalStep::Wait);
}

#[test]
fn only_changed_ports_are_published() {
    let mut ports = Ports::new();
    ports.insert(DIRECTION_INPUT).unwrap();
    ports.insert(DIRECTION_INPUT).unwrap();
    ports.insert(DIRECTION_OUTPUT).unwrap();
    assert_eq!(ports.take_modified(DIRECTION_INPUT), vec![PortId::new(0), PortId::new(1)]);
    assert!(ports.take_modified(DIRECTION_INPUT).is_empty());
    ports
        .get_mut(DIRECTION_INPUT, PortId::new(1))
        .unwrap()
        .set_param(3, vec![PortParam::new(vec![1])]);
    assert_eq!(ports.take_modified(DIRECTION_INPUT), vec![PortId::new(1)]);
    assert_eq!(ports.take_modified(DIRECTION_OUTPUT), vec![PortId::new(0)]);
}
