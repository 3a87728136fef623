use pod::client::client_node::{ClientNode, DriverUpdate};
use pod::client::ffi::{Chunk, IoBuffers};
use pod::client::id::{MixId, PortId};
use pod::client::memory::{Memory, MemoryError, DATA_TYPE_MEM_FD, DATA_TYPE_MEM_PTR};
use pod::client::node_io::{
    node_set_activation, node_set_io, node_transport, port_set_io, IoError, IO_BUFFERS, IO_CLOCK,
    IO_CONTROL, IO_POSITION,
};
use pod::client::port_buffers::DIRECTION_OUTPUT;
use pod::client::ports::{Port, Ports};
use pod::client::region::RegionError;
use pod::client::use_buffers::{
    use_buffer, use_buffers, BufferDesc, DataDesc, MetaDesc, UseBuffersError,
};

/// A clock area of sixteen bytes.
#[allow(dead_code)]
struct Clock([u64; 2]);

/// A position area of eight bytes.
#[allow(dead_code)]
struct Position(u64);

fn memory_with(mem_id: u32, size: usize) -> Memory {
    let mut memory = Memory::new();
    memory.insert(mem_id, DATA_TYPE_MEM_FD, 3, 3, size, 0x10000).unwrap();
    memory
}

#[test]
fn port_clock_is_mapped_and_replaced() {
    let mut memory = memory_with(1, 4096);
    let mut port = Port::new(DIRECTION_OUTPUT, PortId::new(0));
    let freed = port_set_io::<Clock, Position>(&mut memory, &mut port, MixId::zero(), IO_CLOCK, 1, 64, 16)
        .unwrap();
    assert!(freed.is_empty());
    assert_eq!(port.io_clock.as_ref().map(|r| r.as_ptr()), Some(0x10040));
    assert_eq!(memory.users(0), Some(2));
    port_set_io::<Clock, Position>(&mut memory, &mut port, MixId::zero(), IO_CLOCK, 1, 128, 16).unwrap();
    assert_eq!(port.io_clock.as_ref().map(|r| r.as_ptr()), Some(0x10080));
    assert_eq!(memory.users(0), Some(2));
    port_set_io::<Clock, Position>(&mut memory, &mut port, MixId::zero(), IO_CLOCK, -1, 0, 0).unwrap();
    assert!(port.io_clock.is_none());
    assert_eq!(memory.users(0), Some(1));
}

#[test]
fn port_io_errors() {
    let mut memory = memory_with(1, 4096);
    let mut port = Port::new(DIRECTION_OUTPUT, PortId::new(0));
    assert_eq!(
        port_set_io::<Clock, Position>(&mut memory, &mut port, MixId::new(1), IO_POSITION, 1, 0, 8)
            .err(),
        Some(IoError::MixNotZero { io_type: IO_POSITION })
    );
    assert_eq!(
        port_set_io::<Clock, Position>(&mut memory, &mut port, MixId::zero(), IO_POSITION, 2, 0, 8)
            .err(),
        Some(IoError::Memory(MemoryError::Missing { mem_id: 2 }))
    );
    assert_eq!(
        port_set_io::<Clock, Position>(&mut memory, &mut port, MixId::zero(), IO_POSITION, 1, 0, 12)
            .err(),
        Some(IoError::Region(RegionError::SizeMismatch { expected: 8, actual: 12 }))
    );
    // The failed cast keeps the user it gained, as the region is not dropped.
    assert_eq!(memory.users(0), Some(2));
    // Unknown areas are ignored.
    assert!(port_set_io::<Clock, Position>(&mut memory, &mut port, MixId::zero(), 99, 1, 0, 8)
        .unwrap()
        .is_empty());
}

#[test]
fn port_buffers_area_per_mix() {
    let mut memory = memory_with(1, 4096);
    let mut port = Port::new(DIRECTION_OUTPUT, PortId::new(0));
    assert_eq!(std::mem::size_of::<IoBuffers>(), 8);
    port_set_io::<Clock, Position>(&mut memory, &mut port, MixId::new(2), IO_BUFFERS, 1, 0, 8).unwrap();
    port_set_io::<Clock, Position>(&mut memory, &mut port, MixId::new(3), IO_BUFFERS, 1, 8, 8).unwrap();
    port_set_io::<Clock, Position>(&mut memory, &mut port, MixId::new(2), IO_BUFFERS, 1, 16, 8).unwrap();
    assert_eq!(port.mixes.buffers.len(), 3);
    assert_eq!(memory.users(0), Some(4));
    let freed =
        port_set_io::<Clock, Position>(&mut memory, &mut port, MixId::new(2), IO_BUFFERS, -1, 0, 0)
            .unwrap();
    assert!(freed.is_empty());
    assert_eq!(port.mixes.buffers.len(), 1);
    assert_eq!(port.mixes.buffers[0].mix_id, MixId::new(3));
    assert_eq!(memory.users(0), Some(2));
}

#[test]
fn node_areas() {
    let mut memory = memory_with(1, 4096);
    let mut node = ClientNode::new(1, Ports::new(), 1, 2);
    let (freed, updates) =
        node_set_io::<Clock, Position>(&mut memory, &mut node, IO_CONTROL, 1, 0, 100).unwrap();
    assert!(freed.is_empty() && updates.is_empty());
    assert_eq!(node.io_control.as_ref().map(|r| r.len()), Some(100));
    let (_, updates) =
        node_set_io::<Clock, Position>(&mut memory, &mut node, IO_POSITION, 1, 128, 8).unwrap();
    assert_eq!(updates, vec![DriverUpdate::Nothing, DriverUpdate::Nothing]);
    assert_eq!(memory.users(0), Some(3));
    let (freed, _, fds) =
        node_transport::<Position>(&mut memory, &mut node, Some(7), Some(8), 1, 256, 8).unwrap();
    assert!(freed.is_empty());
    assert_eq!(fds, Some((None, None)));
    assert_eq!(node.read_fd, Some(7));
    let (_, updates) =
        node_set_io::<Clock, Position>(&mut memory, &mut node, IO_POSITION, -1, 0, 0).unwrap();
    assert_eq!(updates, vec![DriverUpdate::Invalid]);
    assert_eq!(memory.users(0), Some(3));
    assert_eq!(
        node_set_io::<Clock, Position>(&mut memory, &mut node, IO_CLOCK, 1, 0, 8).err(),
        Some(IoError::Region(RegionError::SizeMismatch { expected: 16, actual: 8 }))
    );
}

#[test]
fn peer_activations_are_replaced() {
    let mut memory = memory_with(1, 4096);
    let mut node = ClientNode::new(1, Ports::new(), 1, 2);
    let (freed, region) =
        node_set_activation::<Position>(&mut memory, &mut node, 4, Some(9), 1, 0, 8).unwrap();
    assert!(freed.is_empty());
    let region = region.unwrap();
    assert_eq!(region.as_ptr(), 0x10000);
    node.push_peer(pod::client::activation::PeerActivation::new(4, 9, region.erase(), 1));
    assert_eq!(node.peer_activations.len(), 1);
    let (_, region) =
        node_set_activation::<Position>(&mut memory, &mut node, 4, None, 1, 0, 8).unwrap();
    assert!(region.is_none());
    assert!(node.peer_activations.is_empty());
    assert_eq!(memory.users(0), Some(1));
}

fn desc(mem_id: u32, datas: Vec<DataDesc>) -> BufferDesc {
    BufferDesc {
        mem_id,
        offset: 0,
        size: 256,
        metas: vec![MetaDesc { ty: 1, size: 12 }, MetaDesc { ty: 2, size: 16 }],
        datas,
    }
}

#[test]
fn buffers_are_laid_out() {
    let mut memory = memory_with(1, 4096);
    assert_eq!(std::mem::size_of::<Chunk>(), 16);
    let ptr = DataDesc { ty: DATA_TYPE_MEM_PTR, data: 128, flags: 5, offset: 0, max_size: 64 };
    let b = use_buffer(&mut memory, 0, &desc(1, vec![ptr])).unwrap();
    assert_eq!(b.metas.len(), 2);
    assert_eq!(b.metas[0].region.as_ptr(), 0x10000);
    assert_eq!(b.metas[1].region.as_ptr(), 0x10010);
    assert_eq!(b.datas[0].chunk.as_ptr(), 0x10020);
    assert_eq!(b.datas[0].region.as_ptr(), 0x10080);
    assert_eq!(b.datas[0].region.len(), 64);
    assert_eq!(b.datas[0].flags, 5);
    // Two metadata regions, a chunk and the data gained users.
    assert_eq!(memory.users(0), Some(5));
}

#[test]
fn buffer_errors() {
    let mut memory = memory_with(1, 4096);
    let bad = DataDesc { ty: 9, data: 0, flags: 0, offset: 0, max_size: 8 };
    assert_eq!(
        use_buffer(&mut memory, 0, &desc(1, vec![bad])).err(),
        Some(UseBuffersError::UnsupportedType { ty: 9 })
    );
    let offset = DataDesc { ty: DATA_TYPE_MEM_PTR, data: 0, flags: 0, offset: 4, max_size: 8 };
    assert_eq!(
        use_buffer(&mut memory, 0, &desc(1, vec![offset])).err(),
        Some(UseBuffersError::DataOffset { offset: 4 })
    );
    let far = DataDesc { ty: DATA_TYPE_MEM_FD, data: 5, flags: 0, offset: 0, max_size: 8 };
    assert_eq!(
        use_buffer(&mut memory, 0, &desc(1, vec![far])).err(),
        Some(UseBuffersError::Memory(MemoryError::Missing { mem_id: 5 }))
    );
    assert_eq!(
        use_buffer(&mut memory, 0, &desc(2, Vec::new())).err(),
        Some(UseBuffersError::Memory(MemoryError::Missing { mem_id: 2 }))
    );
}

#[test]
fn buffer_sets_replace_each_other() {
    let mut memory = memory_with(1, 4096);
    memory.insert(2, DATA_TYPE_MEM_FD, 4, 3, 4096, 0x20000).unwrap();
    let mut port = Port::new(DIRECTION_OUTPUT, PortId::new(0));
    let fd = DataDesc { ty: DATA_TYPE_MEM_FD, data: 2, flags: 0, offset: 0, max_size: 64 };
    let descs = vec![desc(1, vec![fd]), desc(1, Vec::new())];
    let freed = use_buffers(&mut memory, &mut port, DIRECTION_OUTPUT, PortId::new(0), MixId::invalid(), 0, &descs)
        .unwrap();
    assert!(freed.is_empty());
    assert_eq!(port.port_buffers.sets().len(), 1);
    assert_eq!(port.port_buffers.sets()[0].buffers.len(), 2);
    assert_eq!(port.port_buffers.sets()[0].buffers[1].id, 1);
    assert_eq!(memory.users(1), Some(2));
    let users = memory.users(0);
    use_buffers(&mut memory, &mut port, DIRECTION_OUTPUT, PortId::new(0), MixId::invalid(), 0, &Vec::new())
        .unwrap();
    assert_eq!(port.port_buffers.sets()[0].buffers.len(), 0);
    assert_eq!(memory.users(1), Some(1));
    assert!(memory.users(0) < users);
    assert_eq!(memory.users(0), Some(1));
}
