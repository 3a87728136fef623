//! The bookkeeping of a PipeWire client: identifiers, mapped memory, nodes
//! and their ports.

pub mod activation;
pub mod bits;
pub mod buffer;
pub mod client_node;
pub mod events;
pub mod ffi;
pub mod global_map;
pub mod id;
pub mod memory;
pub mod node_io;
pub mod parameters;
pub mod port_buffers;
pub mod ports;
pub mod properties;
pub mod region;
pub mod requests;
pub mod stats;
pub mod stream;
pub mod use_buffers;

pub use self::activation::{PeerActivation, Version};
pub use self::client_node::{ClientNode, ClientNodes};
pub use self::global_map::GlobalMap;
pub use self::id::{ClientNodeId, GlobalId, LocalId, MixId, PortId};
pub use self::memory::Memory;
pub use self::parameters::Parameters;
pub use self::port_buffers::PortBuffers;
pub use self::ports::{Port, PortMixInfo, PortMixInfoPeer, PortParam, Ports};
pub use self::region::{Region, RegionError};
