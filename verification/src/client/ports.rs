//! The ports of a client node: their parameters, buffers and links.

use std::collections::BTreeMap;

use vstd::prelude::*;

use super::buffer::Buffers;
use super::ffi::IoBuffers;
use super::id::{MixId, PortId};
use super::port_buffers::{freed_all, PortBuffers, DIRECTION_INPUT, DIRECTION_OUTPUT, OUTPUT_MIXES};
use super::region::Region;

verus! {

broadcast use vstd::std_specs::btree::group_btree_axioms;

/// The parameter is serialized.
pub const PARAM_FLAG_SERIAL: u32 = 1;

/// The parameter can be read.
pub const PARAM_FLAG_READ: u32 = 2;

/// The parameter can be written.
pub const PARAM_FLAG_WRITE: u32 = 4;

/// Why a port could not be added or found.
#[derive(Debug, Clone, Copy, PartialEq, Eq)]
pub enum PortError {
    /// No port of the direction has this identifier.
    NotFound { direction: u32, id: PortId },
    /// The direction has as many ports as identifiers.
    TooMany { direction: u32 },
}

/// The value of a port parameter, an encoded object, with its flags.
pub struct PortParam {
    /// The encoded object.
    pub value: Vec<u8>,
    /// The flags of the parameter.
    pub flags: u32,
}

impl PortParam {
    /// A parameter with no flags.
    pub fn new(value: Vec<u8>) -> (r: Self)
        ensures
            r.value@ == value@,
            r.flags == 0,
    {
        PortParam { value, flags: 0 }
    }

    /// A parameter with the given flags.
    pub fn with_flags(value: Vec<u8>, flags: u32) -> (r: Self)
        ensures
            r.value@ == value@,
            r.flags == flags,
    {
        PortParam { value, flags }
    }
}

/// The exchange area of one mix of a port.
pub struct PortMix {
    /// The mix the area belongs to.
    pub mix_id: MixId,
    /// The memory region of the area.
    pub region: Region<IoBuffers>,
}

/// The exchange areas of a port, one per mix.
pub struct PortMixes {
    pub buffers: Vec<PortMix>,
}

/// A peer linked to a port through a mix.
pub struct PortMixInfoPeer {
    /// The identifier of the mix.
    pub mix_id: MixId,
    /// The connected peer.
    pub peer_id: PortId,
    /// The properties of the peer.
    pub properties: BTreeMap<String, String>,
}

/// The peers linked to a port.
pub struct PortMixInfo {
    peers: Vec<PortMixInfoPeer>,
}

impl PortMixInfo {
    /// The peers, in the order they were linked.
    pub closed spec fn spec_peers(&self) -> Seq<PortMixInfoPeer> {
        self.peers@
    }

    /// No peers.
    pub fn new() -> (r: Self)
        ensures
            r.spec_peers() == Seq::<PortMixInfoPeer>::empty(),
    {
        PortMixInfo { peers: Vec::new() }
    }

    /// The peers, in the order they were linked.
    pub fn peers(&self) -> (r: &Vec<PortMixInfoPeer>)
        ensures
            r@ == self.spec_peers(),
    {
        &self.peers
    }

    /// Link the peer `peer_id` through the mix `mix_id`.
    pub fn insert(&mut self, mix_id: MixId, peer_id: PortId, properties: BTreeMap<String, String>)
        ensures
            final(self).spec_peers() == old(self).spec_peers().push(
                PortMixInfoPeer { mix_id, peer_id, properties },
            ),
    {
        self.peers.push(PortMixInfoPeer { mix_id, peer_id, properties });
    }

    /// Unlink every peer of the mix `mix_id`.
    pub fn remove(&mut self, mix_id: MixId)
        ensures
            final(self).spec_peers() == old(self).spec_peers().filter(
                |p: PortMixInfoPeer| p.mix_id != mix_id,
            ),
    {
        let ghost all = self.peers@;
        let ghost keep = |p: PortMixInfoPeer| p.mix_id != mix_id;
        let mut rest: Vec<PortMixInfoPeer> = Vec::new();
        core::mem::swap(&mut rest, &mut self.peers);
        let len = rest.len();
        let mut n: usize = 0;
        while n < len
            invariant
                n <= len,
                len == all.len(),
                keep == (|p: PortMixInfoPeer| p.mix_id != mix_id),
                rest@ == all.subrange(n as int, len as int),
                self.peers@ == all.subrange(0, n as int).filter(keep),
            decreases len - n,
        {
            let p = rest.remove(0);
            let kept = p.mix_id != mix_id;
            proof {
                reveal(Seq::filter);
                let s = all.subrange(0, n + 1);
                assert(s.drop_last() =~= all.subrange(0, n as int));
                assert(s.last() == p);
            }
            if kept {
                self.peers.push(p);
            }
            assert(rest@ =~= all.subrange(n + 1, len as int));
            n = n + 1;
        }
        assert(all.subrange(0, len as int) =~= all);
    }
}

/// A port of a client node.
pub struct Port {
    /// The direction of the port.
    pub direction: u32,
    /// Identifier of the port, unique per direction.
    pub id: PortId,
    /// The name of the port.
    pub name: String,
    /// The buffers of the port.
    pub port_buffers: PortBuffers,
    /// The clock region of the port.
    pub io_clock: Option<Region<()>>,
    /// The position region of the port.
    pub io_position: Option<Region<()>>,
    /// The exchange areas of the port.
    pub mixes: PortMixes,
    /// The peers linked to the port.
    pub mix_info: PortMixInfo,
    modified: bool,
    param_values: BTreeMap<u32, Vec<PortParam>>,
    param_flags: BTreeMap<u32, u32>,
}

/// The flags of a parameter after `flag` was set on them: unchanged when
/// every bit of `flag` is already set.
pub open spec fn add_flag(flags: Map<u32, u32>, id: u32, flag: u32) -> Map<u32, u32> {
    if !flags.contains_key(id) {
        flags.insert(id, flag)
    } else if flags[id] & flag == flag {
        flags
    } else {
        flags.insert(id, flags[id] | flag)
    }
}

/// Whether setting `flag` changes nothing.
pub open spec fn flag_is_set(flags: Map<u32, u32>, id: u32, flag: u32) -> bool {
    flags.contains_key(id) && flags[id] & flag == flag
}

/// Two ports agree on everything but their regions, buffers and exchange
/// areas.
pub open spec fn same_identity(a: Port, b: Port) -> bool {
    &&& a.spec_direction() == b.spec_direction()
    &&& a.spec_id() == b.spec_id()
    &&& a.spec_name() == b.spec_name()
    &&& a.spec_peers() == b.spec_peers()
    &&& a.spec_modified() == b.spec_modified()
    &&& a.spec_values() == b.spec_values()
    &&& a.spec_flags() == b.spec_flags()
}

impl Port {
    /// The direction of the port.
    pub closed spec fn spec_direction(&self) -> u32 {
        self.direction
    }

    /// The identifier of the port.
    pub closed spec fn spec_id(&self) -> PortId {
        self.id
    }

    /// The port as it is once published: the same, no longer changed.
    pub closed spec fn spec_published(self) -> Port {
        Port { modified: false, ..self }
    }

    /// Publishing a port keeps all but whether it changed.
    pub proof fn lemma_published(self)
        ensures
            self.spec_published().spec_id() == self.spec_id(),
            self.spec_published().spec_direction() == self.spec_direction(),
            self.spec_published().spec_name() == self.spec_name(),
            self.spec_published().spec_values() == self.spec_values(),
            self.spec_published().spec_flags() == self.spec_flags(),
            !self.spec_published().spec_modified(),
    {
    }

    /// The name of the port.
    pub closed spec fn spec_name(&self) -> Seq<char> {
        self.name@
    }

    /// The buffers of the port.
    pub closed spec fn spec_port_buffers(&self) -> PortBuffers {
        self.port_buffers
    }

    /// The clock region of the port.
    pub closed spec fn spec_io_clock(&self) -> Option<Region<()>> {
        self.io_clock
    }

    /// The position region of the port.
    pub closed spec fn spec_io_position(&self) -> Option<Region<()>> {
        self.io_position
    }

    /// The exchange areas of the port.
    pub closed spec fn spec_mixes(&self) -> Seq<PortMix> {
        self.mixes.buffers@
    }

    /// The peers linked to the port.
    pub closed spec fn spec_peers(&self) -> Seq<PortMixInfoPeer> {
        self.mix_info.spec_peers()
    }

    /// Whether the port changed since it was last published.
    pub closed spec fn spec_modified(&self) -> bool {
        self.modified
    }

    /// The values of each parameter.
    pub closed spec fn spec_values(&self) -> Map<u32, Vec<PortParam>> {
        self.param_values@
    }

    /// The flags of each parameter.
    pub closed spec fn spec_flags(&self) -> Map<u32, u32> {
        self.param_flags@
    }

    /// A new port without parameters, buffers or links, which counts as
    /// changed.
    pub fn new(direction: u32, id: PortId) -> (r: Self)
        ensures
            r.spec_direction() == direction,
            r.spec_id() == id,
            r.spec_name() == Seq::<char>::empty(),
            r.spec_modified(),
            r.spec_values() == Map::<u32, Vec<PortParam>>::empty(),
            r.spec_flags() == Map::<u32, u32>::empty(),
            r.spec_port_buffers().spec_sets().len() == 0,
            r.spec_port_buffers().spec_mixes().len() == (if direction == DIRECTION_OUTPUT {
                OUTPUT_MIXES
            } else {
                0
            }),
            forall|k: int| 0 <= k < r.spec_port_buffers().spec_mixes().len() ==> #[trigger] r.spec_port_buffers().spec_mixes()[k] == 0,
            r.spec_io_clock() is None,
            r.spec_io_position() is None,
            r.spec_mixes().len() == 0,
            r.spec_peers().len() == 0,
    {
        Port {
            direction,
            id,
            name: String::new(),
            port_buffers: PortBuffers::new(direction),
            io_clock: None,
            io_position: None,
            mixes: PortMixes { buffers: Vec::new() },
            mix_info: PortMixInfo::new(),
            modified: true,
            param_values: BTreeMap::new(),
            param_flags: BTreeMap::new(),
        }
    }

    /// Whether the port changed since it was last published, which it
    /// then no longer counts as.
    pub fn take_modified(&mut self) -> (r: bool)
        ensures
            r == old(self).spec_modified(),
            !final(self).spec_modified(),
            final(self).spec_values() == old(self).spec_values(),
            final(self).spec_flags() == old(self).spec_flags(),
            *final(self) == old(self).spec_published(),
    {
        let r = self.modified;
        self.modified = false;
        r
    }

    /// Set `flag` on the parameter `id`; the port changes unless every bit
    /// of the flag was set already.
    fn set_flag(&mut self, id: u32, flag: u32)
        ensures
            final(self).spec_flags() == add_flag(old(self).spec_flags(), id, flag),
            final(self).spec_values() == old(self).spec_values(),
            final(self).spec_modified() == (old(self).spec_modified() || !flag_is_set(
                old(self).spec_flags(),
                id,
                flag,
            )),
            final(self).spec_direction() == old(self).spec_direction(),
            final(self).spec_id() == old(self).spec_id(),
    {
        match self.param_flags.get(&id) {
            None => {
                self.param_flags.insert(id, flag);
            },
            Some(current) => {
                let current = *current;
                if current & flag == flag {
                    return;
                }
                self.param_flags.insert(id, current | flag);
            },
        }
        self.modified = true;
    }

    /// Mark the parameter `id` as readable.
    pub fn set_read(&mut self, id: u32)
        ensures
            final(self).spec_flags() == add_flag(old(self).spec_flags(), id, PARAM_FLAG_READ),
            final(self).spec_values() == old(self).spec_values(),
            final(self).spec_modified() == (old(self).spec_modified() || !flag_is_set(
                old(self).spec_flags(),
                id,
                PARAM_FLAG_READ,
            )),
    {
        self.set_flag(id, PARAM_FLAG_READ);
    }

    /// Mark the parameter `id` as writable.
    pub fn set_write(&mut self, id: u32)
        ensures
            final(self).spec_flags() == add_flag(old(self).spec_flags(), id, PARAM_FLAG_WRITE),
            final(self).spec_values() == old(self).spec_values(),
            final(self).spec_modified() == (old(self).spec_modified() || !flag_is_set(
                old(self).spec_flags(),
                id,
                PARAM_FLAG_WRITE,
            )),
    {
        self.set_flag(id, PARAM_FLAG_WRITE);
    }

    /// Set the values of the parameter `id`, which becomes readable.
    pub fn set_param(&mut self, id: u32, values: Vec<PortParam>)
        ensures
            final(self).spec_values() == old(self).spec_values().insert(id, values),
            final(self).spec_flags() == add_flag(old(self).spec_flags(), id, PARAM_FLAG_READ),
            final(self).spec_modified(),
    {
        self.param_values.insert(id, values);
        self.set_flag(id, PARAM_FLAG_READ);
        self.modified = true;
    }

    /// Append a value to the parameter `id`, which becomes readable.
    pub fn push_param(&mut self, id: u32, value: PortParam)
        ensures
            final(self).spec_values().dom() == old(self).spec_values().dom().insert(id),
            final(self).spec_values()[id]@ == (if old(self).spec_values().contains_key(id) {
                old(self).spec_values()[id]@
            } else {
                Seq::<PortParam>::empty()
            }).push(value),
            forall|k: u32|
                k != id && #[trigger] old(self).spec_values().contains_key(k) ==> final(self).spec_values()[k] == old(self).spec_values()[k],
            final(self).spec_flags() == add_flag(old(self).spec_flags(), id, PARAM_FLAG_READ),
            final(self).spec_modified(),
    {
        let mut values = match self.param_values.remove(&id) {
            Some(values) => values,
            None => Vec::new(),
        };
        values.push(value);
        self.param_values.insert(id, values);
        assert(self.param_values@.dom() =~= old(self).param_values@.dom().insert(id));
        self.set_flag(id, PARAM_FLAG_READ);
        self.modified = true;
    }

    /// Remove the values of the parameter `id` and return them, if it had
    /// any; a removed parameter is no longer readable, so the readable bit of
    /// its flags is cleared.
    pub fn remove_param(&mut self, id: u32) -> (r: Option<Vec<PortParam>>)
        ensures
            !old(self).spec_values().contains_key(id) ==> {
                &&& r is None
                &&& final(self).spec_values() == old(self).spec_values()
                &&& final(self).spec_flags() == old(self).spec_flags()
                &&& final(self).spec_modified() == old(self).spec_modified()
            },
            old(self).spec_values().contains_key(id) ==> {
                let flags = old(self).spec_flags();
                let before: u32 = if flags.contains_key(id) {
                    flags[id]
                } else {
                    0
                };
                &&& r == Some(old(self).spec_values()[id])
                &&& final(self).spec_values() == old(self).spec_values().remove(id)
                &&& final(self).spec_flags() == flags.insert(id, before & !PARAM_FLAG_READ)
                &&& final(self).spec_modified()
            },
    {
        let values = match self.param_values.remove(&id) {
            Some(values) => values,
            None => {
                return None;
            },
        };
        let before: u32 = match self.param_flags.get(&id) {
            Some(f) => *f,
            None => 0,
        };
        self.param_flags.insert(id, before & !PARAM_FLAG_READ);
        self.modified = true;
        Some(values)
    }

    /// The values of the parameter `id`; none if it has none.
    pub fn get_param(&self, id: u32) -> (r: &[PortParam])
        ensures
            r@ == (if self.spec_values().contains_key(id) {
                self.spec_values()[id]@
            } else {
                Seq::<PortParam>::empty()
            }),
    {
        match self.param_values.get(&id) {
            Some(values) => values.as_slice(),
            None => &[],
        }
    }

    /// The values of every parameter.
    pub fn param_values(&self) -> (r: &BTreeMap<u32, Vec<PortParam>>)
        ensures
            r@ == self.spec_values(),
    {
        &self.param_values
    }

    /// The flags of every parameter.
    pub fn param_flags(&self) -> (r: &BTreeMap<u32, u32>)
        ensures
            r@ == self.spec_flags(),
    {
        &self.param_flags
    }

    /// Replace the clock region, returning the old one.
    pub fn replace_io_clock(&mut self, io_clock: Option<Region<()>>) -> (r: Option<Region<()>>)
        ensures
            r == old(self).spec_io_clock(),
            final(self).spec_io_clock() == io_clock,
            final(self).spec_io_position() == old(self).spec_io_position(),
            final(self).spec_port_buffers() == old(self).spec_port_buffers(),
            final(self).spec_mixes() == old(self).spec_mixes(),
            same_identity(*final(self), *old(self)),
    {
        let old = self.io_clock.take();
        self.io_clock = io_clock;
        old
    }

    /// Replace the position region, returning the old one.
    pub fn replace_io_position(&mut self, io_position: Option<Region<()>>) -> (r: Option<
        Region<()>,
    >)
        ensures
            r == old(self).spec_io_position(),
            final(self).spec_io_position() == io_position,
            final(self).spec_io_clock() == old(self).spec_io_clock(),
            final(self).spec_port_buffers() == old(self).spec_port_buffers(),
            final(self).spec_mixes() == old(self).spec_mixes(),
            same_identity(*final(self), *old(self)),
    {
        let old = self.io_position.take();
        self.io_position = io_position;
        old
    }

    /// Add the exchange area of a mix.
    pub fn push_mix(&mut self, mix: PortMix)
        ensures
            final(self).spec_mixes() == old(self).spec_mixes().push(mix),
            final(self).spec_io_clock() == old(self).spec_io_clock(),
            final(self).spec_io_position() == old(self).spec_io_position(),
            final(self).spec_port_buffers() == old(self).spec_port_buffers(),
            same_identity(*final(self), *old(self)),
    {
        self.mixes.buffers.push(mix);
    }

    /// Remove the exchange areas of the mix `mix_id`, returning them in
    /// order.
    pub fn remove_mixes(&mut self, mix_id: MixId) -> (removed: Vec<PortMix>)
        ensures
            removed@ == old(self).spec_mixes().filter(|m: PortMix| m.mix_id == mix_id),
            final(self).spec_mixes() == old(self).spec_mixes().filter(
                |m: PortMix| m.mix_id != mix_id,
            ),
            final(self).spec_io_clock() == old(self).spec_io_clock(),
            final(self).spec_io_position() == old(self).spec_io_position(),
            final(self).spec_port_buffers() == old(self).spec_port_buffers(),
            same_identity(*final(self), *old(self)),
    {
        let ghost all = self.mixes.buffers@;
        let ghost keep = |m: PortMix| m.mix_id != mix_id;
        let ghost take = |m: PortMix| m.mix_id == mix_id;
        let mut rest: Vec<PortMix> = Vec::new();
        core::mem::swap(&mut rest, &mut self.mixes.buffers);
        let mut removed: Vec<PortMix> = Vec::new();
        let len = rest.len();
        let mut n: usize = 0;
        while n < len
            invariant
                n <= len,
                len == all.len(),
                keep == (|m: PortMix| m.mix_id != mix_id),
                take == (|m: PortMix| m.mix_id == mix_id),
                rest@ == all.subrange(n as int, len as int),
                self.mixes.buffers@ == all.subrange(0, n as int).filter(keep),
                removed@ == all.subrange(0, n as int).filter(take),
                self.io_clock == old(self).io_clock,
                self.io_position == old(self).io_position,
                self.port_buffers == old(self).port_buffers,
                same_identity(*self, *old(self)),
            decreases len - n,
        {
            let m = rest.remove(0);
            let kept = m.mix_id != mix_id;
            proof {
                reveal(Seq::filter);
                let s = all.subrange(0, n + 1);
                assert(s.drop_last() =~= all.subrange(0, n as int));
                assert(s.last() == m);
            }
            if kept {
                self.mixes.buffers.push(m);
            } else {
                removed.push(m);
            }
            assert(rest@ =~= all.subrange(n + 1, len as int));
            n = n + 1;
        }
        assert(all.subrange(0, len as int) =~= all);
        removed
    }

    /// The mix `mix_id` is gone: its buffers are freed.
    pub fn free_all(&mut self, mix_id: MixId)
        ensures
            freed_all(
                old(self).spec_port_buffers().model(),
                final(self).spec_port_buffers().model(),
                mix_id,
            ),
            final(self).spec_io_clock() == old(self).spec_io_clock(),
            final(self).spec_io_position() == old(self).spec_io_position(),
            final(self).spec_mixes() == old(self).spec_mixes(),
            same_identity(*final(self), *old(self)),
    {
        self.port_buffers.free_all(mix_id);
    }

    /// The server linked the mix `mix_id` to the port `peer_id` of a peer,
    /// or unlinked the mix when `peer_id` is negative.
    pub fn set_mix_info(&mut self, mix_id: MixId, peer_id: i32, properties: BTreeMap<String, String>)
        ensures
            peer_id >= 0 ==> final(self).spec_peers() == old(self).spec_peers().push(
                PortMixInfoPeer { mix_id, peer_id: PortId(peer_id as u32), properties },
            ),
            peer_id < 0 ==> final(self).spec_peers() == old(self).spec_peers().filter(
                |p: PortMixInfoPeer| p.mix_id != mix_id,
            ),
            final(self).spec_direction() == old(self).spec_direction(),
            final(self).spec_id() == old(self).spec_id(),
            final(self).spec_name() == old(self).spec_name(),
            final(self).spec_modified() == old(self).spec_modified(),
            final(self).spec_values() == old(self).spec_values(),
            final(self).spec_flags() == old(self).spec_flags(),
            final(self).spec_io_clock() == old(self).spec_io_clock(),
            final(self).spec_io_position() == old(self).spec_io_position(),
            final(self).spec_port_buffers() == old(self).spec_port_buffers(),
            final(self).spec_mixes() == old(self).spec_mixes(),
    {
        if peer_id >= 0 {
            self.mix_info.insert(mix_id, PortId::new(peer_id as u32), properties);
        } else {
            self.mix_info.remove(mix_id);
        }
    }

    /// Assign a new set of buffers, returning the sets it replaces.
    pub fn replace_buffers(&mut self, buffers: Buffers) -> (removed: Vec<Buffers>)
        ensures
            final(self).spec_port_buffers().spec_mixes() == old(self).spec_port_buffers().spec_mixes(),
            final(self).spec_io_clock() == old(self).spec_io_clock(),
            final(self).spec_io_position() == old(self).spec_io_position(),
            final(self).spec_mixes() == old(self).spec_mixes(),
            same_identity(*final(self), *old(self)),
            buffers.mix_id.0 == super::id::MIX_INVALID ==> {
                &&& removed@ == old(self).spec_port_buffers().spec_sets()
                &&& final(self).spec_port_buffers().spec_sets() == seq![buffers]
            },
            buffers.mix_id.0 != super::id::MIX_INVALID ==> {
                let mix = buffers.mix_id;
                &&& removed@ == old(self).spec_port_buffers().spec_sets().filter(
                    |b: Buffers| b.mix_id == mix,
                )
                &&& final(self).spec_port_buffers().spec_sets() == old(self).spec_port_buffers().spec_sets().filter(|b: Buffers| b.mix_id != mix).push(buffers)
            },
    {
        self.port_buffers.replace(buffers)
    }
}

/// The ports of a client node, by direction.
pub struct Ports {
    input_ports: Vec<Port>,
    output_ports: Vec<Port>,
}

/// Whether a direction is one a port can have.
pub open spec fn known_direction(direction: u32) -> bool {
    direction == DIRECTION_INPUT || direction == DIRECTION_OUTPUT
}

/// The identifiers of the ports that changed since they were last
/// published, in order.
pub open spec fn modified_ids(ports: Seq<Port>) -> Seq<PortId>
    decreases ports.len(),
{
    if ports.len() == 0 {
        Seq::empty()
    } else {
        modified_ids(ports.drop_last()) + (if ports.last().spec_modified() {
            seq![ports.last().spec_id()]
        } else {
            Seq::empty()
        })
    }
}

impl Ports {
    /// The ports of a direction.
    pub closed spec fn spec_ports(&self, direction: u32) -> Seq<Port> {
        if direction == DIRECTION_INPUT {
            self.input_ports@
        } else {
            self.output_ports@
        }
    }

    /// Each port knows its direction and its position.
    pub open spec fn wf(&self) -> bool {
        &&& forall|i: int|
            0 <= i < self.spec_ports(DIRECTION_INPUT).len() ==> {
                &&& (#[trigger] self.spec_ports(DIRECTION_INPUT)[i]).spec_id().0 == i
                &&& self.spec_ports(DIRECTION_INPUT)[i].spec_direction() == DIRECTION_INPUT
            }
        &&& forall|i: int|
            0 <= i < self.spec_ports(DIRECTION_OUTPUT).len() ==> {
                &&& (#[trigger] self.spec_ports(DIRECTION_OUTPUT)[i]).spec_id().0 == i
                &&& self.spec_ports(DIRECTION_OUTPUT)[i].spec_direction() == DIRECTION_OUTPUT
            }
    }

    /// No ports.
    pub fn new() -> (r: Self)
        ensures
            r.wf(),
            r.spec_ports(DIRECTION_INPUT).len() == 0,
            r.spec_ports(DIRECTION_OUTPUT).len() == 0,
    {
        Ports { input_ports: Vec::new(), output_ports: Vec::new() }
    }

    /// The input ports.
    pub fn inputs(&self) -> (r: &[Port])
        ensures
            r@ == self.spec_ports(DIRECTION_INPUT),
    {
        self.input_ports.as_slice()
    }

    /// The output ports.
    pub fn outputs(&self) -> (r: &[Port])
        ensures
            r@ == self.spec_ports(DIRECTION_OUTPUT),
    {
        self.output_ports.as_slice()
    }

    /// Add a port in `direction`; its identifier is its position. Fails when
    /// the direction has as many ports as identifiers.
    pub fn insert(&mut self, direction: u32) -> (r: Result<PortId, PortError>)
        requires
            old(self).wf(),
            known_direction(direction),
        ensures
            final(self).wf(),
            ({
                let ports = old(self).spec_ports(direction);
                &&& ports.len() <= u32::MAX ==> (r matches Ok(id) && {
                    let port = final(self).spec_ports(direction).last();
                    &&& id.0 == ports.len()
                    &&& final(self).spec_ports(direction).len() == ports.len() + 1
                    &&& final(self).spec_ports(direction).drop_last() == ports
                    &&& port.spec_id() == id
                    &&& port.spec_direction() == direction
                    &&& port.spec_modified()
                    &&& port.spec_values() == Map::<u32, Vec<PortParam>>::empty()
                    &&& port.spec_flags() == Map::<u32, u32>::empty()
                    &&& port.spec_name() == Seq::<char>::empty()
                    &&& port.spec_port_buffers().spec_sets().len() == 0
                    &&& port.spec_port_buffers().spec_mixes().len() == (if direction
                        == DIRECTION_OUTPUT {
                        OUTPUT_MIXES
                    } else {
                        0
                    })
                    &&& forall|k: int|
                        0 <= k < port.spec_port_buffers().spec_mixes().len()
                            ==> #[trigger] port.spec_port_buffers().spec_mixes()[k] == 0
                    &&& port.spec_io_clock() is None
                    &&& port.spec_io_position() is None
                    &&& port.spec_mixes().len() == 0
                    &&& port.spec_peers().len() == 0
                })
                &&& ports.len() > u32::MAX ==> r == Err::<PortId, PortError>(
                    PortError::TooMany { direction },
                ) && final(self).spec_ports(direction) == ports
            }),
            forall|d: u32|
                known_direction(d) && d != direction ==> final(self).spec_ports(d) == old(
                    self,
                ).spec_ports(d),
    {
        let len = if direction == DIRECTION_INPUT {
            self.input_ports.len()
        } else {
            self.output_ports.len()
        };
        if len > u32::MAX as usize {
            return Err(PortError::TooMany { direction });
        }
        let id = PortId::new(len as u32);
        let port = Port::new(direction, id);
        if direction == DIRECTION_INPUT {
            self.input_ports.push(port);
            assert(self.input_ports@.drop_last() =~= old(self).input_ports@);
        } else {
            self.output_ports.push(port);
            assert(self.output_ports@.drop_last() =~= old(self).output_ports@);
        }
        proof {
            let ins = self.spec_ports(direction);
            assert forall|i: int| 0 <= i < ins.len() implies (#[trigger] ins[i]).spec_id().0 == i
                && ins[i].spec_direction() == direction by {
                if i < len {
                    assert(ins[i] == old(self).spec_ports(direction)[i]);
                }
            }
            let other = if direction == DIRECTION_INPUT {
                DIRECTION_OUTPUT
            } else {
                DIRECTION_INPUT
            };
            let outs = self.spec_ports(other);
            assert(outs == old(self).spec_ports(other));
            assert forall|i: int| 0 <= i < outs.len() implies (#[trigger] outs[i]).spec_id().0 == i
                && outs[i].spec_direction() == other by {
                assert(outs[i] == old(self).spec_ports(other)[i]);
            }
        }
        Ok(id)
    }

    /// The port `id` of `direction`.
    pub fn get(&self, direction: u32, id: PortId) -> (r: Result<&Port, PortError>)
        requires
            known_direction(direction),
        ensures
            id.0 < self.spec_ports(direction).len() ==> r == Ok::<&Port, PortError>(
                &self.spec_ports(direction)[id.0 as int],
            ),
            id.0 >= self.spec_ports(direction).len() ==> r == Err::<&Port, PortError>(
                PortError::NotFound { direction, id },
            ),
    {
        let ports = if direction == DIRECTION_INPUT {
            &self.input_ports
        } else {
            &self.output_ports
        };
        let i = id.index();
        if i < ports.len() {
            Ok(&ports[i])
        } else {
            Err(PortError::NotFound { direction, id })
        }
    }

    /// The port `id` of `direction`, to change in place.
    pub fn get_mut(&mut self, direction: u32, id: PortId) -> (r: Result<&mut Port, PortError>)
        requires
            known_direction(direction),
        ensures
            id.0 < old(self).spec_ports(direction).len() ==> (r matches Ok(p) && {
                &&& *p == old(self).spec_ports(direction)[id.0 as int]
                &&& final(self).spec_ports(direction) == old(self).spec_ports(direction).update(
                    id.0 as int,
                    *final(p),
                )
            }),
            id.0 >= old(self).spec_ports(direction).len() ==> r is Err && final(self).spec_ports(
                direction,
            ) == old(self).spec_ports(direction),
            forall|d: u32|
                known_direction(d) && d != direction ==> final(self).spec_ports(d) == old(
                    self,
                ).spec_ports(d),
    {
        let i = id.index();
        if direction == DIRECTION_INPUT {
            if i < self.input_ports.len() {
                return Ok(&mut self.input_ports[i]);
            }
        } else {
            if i < self.output_ports.len() {
                return Ok(&mut self.output_ports[i]);
            }
        }
        Err(PortError::NotFound { direction, id })
    }

    /// The ports of `direction` that changed since they were last
    /// published, in order; every port of `direction` then counts as
    /// published.
    pub fn take_modified(&mut self, direction: u32) -> (r: Vec<PortId>)
        requires
            old(self).wf(),
            known_direction(direction),
        ensures
            final(self).wf(),
            r@ == modified_ids(old(self).spec_ports(direction)),
            final(self).spec_ports(direction) == old(self).spec_ports(direction).map_values(
                |p: Port| p.spec_published(),
            ),
            forall|d: u32|
                known_direction(d) && d != direction ==> final(self).spec_ports(d) == old(
                    self,
                ).spec_ports(d),
    {
        let ghost all = self.spec_ports(direction);
        let n = if direction == DIRECTION_INPUT {
            self.input_ports.len()
        } else {
            self.output_ports.len()
        };
        let mut out: Vec<PortId> = Vec::new();
        let mut i: usize = 0;
        while i < n
            invariant
                known_direction(direction),
                all == old(self).spec_ports(direction),
                n == all.len(),
                0 <= i <= n,
                self.wf(),
                self.spec_ports(direction) == all.take(i as int).map_values(
                    |p: Port| p.spec_published(),
                ) + all.skip(i as int),
                out@ == modified_ids(all.take(i as int)),
                forall|d: u32|
                    known_direction(d) && d != direction ==> self.spec_ports(d) == old(
                        self,
                    ).spec_ports(d),
            decreases n - i,
        {
            let ghost before = self.spec_ports(direction);
            let ghost pre_in = self.spec_ports(DIRECTION_INPUT);
            let ghost pre_out = self.spec_ports(DIRECTION_OUTPUT);
            proof {
                assert(before[i as int] == all[i as int]);
                assert(all[i as int].spec_id().0 == i);
            }
            let id = PortId::new(i as u32);
            let ghost port = all[i as int];
            let changed = match self.get_mut(direction, id) {
                Ok(p) => p.take_modified(),
                Err(_) => false,
            };
            proof {
                port.lemma_published();
                assert(self.spec_ports(direction) == before.update(i as int, port.spec_published()));
                assert(all.take(i + 1).drop_last() =~= all.take(i as int));
                assert(self.spec_ports(direction) =~= all.take(i + 1).map_values(
                    |p: Port| p.spec_published(),
                ) + all.skip(i + 1));
                let ins = self.spec_ports(DIRECTION_INPUT);
                let outs = self.spec_ports(DIRECTION_OUTPUT);
                assert(known_direction(DIRECTION_INPUT) && known_direction(DIRECTION_OUTPUT));
                if direction == DIRECTION_INPUT {
                    assert(outs == pre_out);
                    assert(ins.len() == pre_in.len());
                } else {
                    assert(ins == pre_in);
                    assert(outs.len() == pre_out.len());
                }
                assert forall|k: int| 0 <= k < ins.len() implies (#[trigger] ins[k]).spec_id().0 == k
                    && ins[k].spec_direction() == DIRECTION_INPUT by {
                    if direction == DIRECTION_INPUT && k == i {
                        assert(ins[k] == port.spec_published());
                    } else {
                        assert(ins[k] == pre_in[k]);
                        assert(pre_in[k].spec_id().0 == k);
                    }
                }
                assert forall|k: int| 0 <= k < outs.len() implies (#[trigger] outs[k]).spec_id().0 == k
                    && outs[k].spec_direction() == DIRECTION_OUTPUT by {
                    if direction == DIRECTION_OUTPUT && k == i {
                        assert(outs[k] == port.spec_published());
                    } else {
                        assert(outs[k] == pre_out[k]);
                        assert(pre_out[k].spec_id().0 == k);
                    }
                }
            }
            if changed {
                out.push(id);
            }
            proof {
                assert(out@ =~= modified_ids(all.take(i + 1)));
            }
            i = i + 1;
        }
        proof {
            assert(all.take(n as int) =~= all);
            assert(all.skip(n as int) =~= Seq::<Port>::empty());
            assert(self.spec_ports(direction) =~= all.map_values(|p: Port| p.spec_published()));
        }
        out
    }
}

/// Setting the values of a port parameter and then removing them hands the
/// values back, leaves no values for it, and clears its readable bit while
/// keeping its other flags.
pub proof fn lemma_port_set_then_remove(
    values: Map<u32, Vec<PortParam>>,
    flags: Map<u32, u32>,
    id: u32,
    set: Vec<PortParam>,
)
    ensures
        values.insert(id, set).contains_key(id),
        values.insert(id, set)[id] == set,
        values.insert(id, set).remove(id) == values.remove(id),
        ({
            let after_set = add_flag(flags, id, PARAM_FLAG_READ);
            let after_remove = after_set[id] & !PARAM_FLAG_READ;
            &&& after_set.contains_key(id)
            &&& after_remove & PARAM_FLAG_READ == 0
            &&& flags.contains_key(id) ==> after_remove == flags[id] & !PARAM_FLAG_READ
            &&& !flags.contains_key(id) ==> after_remove == 0
        }),
{
    assert(values.insert(id, set).remove(id) =~= values.remove(id));
    if flags.contains_key(id) {
        let f = flags[id];
        assert(((f | 2u32) & !2u32) & 2u32 == 0 && ((f | 2u32) & !2u32) == f & !2u32)
            by (bit_vector);
    } else {
        assert((2u32 & !2u32) == 0u32 && 0u32 & 2u32 == 0u32) by (bit_vector);
    }
}

} // verus!
