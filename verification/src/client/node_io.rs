//! Where the server puts the IO areas of nodes and ports: regions of shared
//! memory that replace the ones before them.

use vstd::layout::{align_of, size_of};
use vstd::prelude::*;

use super::activation::PeerActivation;
use super::client_node::{driver_update, node_same, ClientNode, DriverUpdate};
use super::ffi::IoBuffers;
use super::id::{MixId, MIX_ZERO};
use super::memory::{
    map_error, release, release_all, release_region, track_files, File, Memory, MemoryError,
};
use super::port_buffers::freed_all;
use super::ports::{same_identity, Port, PortMix};
use super::region::{Region, RegionError};

verus! {

/// The area of the buffers exchanged with a peer.
pub const IO_BUFFERS: u32 = 1;

/// The area of the clock of the graph.
pub const IO_CLOCK: u32 = 3;

/// The area of the control messages.
pub const IO_CONTROL: u32 = 5;

/// The area of the position of the graph.
pub const IO_POSITION: u32 = 7;

/// Why an IO area could not be set.
#[derive(Debug, Clone, Copy, PartialEq, Eq)]
pub enum IoError {
    /// The memory could not be handed out.
    Memory(MemoryError),
    /// The memory does not hold the area.
    Region(RegionError),
    /// An area of this type is shared by every mix and must name mix zero.
    MixNotZero { io_type: u32 },
}

/// The memory identifier on the wire: negative for none.
pub open spec fn mem_of(mem_id: i32) -> Option<u32> {
    if mem_id < 0 {
        None
    } else {
        Some(mem_id as u32)
    }
}

/// Why memory at `addr` of `size` bytes does not hold one `U`, if it does
/// not.
pub open spec fn cast_error<U>(addr: int, size: usize) -> Option<RegionError> {
    if addr % (align_of::<U>() as int) != 0 {
        Some(RegionError::Misaligned { addr: addr as usize, align: align_of::<U>() as usize })
    } else if size != size_of::<U>() {
        Some(RegionError::SizeMismatch { expected: size_of::<U>() as usize, actual: size })
    } else {
        None
    }
}

/// The file key of an optional region.
pub open spec fn file_of<T: ?Sized>(region: Option<Region<T>>) -> Option<usize> {
    match region {
        Some(r) => Some(r.spec_file()),
        None => None,
    }
}

/// What handing out the `size` bytes at `offset` of the memory `mem_id` as
/// one `U` does, given the memory before: the error, or the key and address
/// of the region; either way the files afterwards.
pub open spec fn map_cast_outcome<U>(
    ids: Map<u32, usize>,
    files: Map<usize, File>,
    mem_id: u32,
    offset: usize,
    size: usize,
) -> (Result<(usize, int), IoError>, Map<usize, File>) {
    match map_error(ids, files, mem_id, offset, size) {
        Some(e) => (Err(IoError::Memory(e)), files),
        None => {
            let key = ids[mem_id];
            let addr = files[key].addr + offset;
            match cast_error::<U>(addr, size) {
                Some(e) => (Err(IoError::Region(e)), track_files(files, key)),
                None => (Ok((key, addr)), track_files(files, key)),
            }
        },
    }
}

/// Hand out the `size` bytes at `offset` of the memory `mem_id` as one `U`.
fn map_cast<U>(memory: &mut Memory, mem_id: u32, offset: usize, size: usize) -> (r: Result<
    Region<U>,
    IoError,
>)
    requires
        old(memory).wf(),
        old(memory).can_track(mem_id),
        size_of::<U>() > 0,
    ensures
        final(memory).wf(),
        final(memory).spec_ids() == old(memory).spec_ids(),
        ({
            let (outcome, files) = map_cast_outcome::<U>(
                old(memory).spec_ids(),
                old(memory).spec_files(),
                mem_id,
                offset,
                size,
            );
            &&& final(memory).spec_files() == files
            &&& match outcome {
                Err(e) => r == Err::<Region<U>, IoError>(e),
                Ok((key, addr)) => r matches Ok(c) && c.spec_file() == key && c.spec_addr() == addr
                    && c.spec_size() == size,
            }
        }),
{
    let region = match memory.map(mem_id, offset, size) {
        Ok(region) => region,
        Err(e) => {
            return Err(IoError::Memory(e));
        },
    };
    proof {
        broadcast use vstd::layout::layout_of_primitives;
    }
    match region.cast::<U>() {
        Ok(c) => Ok(c),
        Err(e) => Err(IoError::Region(e)),
    }
}

/// The file keys of the regions of exchange areas, in order.
pub open spec fn mix_files(mixes: Seq<PortMix>) -> Seq<usize> {
    mixes.map_values(|m: PortMix| m.region.spec_file())
}

/// Drop an optional region; returns its file if it lost its last user.
fn free_region<T: ?Sized>(memory: &mut Memory, region: Option<Region<T>>) -> (r: Vec<File>)
    requires
        old(memory).wf(),
    ensures
        final(memory).wf(),
        final(memory).spec_ids() == old(memory).spec_ids(),
        (final(memory).spec_files(), r@) == release_region(old(memory).spec_files(), file_of(region)),
{
    let mut released: Vec<File> = Vec::new();
    if let Some(region) = region {
        if let Some(f) = memory.free(region) {
            released.push(f);
        }
    }
    assert(released@ =~= release_region(old(memory).spec_files(), file_of(region)).1);
    released
}

/// Drop the regions of exchange areas in order; returns the files that lost
/// their last user.
fn free_mixes(memory: &mut Memory, mixes: Vec<PortMix>) -> (r: Vec<File>)
    requires
        old(memory).wf(),
    ensures
        final(memory).wf(),
        final(memory).spec_ids() == old(memory).spec_ids(),
        (final(memory).spec_files(), r@) == release_all(old(memory).spec_files(), mix_files(mixes@)),
{
    let ghost all = mixes@;
    let mut rest = mixes;
    let mut released: Vec<File> = Vec::new();
    let len = rest.len();
    let mut n: usize = 0;
    while n < len
        invariant
            n <= len,
            len == all.len(),
            rest@ == all.subrange(n as int, len as int),
            memory.wf(),
            memory.spec_ids() == old(memory).spec_ids(),
            (memory.spec_files(), released@) == release_all(
                old(memory).spec_files(),
                mix_files(all.subrange(0, n as int)),
            ),
        decreases len - n,
    {
        let m = rest.remove(0);
        proof {
            assert(mix_files(all.subrange(0, n + 1)).drop_last() =~= mix_files(
                all.subrange(0, n as int),
            ));
            assert(mix_files(all.subrange(0, n + 1)).last() == m.region.spec_file());
        }
        let ghost before = released@;
        let freed = memory.free(m.region);
        if let Some(f) = freed {
            released.push(f);
        }
        proof {
            let (_, last) = release_region(
                release_all(old(memory).spec_files(), mix_files(all.subrange(0, n as int))).0,
                Some(m.region.spec_file()),
            );
            assert(released@ =~= before + last);
        }
        assert(rest@ =~= all.subrange(n + 1, len as int));
        n = n + 1;
    }
    assert(all.subrange(0, len as int) =~= all);
    released
}

/// The server placed the area of type `io_type` of the mix `mix_id` of a
/// port in the `size` bytes at `offset` of the memory `mem_id`, or removed
/// it when `mem_id` is negative. The clock area `C` and the position area
/// `P` are shared by every mix and must name mix zero; the buffers area is
/// kept per mix, and setting it first frees the buffers the mix held. Other
/// areas are ignored. Returns the files that lost their last user.
pub fn port_set_io<C, P>(
    memory: &mut Memory,
    port: &mut Port,
    mix_id: MixId,
    io_type: u32,
    mem_id: i32,
    offset: usize,
    size: usize,
) -> (r: Result<Vec<File>, IoError>)
    requires
        old(memory).wf(),
        size_of::<C>() > 0,
        size_of::<P>() > 0,
        size_of::<IoBuffers>() > 0,
        mem_of(mem_id) matches Some(m) ==> old(memory).can_track(m),
    ensures
        final(memory).wf(),
        final(memory).spec_ids() == old(memory).spec_ids(),
        same_identity(*final(port), *old(port)),
        ({
            let ids = old(memory).spec_ids();
            let files = old(memory).spec_files();
            let clock = old(port).spec_io_clock();
            let position = old(port).spec_io_position();
            let mixes = old(port).spec_mixes();
            if io_type == IO_CLOCK || io_type == IO_POSITION {
                let current = if io_type == IO_CLOCK {
                    clock
                } else {
                    position
                };
                let changed = if io_type == IO_CLOCK {
                    final(port).spec_io_clock()
                } else {
                    final(port).spec_io_position()
                };
                let untouched = if io_type == IO_CLOCK {
                    final(port).spec_io_position() == position
                } else {
                    final(port).spec_io_clock() == clock
                };
                &&& final(port).spec_port_buffers() == old(port).spec_port_buffers()
                &&& final(port).spec_mixes() == mixes
                &&& untouched
                &&& if mix_id.0 != MIX_ZERO {
                    &&& r == Err::<Vec<File>, IoError>(IoError::MixNotZero { io_type })
                    &&& changed == current
                    &&& final(memory).spec_files() == files
                } else {
                    match mem_of(mem_id) {
                        None => {
                            let (after, freed) = release_region(files, file_of(current));
                            &&& (r matches Ok(v) && v@ == freed)
                            &&& changed is None
                            &&& final(memory).spec_files() == after
                        },
                        Some(m) => {
                            let (outcome, mapped) = if io_type == IO_CLOCK {
                                map_cast_outcome::<C>(ids, files, m, offset, size)
                            } else {
                                map_cast_outcome::<P>(ids, files, m, offset, size)
                            };
                            match outcome {
                                Err(e) => {
                                    &&& r == Err::<Vec<File>, IoError>(e)
                                    &&& changed == current
                                    &&& final(memory).spec_files() == mapped
                                },
                                Ok((key, addr)) => {
                                    let (after, freed) = release_region(mapped, file_of(current));
                                    &&& (r matches Ok(v) && v@ == freed)
                                    &&& (changed matches Some(c) && c.spec_file() == key
                                        && c.spec_addr() == addr && c.spec_size() == size)
                                    &&& final(memory).spec_files() == after
                                },
                            }
                        },
                    }
                }
            } else if io_type == IO_BUFFERS {
                &&& final(port).spec_io_clock() == clock
                &&& final(port).spec_io_position() == position
                &&& freed_all(
                    old(port).spec_port_buffers().model(),
                    final(port).spec_port_buffers().model(),
                    mix_id,
                )
                &&& match mem_of(mem_id) {
                    None => {
                        let gone = mixes.filter(|p: PortMix| p.mix_id == mix_id);
                        let (after, freed) = release_all(files, mix_files(gone));
                        &&& (r matches Ok(v) && v@ == freed)
                        &&& final(port).spec_mixes() == mixes.filter(
                            |p: PortMix| p.mix_id != mix_id,
                        )
                        &&& final(memory).spec_files() == after
                    },
                    Some(m) => {
                        let (outcome, mapped) = map_cast_outcome::<IoBuffers>(
                            ids,
                            files,
                            m,
                            offset,
                            size,
                        );
                        &&& final(memory).spec_files() == mapped
                        &&& match outcome {
                            Err(e) => r == Err::<Vec<File>, IoError>(e) && final(port).spec_mixes()
                                == mixes,
                            Ok((key, addr)) => {
                                let added = final(port).spec_mixes().last();
                                &&& (r matches Ok(v) && v@.len() == 0)
                                &&& final(port).spec_mixes() == mixes.push(added)
                                &&& added.mix_id == mix_id
                                &&& added.region.spec_file() == key
                                &&& added.region.spec_addr() == addr
                                &&& added.region.spec_size() == size
                            },
                        }
                    },
                }
            } else {
                &&& r matches Ok(v) && v@.len() == 0
                &&& *final(port) == *old(port)
                &&& final(memory).spec_files() == files
            }
        }),
{
    let mem: Option<u32> = if mem_id < 0 {
        None
    } else {
        Some(mem_id as u32)
    };
    if io_type == IO_CLOCK || io_type == IO_POSITION {
        if mix_id.0 != MIX_ZERO {
            return Err(IoError::MixNotZero { io_type });
        }
        match mem {
            None => {
                let current = if io_type == IO_CLOCK {
                    port.replace_io_clock(None)
                } else {
                    port.replace_io_position(None)
                };
                Ok(free_region(memory, current))
            },
            Some(m) => {
                let region = if io_type == IO_CLOCK {
                    match map_cast::<C>(memory, m, offset, size) {
                        Ok(c) => c.erase(),
                        Err(e) => {
                            return Err(e);
                        },
                    }
                } else {
                    match map_cast::<P>(memory, m, offset, size) {
                        Ok(c) => c.erase(),
                        Err(e) => {
                            return Err(e);
                        },
                    }
                };
                let current = if io_type == IO_CLOCK {
                    port.replace_io_clock(Some(region))
                } else {
                    port.replace_io_position(Some(region))
                };
                Ok(free_region(memory, current))
            },
        }
    } else if io_type == IO_BUFFERS {
        port.free_all(mix_id);
        match mem {
            Some(m) => {
                let region = match map_cast::<IoBuffers>(memory, m, offset, size) {
                    Ok(c) => c,
                    Err(e) => {
                        return Err(e);
                    },
                };
                port.push_mix(PortMix { mix_id, region });
                Ok(Vec::new())
            },
            None => {
                let gone = port.remove_mixes(mix_id);
                Ok(free_mixes(memory, gone))
            },
        }
    } else {
        Ok(Vec::new())
    }
}

/// The server placed the area of type `io_type` of a node in the `size`
/// bytes at `offset` of the memory `mem_id`, or removed it when `mem_id` is
/// negative: the control area as bytes, the clock area `C` and the position
/// area `P`. Other areas are ignored. Setting the position area first drops
/// the old one even when the new one cannot be mapped. Returns the files
/// that lost their last user and what must be written to the activation
/// record of the node, in order.
pub fn node_set_io<C, P>(
    memory: &mut Memory,
    node: &mut ClientNode,
    io_type: u32,
    mem_id: i32,
    offset: usize,
    size: usize,
) -> (r: Result<(Vec<File>, Vec<DriverUpdate>), IoError>)
    requires
        old(memory).wf(),
        size_of::<C>() > 0,
        size_of::<P>() > 0,
        mem_of(mem_id) matches Some(m) ==> old(memory).can_track(m),
    ensures
        final(memory).wf(),
        final(memory).spec_ids() == old(memory).spec_ids(),
        node_same(*final(node), *old(node)),
        final(node).spec_params() == old(node).spec_params(),
        final(node).spec_modified() == old(node).spec_modified(),
        final(node).spec_io().0 == old(node).spec_io().0,
        ({
            let ids = old(memory).spec_ids();
            let files = old(memory).spec_files();
            let (activation, clock, control, position) = old(node).spec_io();
            let io = final(node).spec_io();
            if io_type == IO_CONTROL {
                &&& io.1 == clock
                &&& io.3 == position
                &&& match mem_of(mem_id) {
                    None => {
                        let (after, freed) = release_region(files, file_of(control));
                        &&& (r matches Ok(v) && v.0@ == freed && v.1@.len() == 0)
                        &&& io.2 is None
                        &&& final(memory).spec_files() == after
                    },
                    Some(m) => match map_error(ids, files, m, offset, size) {
                        Some(e) => {
                            &&& r == Err::<(Vec<File>, Vec<DriverUpdate>), IoError>(
                                IoError::Memory(e),
                            )
                            &&& io.2 == control
                            &&& final(memory).spec_files() == files
                        },
                        None => {
                            let key = ids[m];
                            let (after, freed) = release_region(
                                track_files(files, key),
                                file_of(control),
                            );
                            &&& (r matches Ok(v) && v.0@ == freed && v.1@.len() == 0)
                            &&& (io.2 matches Some(c) && c.spec_file() == key && c.spec_addr()
                                == files[key].addr + offset && c.spec_size() == size)
                            &&& final(memory).spec_files() == after
                        },
                    },
                }
            } else if io_type == IO_CLOCK {
                &&& io.2 == control
                &&& io.3 == position
                &&& match mem_of(mem_id) {
                    None => {
                        let (after, freed) = release_region(files, file_of(clock));
                        &&& (r matches Ok(v) && v.0@ == freed && v.1@.len() == 0)
                        &&& io.1 is None
                        &&& final(memory).spec_files() == after
                    },
                    Some(m) => {
                        let (outcome, mapped) = map_cast_outcome::<C>(ids, files, m, offset, size);
                        match outcome {
                            Err(e) => {
                                &&& r == Err::<(Vec<File>, Vec<DriverUpdate>), IoError>(e)
                                &&& io.1 == clock
                                &&& final(memory).spec_files() == mapped
                            },
                            Ok((key, addr)) => {
                                let (after, freed) = release_region(mapped, file_of(clock));
                                &&& (r matches Ok(v) && v.0@ == freed && v.1@.len() == 0)
                                &&& (io.1 matches Some(c) && c.spec_file() == key && c.spec_addr()
                                    == addr && c.spec_size() == size)
                                &&& final(memory).spec_files() == after
                            },
                        }
                    },
                }
            } else if io_type == IO_POSITION {
                let (dropped, freed) = release_region(files, file_of(position));
                let gone = driver_update(activation is Some, false);
                &&& io.1 == clock
                &&& io.2 == control
                &&& match mem_of(mem_id) {
                    None => {
                        &&& (r matches Ok(v) && v.0@ == freed && v.1@ == seq![gone])
                        &&& io.3 is None
                        &&& final(memory).spec_files() == dropped
                    },
                    Some(m) => {
                        let (outcome, mapped) = map_cast_outcome::<P>(ids, dropped, m, offset, size);
                        &&& final(memory).spec_files() == mapped
                        &&& match outcome {
                            Err(e) => r == Err::<(Vec<File>, Vec<DriverUpdate>), IoError>(e)
                                && io.3 is None,
                            Ok((key, addr)) => {
                                &&& (r matches Ok(v) && v.0@ == freed && v.1@ == seq![
                                    gone,
                                    driver_update(activation is Some, true),
                                ])
                                &&& (io.3 matches Some(c) && c.spec_file() == key && c.spec_addr()
                                    == addr && c.spec_size() == size)
                            },
                        }
                    },
                }
            } else {
                &&& r matches Ok(v) && v.0@.len() == 0 && v.1@.len() == 0
                &&& io == old(node).spec_io()
                &&& final(memory).spec_files() == files
            }
        }),
{
    let mem: Option<u32> = if mem_id < 0 {
        None
    } else {
        Some(mem_id as u32)
    };
    if io_type == IO_CONTROL {
        match mem {
            None => {
                let current = node.replace_io_control(None);
                Ok((free_region(memory, current), Vec::new()))
            },
            Some(m) => {
                let region = match memory.map(m, offset, size) {
                    Ok(region) => region,
                    Err(e) => {
                        return Err(IoError::Memory(e));
                    },
                };
                let current = node.replace_io_control(Some(region));
                Ok((free_region(memory, current), Vec::new()))
            },
        }
    } else if io_type == IO_CLOCK {
        match mem {
            None => {
                let current = node.replace_io_clock(None);
                Ok((free_region(memory, current), Vec::new()))
            },
            Some(m) => {
                let region = match map_cast::<C>(memory, m, offset, size) {
                    Ok(c) => c.erase(),
                    Err(e) => {
                        return Err(e);
                    },
                };
                let current = node.replace_io_clock(Some(region));
                Ok((free_region(memory, current), Vec::new()))
            },
        }
    } else if io_type == IO_POSITION {
        let (current, gone) = node.take_io_position();
        let freed = free_region(memory, current);
        let mut updates: Vec<DriverUpdate> = Vec::new();
        updates.push(gone);
        assert(updates@ =~= seq![gone]);
        let ghost dropped = memory.spec_files();
        match mem {
            None => Ok((freed, updates)),
            Some(m) => {
                proof {
                    lemma_release_can_track(
                        old(memory).spec_ids(),
                        old(memory).spec_files(),
                        file_of(current),
                        m,
                    );
                }
                let region = match map_cast::<P>(memory, m, offset, size) {
                    Ok(c) => c.erase(),
                    Err(e) => {
                        return Err(e);
                    },
                };
                let (_, update) = node.replace_io_position(region);
                updates.push(update);
                assert(updates@ =~= seq![gone, update]);
                Ok((freed, updates))
            },
        }
    } else {
        Ok((Vec::new(), Vec::new()))
    }
}

/// The server gave a node its transport: the descriptors it is woken
/// through and wakes its peers through, and its activation record `A` in
/// the `size` bytes at `offset` of the memory `mem_id`. The old record is
/// dropped first; with a negative `mem_id` nothing else happens and the
/// descriptors are not kept. Returns the files that lost their last user,
/// what must be written to the activation record, in order, and the
/// descriptors the node held before, if it took the new ones.
pub fn node_transport<A>(
    memory: &mut Memory,
    node: &mut ClientNode,
    read_fd: Option<i32>,
    write_fd: Option<i32>,
    mem_id: i32,
    offset: usize,
    size: usize,
) -> (r: Result<(Vec<File>, Vec<DriverUpdate>, Option<(Option<i32>, Option<i32>)>), IoError>)
    requires
        old(memory).wf(),
        size_of::<A>() > 0,
        mem_of(mem_id) matches Some(m) ==> old(memory).can_track(m),
    ensures
        final(memory).wf(),
        final(memory).spec_ids() == old(memory).spec_ids(),
        final(node).spec_id() == old(node).spec_id(),
        final(node).spec_ports() == old(node).spec_ports(),
        final(node).spec_peer_activations() == old(node).spec_peer_activations(),
        final(node).spec_params() == old(node).spec_params(),
        final(node).spec_modified() == old(node).spec_modified(),
        ({
            let ids = old(memory).spec_ids();
            let (activation, clock, control, position) = old(node).spec_io();
            let io = final(node).spec_io();
            let (dropped, freed) = release_region(old(memory).spec_files(), file_of(activation));
            &&& io.1 == clock
            &&& io.2 == control
            &&& io.3 == position
            &&& match mem_of(mem_id) {
                None => {
                    &&& (r matches Ok(v) && v.0@ == freed && v.1@ == seq![DriverUpdate::Nothing]
                        && v.2 is None)
                    &&& io.0 is None
                    &&& final(node).spec_fds() == old(node).spec_fds()
                    &&& final(memory).spec_files() == dropped
                },
                Some(m) => {
                    let (outcome, mapped) = map_cast_outcome::<A>(ids, dropped, m, offset, size);
                    &&& final(memory).spec_files() == mapped
                    &&& match outcome {
                        Err(e) => {
                            &&& r == Err::<
                                (Vec<File>, Vec<DriverUpdate>, Option<(Option<i32>, Option<i32>)>),
                                IoError,
                            >(e)
                            &&& io.0 is None
                            &&& final(node).spec_fds() == old(node).spec_fds()
                        },
                        Ok((key, addr)) => {
                            let fds = old(node).spec_fds();
                            &&& (r matches Ok(v) && v.0@ == freed && v.1@ == seq![
                                DriverUpdate::Nothing,
                                driver_update(true, position is Some),
                            ] && v.2 == Some((fds.0, fds.2)))
                            &&& (io.0 matches Some(c) && c.spec_file() == key && c.spec_addr()
                                == addr && c.spec_size() == size)
                            &&& final(node).spec_fds() == (read_fd, fds.1, write_fd, fds.3)
                        },
                    }
                },
            }
        }),
{
    let (current, gone) = node.take_activation();
    let freed = free_region(memory, current);
    let mut updates: Vec<DriverUpdate> = Vec::new();
    updates.push(gone);
    assert(updates@ =~= seq![DriverUpdate::Nothing]);
    if mem_id < 0 {
        return Ok((freed, updates, None));
    }
    let m = mem_id as u32;
    proof {
        lemma_release_can_track(
            old(memory).spec_ids(),
            old(memory).spec_files(),
            file_of(current),
            m,
        );
    }
    let region = match map_cast::<A>(memory, m, offset, size) {
        Ok(c) => c.erase(),
        Err(e) => {
            return Err(e);
        },
    };
    let (_, update) = node.replace_activation(region);
    updates.push(update);
    let fds = node.set_fds(read_fd, write_fd);
    assert(updates@ =~= seq![gone, update]);
    Ok((freed, updates, Some(fds)))
}

/// The file keys of the regions of activation records, in order.
pub open spec fn peer_files(peers: Seq<PeerActivation>) -> Seq<usize> {
    peers.map_values(|a: PeerActivation| a.region.spec_file())
}

/// Drop the regions of activation records in order; returns the files
/// that lost their last user.
fn free_peers(memory: &mut Memory, peers: Vec<PeerActivation>) -> (r: Vec<File>)
    requires
        old(memory).wf(),
    ensures
        final(memory).wf(),
        final(memory).spec_ids() == old(memory).spec_ids(),
        (final(memory).spec_files(), r@) == release_all(old(memory).spec_files(), peer_files(peers@)),
{
    let ghost all = peers@;
    let mut rest = peers;
    let mut released: Vec<File> = Vec::new();
    let len = rest.len();
    let mut n: usize = 0;
    while n < len
        invariant
            n <= len,
            len == all.len(),
            rest@ == all.subrange(n as int, len as int),
            memory.wf(),
            memory.spec_ids() == old(memory).spec_ids(),
            (memory.spec_files(), released@) == release_all(
                old(memory).spec_files(),
                peer_files(all.subrange(0, n as int)),
            ),
        decreases len - n,
    {
        let a = rest.remove(0);
        proof {
            assert(peer_files(all.subrange(0, n + 1)).drop_last() =~= peer_files(
                all.subrange(0, n as int),
            ));
            assert(peer_files(all.subrange(0, n + 1)).last() == a.region.spec_file());
        }
        let ghost before = released@;
        let freed = memory.free(a.region);
        if let Some(f) = freed {
            released.push(f);
        }
        proof {
            let (_, last) = release_region(
                release_all(old(memory).spec_files(), peer_files(all.subrange(0, n as int))).0,
                Some(a.region.spec_file()),
            );
            assert(released@ =~= before + last);
        }
        assert(rest@ =~= all.subrange(n + 1, len as int));
        n = n + 1;
    }
    assert(all.subrange(0, len as int) =~= all);
    released
}

/// The server set the activation record `A` of the peer `peer_id` of a
/// node in the `size` bytes at `offset` of the memory `mem_id`, to be
/// signalled through `signal_fd`. The records the node held for that peer
/// are dropped; with a negative `mem_id` or no descriptor nothing else
/// happens. Otherwise the mapped record is returned: its version is read
/// from it before it is added to the node with `push_peer`. Returns the
/// files that lost their last user too.
pub fn node_set_activation<A>(
    memory: &mut Memory,
    node: &mut ClientNode,
    peer_id: u32,
    signal_fd: Option<i32>,
    mem_id: i32,
    offset: usize,
    size: usize,
) -> (r: Result<(Vec<File>, Option<Region<A>>), IoError>)
    requires
        old(memory).wf(),
        size_of::<A>() > 0,
        mem_of(mem_id) matches Some(m) ==> old(memory).can_track(m),
    ensures
        final(memory).wf(),
        final(memory).spec_ids() == old(memory).spec_ids(),
        final(node).spec_id() == old(node).spec_id(),
        final(node).spec_ports() == old(node).spec_ports(),
        final(node).spec_fds() == old(node).spec_fds(),
        final(node).spec_io() == old(node).spec_io(),
        final(node).spec_params() == old(node).spec_params(),
        final(node).spec_modified() == old(node).spec_modified(),
        final(node).spec_peer_activations() == old(node).spec_peer_activations().filter(
            |a: PeerActivation| a.peer_id != peer_id,
        ),
        ({
            let ids = old(memory).spec_ids();
            let gone = old(node).spec_peer_activations().filter(
                |a: PeerActivation| a.peer_id == peer_id,
            );
            let (dropped, freed) = release_all(old(memory).spec_files(), peer_files(gone));
            if mem_id < 0 || signal_fd is None {
                &&& (r matches Ok(v) && v.0@ == freed && v.1 is None)
                &&& final(memory).spec_files() == dropped
            } else {
                let (outcome, mapped) = map_cast_outcome::<A>(
                    ids,
                    dropped,
                    mem_id as u32,
                    offset,
                    size,
                );
                &&& final(memory).spec_files() == mapped
                &&& match outcome {
                    Err(e) => r == Err::<(Vec<File>, Option<Region<A>>), IoError>(e),
                    Ok((key, addr)) => r matches Ok(v) && v.0@ == freed && (v.1 matches Some(c)
                        && c.spec_file() == key && c.spec_addr() == addr && c.spec_size() == size),
                }
            }
        }),
{
    let gone = node.remove_peers(peer_id);
    let freed = free_peers(memory, gone);
    if mem_id < 0 || signal_fd.is_none() {
        return Ok((freed, None));
    }
    let m = mem_id as u32;
    proof {
        lemma_release_all_can_track(
            old(memory).spec_ids(),
            old(memory).spec_files(),
            peer_files(
                old(node).spec_peer_activations().filter(|a: PeerActivation| a.peer_id == peer_id),
            ),
            m,
        );
    }
    match map_cast::<A>(memory, m, offset, size) {
        Ok(c) => Ok((freed, Some(c))),
        Err(e) => Err(e),
    }
}

/// A file that could gain a user still can after regions are dropped.
proof fn lemma_release_all_can_track(
    ids: Map<u32, usize>,
    files: Map<usize, File>,
    keys: Seq<usize>,
    mem_id: u32,
)
    requires
        ids.contains_key(mem_id) && files.contains_key(ids[mem_id]) ==> files[ids[mem_id]].users
            < u32::MAX,
    ensures
        ({
            let after = release_all(files, keys).0;
            ids.contains_key(mem_id) && after.contains_key(ids[mem_id]) ==> after[ids[mem_id]].users
                < u32::MAX
        }),
    decreases keys.len(),
{
    if keys.len() > 0 {
        lemma_release_all_can_track(ids, files, keys.drop_last(), mem_id);
        lemma_release_can_track(
            ids,
            release_all(files, keys.drop_last()).0,
            Some(keys.last()),
            mem_id,
        );
    }
}

/// A file that could gain a user still can after a region is dropped.
proof fn lemma_release_can_track(
    ids: Map<u32, usize>,
    files: Map<usize, File>,
    region: Option<usize>,
    mem_id: u32,
)
    requires
        ids.contains_key(mem_id) && files.contains_key(ids[mem_id]) ==> files[ids[mem_id]].users
            < u32::MAX,
    ensures
        ({
            let after = release_region(files, region).0;
            ids.contains_key(mem_id) && after.contains_key(ids[mem_id]) ==> after[ids[mem_id]].users
                < u32::MAX
        }),
{
}

} // verus!
