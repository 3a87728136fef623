//! Buffers shared with the server: their metadata and data regions.

use vstd::prelude::*;

use super::ffi::Chunk;
use super::id::{MixId, PortId};
use super::region::Region;

verus! {

/// A metadata region of a buffer.
pub struct Meta {
    /// The type of the metadata.
    pub ty: u32,
    /// The region holding the metadata.
    pub region: Region<[u8]>,
}

/// A data region of a buffer.
pub struct Data {
    /// The type of the data.
    pub ty: u32,
    /// The region holding the data.
    pub region: Region<[u8]>,
    /// The flags of the data.
    pub flags: u32,
    /// The region holding the chunk that describes the valid data.
    pub chunk: Region<Chunk>,
}

/// The offset of the valid data that a chunk describes in a region of
/// `len` bytes.
pub open spec fn valid_offset(chunk: Chunk, len: nat) -> nat
    recommends
        len > 0,
{
    (chunk.offset as nat) % len
}

/// The size of the valid data that a chunk describes in a region of `len`
/// bytes: what is left of the chunk's size after the offset, at most `len`.
pub open spec fn valid_size(chunk: Chunk, len: nat) -> nat
    recommends
        len > 0,
        chunk.size >= valid_offset(chunk, len),
{
    let left = (chunk.size - valid_offset(chunk, len)) as nat;
    if left < len {
        left
    } else {
        len
    }
}

impl Data {
    /// The part of the data region that `chunk` marks as valid, or `None`
    /// if it does not lie within the region.
    pub fn valid_region(&self, chunk: Chunk) -> (r: Option<Region<[u8]>>)
        requires
            self.region.wf(),
            self.region.spec_size() > 0,
            chunk.size >= valid_offset(chunk, self.region.spec_size() as nat),
        ensures
            ({
                let len = self.region.spec_size() as nat;
                let offset = valid_offset(chunk, len);
                let size = valid_size(chunk, len);
                &&& r is Some <==> offset + size <= len
                &&& r matches Some(v) ==> {
                    &&& v.wf()
                    &&& v.spec_file() == self.region.spec_file()
                    &&& v.spec_addr() == self.region.spec_addr() + offset
                    &&& v.spec_size() == size
                }
            }),
    {
        let len = self.region.len();
        let offset = chunk.offset as usize % len;
        let left = chunk.size as usize - offset;
        let size = if left < len {
            left
        } else {
            len
        };
        match self.region.slice(offset, size) {
            Some(v) => Some(v.cast_array_unchecked()),
            None => None,
        }
    }

    /// The whole data region.
    pub fn uninit_region(&self) -> (r: Region<[u8]>)
        ensures
            r.spec_file() == self.region.spec_file(),
            r.spec_size() == self.region.spec_size(),
            r.spec_addr() == self.region.spec_addr(),
    {
        self.region.clone()
    }
}

/// A buffer: its metadata and data regions.
pub struct Buffer {
    /// The identifier of the buffer: its index in its set.
    pub id: u32,
    /// The offset of the buffer in its memory.
    pub offset: usize,
    /// The size of the buffer in its memory.
    pub size: usize,
    /// The metadata regions.
    pub metas: Vec<Meta>,
    /// The data regions.
    pub datas: Vec<Data>,
}

/// A set of buffers that the server assigned to a port, for one mix or for
/// every mix.
pub struct Buffers {
    /// The direction of the port.
    pub direction: u32,
    /// The port the buffers belong to.
    pub port_id: PortId,
    /// The mix the buffers belong to; the invalid mix for every mix.
    pub mix_id: MixId,
    /// The flags the buffers were assigned with.
    pub flags: u32,
    /// The buffers.
    pub buffers: Vec<Buffer>,
    /// The buffers of the set that are in use: bit `i` for buffer `i`.
    pub available: u128,
}

} // verus!
