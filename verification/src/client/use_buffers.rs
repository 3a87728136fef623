//! Buffers the server assigns to a port: each lies in shared memory, its
//! metadata regions one after the other, then a chunk per data region, and
//! its data either in the same memory or in memory of its own.

use vstd::layout::{align_of, size_of};
use vstd::prelude::*;

use super::buffer::{Buffer, Buffers, Data, Meta};
use super::id::{MixId, PortId};
use super::ports::{same_identity, Port};
use super::ffi::Chunk;
use super::memory::{
    lemma_release_all_append, lemma_release_all_push, map_error, release, release_all,
    release_region, track_files, File, Memory, MemoryError, DATA_TYPE_MEM_FD, DATA_TYPE_MEM_PTR,
};
use super::region::{round_up, Region, RegionError};

verus! {

/// A metadata region of a buffer as the server describes it.
#[derive(Debug, Clone, Copy, PartialEq, Eq, Structural)]
pub struct MetaDesc {
    /// The type of the metadata.
    pub ty: u32,
    /// The size of the metadata.
    pub size: usize,
}

/// A data region of a buffer as the server describes it.
#[derive(Debug, Clone, Copy, PartialEq, Eq, Structural)]
pub struct DataDesc {
    /// The type of the data.
    pub ty: u32,
    /// Where the data is: an offset in the memory of the buffer, or the
    /// memory identifier of its own memory.
    pub data: u32,
    /// The flags of the data.
    pub flags: u32,
    /// The offset of the data in its own memory.
    pub offset: usize,
    /// The largest size of the data.
    pub max_size: usize,
}

/// A buffer as the server describes it.
pub struct BufferDesc {
    /// The memory the buffer lies in.
    pub mem_id: u32,
    /// The offset of the buffer in its memory.
    pub offset: usize,
    /// The size of the buffer.
    pub size: usize,
    /// Its metadata regions.
    pub metas: Vec<MetaDesc>,
    /// Its data regions.
    pub datas: Vec<DataDesc>,
}

/// Why a buffer could not be set up.
#[derive(Debug, Clone, Copy, PartialEq, Eq)]
pub enum UseBuffersError {
    /// The memory could not be handed out.
    Memory(MemoryError),
    /// A region does not lie within its memory.
    Region(RegionError),
    /// Data in the memory of the buffer must have offset zero.
    DataOffset { offset: usize },
    /// The data type is neither a pointer into the buffer nor memory of its
    /// own.
    UnsupportedType { ty: u32 },
}

/// Every file can gain `n` more users.
pub open spec fn has_room(files: Map<usize, File>, n: int) -> bool {
    forall|k: usize| #[trigger] files.contains_key(k) ==> files[k].users + n <= u32::MAX
}

/// Where the metadata regions go, as the files, the address and length of
/// what is left of the buffer, the address and length of each region laid
/// out so far, and the error that stopped it, if any.
pub type MetaState = (Map<usize, File>, int, int, Seq<(int, int)>, Option<UseBuffersError>);

/// Lay out one metadata region: it starts where the buffer is, its file
/// gains it as a user, and what is left starts after it, eight-byte
/// aligned.
pub open spec fn meta_step(st: MetaState, key: usize, m: MetaDesc) -> MetaState {
    if st.4 is Some {
        st
    } else {
        let files = track_files(st.0, key);
        let out = st.3.push((st.1, st.2));
        let skip = round_up(m.size as nat, 8);
        if skip > st.2 {
            (
                files,
                st.1,
                st.2,
                out,
                Some(
                    UseBuffersError::Region(
                        RegionError::OffsetOutOfBounds { offset: skip as usize, size: st.2 as usize },
                    ),
                ),
            )
        } else {
            (files, st.1 + skip, st.2 - skip, out, None)
        }
    }
}

/// Lay out the metadata regions in order.
pub open spec fn meta_fold(init: MetaState, key: usize, metas: Seq<MetaDesc>) -> MetaState
    decreases metas.len(),
{
    if metas.len() == 0 {
        init
    } else {
        meta_step(meta_fold(init, key, metas.drop_last()), key, metas.last())
    }
}

/// Where the data regions go: the files, the address and length of what is
/// left of the buffer, the chunk address and the data region (file,
/// address, length) of each data laid out so far, and the error that
/// stopped it, if any.
pub type DataState = (
    Map<usize, File>,
    int,
    int,
    Seq<(int, (usize, int, int))>,
    Option<UseBuffersError>,
);

/// Lay out one data region: its chunk takes the next bytes of the buffer,
/// which must hold a `Chunk`, and what is left starts after it, eight-byte
/// aligned; the data lies in the buffer's memory or in memory of its own.
pub open spec fn data_step(
    st: DataState,
    ids: Map<u32, usize>,
    key: usize,
    base: (int, int),
    d: DataDesc,
) -> DataState {
    let cs = size_of::<Chunk>();
    if st.4 is Some {
        st
    } else if cs > st.2 {
        (
            st.0,
            st.1,
            st.2,
            st.3,
            Some(
                UseBuffersError::Region(
                    RegionError::SizeOutOfBounds { requested: cs as usize, size: st.2 as usize },
                ),
            ),
        )
    } else if st.1 % (align_of::<Chunk>() as int) != 0 {
        (
            st.0,
            st.1,
            st.2,
            st.3,
            Some(
                UseBuffersError::Region(
                    RegionError::Misaligned {
                        addr: st.1 as usize,
                        align: align_of::<Chunk>() as usize,
                    },
                ),
            ),
        )
    } else if round_up(cs, 8) > st.2 {
        (
            st.0,
            st.1,
            st.2,
            st.3,
            Some(
                UseBuffersError::Region(
                    RegionError::OffsetOutOfBounds {
                        offset: round_up(cs, 8) as usize,
                        size: st.2 as usize,
                    },
                ),
            ),
        )
    } else {
        let chunk = st.1;
        let addr = st.1 + round_up(cs, 8);
        let len = st.2 - round_up(cs, 8);
        let files = track_files(st.0, key);
        if d.ty == DATA_TYPE_MEM_PTR {
            if d.data > base.1 {
                (
                    files,
                    addr,
                    len,
                    st.3,
                    Some(
                        UseBuffersError::Region(
                            RegionError::OffsetOutOfBounds {
                                offset: d.data as usize,
                                size: base.1 as usize,
                            },
                        ),
                    ),
                )
            } else if d.max_size > base.1 - d.data {
                (
                    files,
                    addr,
                    len,
                    st.3,
                    Some(
                        UseBuffersError::Region(
                            RegionError::SizeOutOfBounds {
                                requested: d.max_size,
                                size: (base.1 - d.data) as usize,
                            },
                        ),
                    ),
                )
            } else if d.offset != 0 {
                (files, addr, len, st.3, Some(UseBuffersError::DataOffset { offset: d.offset }))
            } else {
                (
                    track_files(files, key),
                    addr,
                    len,
                    st.3.push((chunk, (key, base.0 + d.data, d.max_size as int))),
                    None,
                )
            }
        } else if d.ty == DATA_TYPE_MEM_FD {
            match map_error(ids, files, d.data, d.offset, d.max_size) {
                Some(e) => (files, addr, len, st.3, Some(UseBuffersError::Memory(e))),
                None => {
                    let other = ids[d.data];
                    (
                        track_files(files, other),
                        addr,
                        len,
                        st.3.push((chunk, (other, files[other].addr + d.offset, d.max_size as int))),
                        None,
                    )
                },
            }
        } else {
            (files, addr, len, st.3, Some(UseBuffersError::UnsupportedType { ty: d.ty }))
        }
    }
}

/// Lay out the data regions in order.
pub open spec fn data_fold(
    init: DataState,
    ids: Map<u32, usize>,
    key: usize,
    base: (int, int),
    datas: Seq<DataDesc>,
) -> DataState
    decreases datas.len(),
{
    if datas.len() == 0 {
        init
    } else {
        data_step(data_fold(init, ids, key, base, datas.drop_last()), ids, key, base, datas.last())
    }
}

/// What setting up a buffer does, given the memory before: the error and
/// the files afterwards, or the layout of its metadata and data regions
/// and the files afterwards.
pub open spec fn buffer_outcome(
    ids: Map<u32, usize>,
    files: Map<usize, File>,
    mem_id: u32,
    offset: usize,
    size: usize,
    metas: Seq<MetaDesc>,
    datas: Seq<DataDesc>,
) -> (Result<(usize, Seq<(int, int)>, Seq<(int, (usize, int, int))>), UseBuffersError>, Map<
    usize,
    File,
>) {
    match map_error(ids, files, mem_id, offset, size) {
        Some(e) => (Err(UseBuffersError::Memory(e)), files),
        None => {
            let key = ids[mem_id];
            let base = (files[key].addr + offset, size as int);
            let m = meta_fold(
                (track_files(files, key), base.0, base.1, Seq::empty(), None),
                key,
                metas,
            );
            match m.4 {
                Some(e) => (Err(e), m.0),
                None => {
                    let d = data_fold((m.0, m.1, m.2, Seq::empty(), None), ids, key, base, datas);
                    match d.4 {
                        Some(e) => (Err(e), d.0),
                        None => (Ok((key, m.3, d.3)), release(d.0, key).0),
                    }
                },
            }
        },
    }
}

/// The regions of metadata `metas` are laid out as `layout` in the file
/// `key`, with the types of `descs`.
pub open spec fn metas_match(
    metas: Seq<Meta>,
    descs: Seq<MetaDesc>,
    key: usize,
    layout: Seq<(int, int)>,
) -> bool {
    &&& metas.len() == descs.len()
    &&& layout.len() == descs.len()
    &&& forall|i: int|
        0 <= i < metas.len() ==> {
            &&& (#[trigger] metas[i]).ty == descs[i].ty
            &&& metas[i].region.spec_file() == key
            &&& metas[i].region.spec_addr() == layout[i].0
            &&& metas[i].region.spec_size() == layout[i].1
        }
}

/// The data `datas` are laid out as `layout`, with their chunks in the file
/// `key`, and with the types and flags of `descs`.
pub open spec fn datas_match(
    datas: Seq<Data>,
    descs: Seq<DataDesc>,
    key: usize,
    layout: Seq<(int, (usize, int, int))>,
) -> bool {
    &&& datas.len() == descs.len()
    &&& layout.len() == descs.len()
    &&& forall|i: int|
        0 <= i < datas.len() ==> {
            &&& (#[trigger] datas[i]).ty == descs[i].ty
            &&& datas[i].flags == descs[i].flags
            &&& datas[i].chunk.spec_file() == key
            &&& datas[i].chunk.spec_addr() == layout[i].0
            &&& datas[i].region.spec_file() == layout[i].1.0
            &&& datas[i].region.spec_addr() == layout[i].1.1
            &&& datas[i].region.spec_size() == layout[i].1.2
        }
}

/// Tracking a file uses one of the users every file has room for.
proof fn lemma_room_track(files: Map<usize, File>, key: usize, n: int)
    requires
        has_room(files, n),
        n >= 1,
    ensures
        has_room(track_files(files, key), n - 1),
        files.contains_key(key) ==> files[key].users < u32::MAX,
{
    if files.contains_key(key) {
        assert(files[key].users + n <= u32::MAX);
    }
    assert forall|k: usize| #[trigger] track_files(files, key).contains_key(k) implies track_files(
        files,
        key,
    )[k].users + (n - 1) <= u32::MAX by {
        assert(files.contains_key(k));
    }
}

/// Room for more users is room for fewer.
proof fn lemma_room_less(files: Map<usize, File>, n: int, m: int)
    requires
        has_room(files, n),
        m <= n,
    ensures
        has_room(files, m),
{
}

/// Once laying out metadata failed, the rest changes nothing.
proof fn lemma_meta_fold_stuck(init: MetaState, key: usize, metas: Seq<MetaDesc>, i: int)
    requires
        0 <= i <= metas.len(),
        meta_fold(init, key, metas.subrange(0, i)).4 is Some,
    ensures
        meta_fold(init, key, metas) == meta_fold(init, key, metas.subrange(0, i)),
    decreases metas.len() - i,
{
    if i < metas.len() {
        let next = metas.subrange(0, i + 1);
        assert(next.drop_last() =~= metas.subrange(0, i));
        lemma_meta_fold_stuck(init, key, metas, i + 1);
    } else {
        assert(metas.subrange(0, i) =~= metas);
    }
}

/// Once laying out data failed, the rest changes nothing.
proof fn lemma_data_fold_stuck(
    init: DataState,
    ids: Map<u32, usize>,
    key: usize,
    base: (int, int),
    datas: Seq<DataDesc>,
    i: int,
)
    requires
        0 <= i <= datas.len(),
        data_fold(init, ids, key, base, datas.subrange(0, i)).4 is Some,
    ensures
        data_fold(init, ids, key, base, datas) == data_fold(init, ids, key, base, datas.subrange(0, i)),
    decreases datas.len() - i,
{
    if i < datas.len() {
        let next = datas.subrange(0, i + 1);
        assert(next.drop_last() =~= datas.subrange(0, i));
        lemma_data_fold_stuck(init, ids, key, base, datas, i + 1);
    } else {
        assert(datas.subrange(0, i) =~= datas);
    }
}

/// Set up a buffer the server described: hand out its memory, lay out its
/// metadata regions one after the other, then for each data region its
/// chunk and its data, and drop the memory of the buffer itself again. The
/// regions gain users of their files; a failure keeps the users gained
/// before it.
pub fn use_buffer(memory: &mut Memory, id: u32, desc: &BufferDesc) -> (r: Result<
    Buffer,
    UseBuffersError,
>)
    requires
        old(memory).wf(),
        has_room(old(memory).spec_files(), (1 + desc.metas@.len() + 2 * desc.datas@.len()) as int),
        size_of::<Chunk>() > 0,
        round_up(size_of::<Chunk>(), 8) <= usize::MAX,
        forall|i: int|
            0 <= i < desc.metas@.len() ==> round_up(#[trigger] desc.metas@[i].size as nat, 8)
                <= usize::MAX,
    ensures
        final(memory).wf(),
        final(memory).spec_ids() == old(memory).spec_ids(),
        ({
            let (outcome, files) = buffer_outcome(
                old(memory).spec_ids(),
                old(memory).spec_files(),
                desc.mem_id,
                desc.offset,
                desc.size,
                desc.metas@,
                desc.datas@,
            );
            &&& final(memory).spec_files() == files
            &&& match outcome {
                Err(e) => r == Err::<Buffer, UseBuffersError>(e),
                Ok((key, metas, datas)) => r matches Ok(b) && {
                    &&& b.id == id
                    &&& b.offset == desc.offset
                    &&& b.size == desc.size
                    &&& metas_match(b.metas@, desc.metas@, key, metas)
                    &&& datas_match(b.datas@, desc.datas@, key, datas)
                },
            }
        }),
{
    let ghost ids = memory.spec_ids();
    let ghost files0 = memory.spec_files();
    let ghost budget: int = (1 + desc.metas@.len() + 2 * desc.datas@.len()) as int;
    proof {
        lemma_room_track(files0, if ids.contains_key(desc.mem_id) {
            ids[desc.mem_id]
        } else {
            0
        }, budget);
    }
    let mm = match memory.map(desc.mem_id, desc.offset, desc.size) {
        Ok(mm) => mm,
        Err(e) => {
            return Err(UseBuffersError::Memory(e));
        },
    };
    let ghost key = ids[desc.mem_id];
    let ghost base = (files0[key].addr + desc.offset, desc.size as int);
    let ghost init: MetaState = (track_files(files0, key), base.0, base.1, Seq::empty(), None);
    proof {
        lemma_room_track(files0, key, budget);
    }
    let mut region = mm.clone();
    let mut metas: Vec<Meta> = Vec::new();
    let ghost mut layout: Seq<(int, int)> = Seq::empty();
    let mut i: usize = 0;
    while i < desc.metas.len()
        invariant
            i <= desc.metas.len(),
            memory.wf(),
            memory.spec_ids() == ids,
            ids == old(memory).spec_ids(),
            files0 == old(memory).spec_files(),
            map_error(ids, files0, desc.mem_id, desc.offset, desc.size) is None,
            base == (files0[key].addr + desc.offset, desc.size as int),
            init == (track_files(files0, key), base.0, base.1, Seq::<(int, int)>::empty(), None::<UseBuffersError>),
            ids.contains_key(desc.mem_id),
            key == ids[desc.mem_id],
            mm.wf(),
            mm.spec_file() == key,
            mm.spec_addr() == base.0,
            mm.spec_size() == base.1,
            region.wf(),
            region.spec_file() == key,
            meta_fold(init, key, desc.metas@.subrange(0, i as int)) == (
                memory.spec_files(),
                region.spec_addr() as int,
                region.spec_size() as int,
                layout,
                None::<UseBuffersError>,
            ),
            metas_match(metas@, desc.metas@.subrange(0, i as int), key, layout),
            has_room(memory.spec_files(), desc.metas@.len() - i + 2 * desc.datas@.len()),
            forall|j: int|
                0 <= j < desc.metas@.len() ==> round_up(#[trigger] desc.metas@[j].size as nat, 8)
                    <= usize::MAX,
        decreases desc.metas.len() - i,
    {
        let m = desc.metas[i];
        proof {
            lemma_room_track(memory.spec_files(), key, desc.metas@.len() - i + 2 * desc.datas@.len());
            assert(desc.metas@.subrange(0, i + 1).drop_last() =~= desc.metas@.subrange(0, i as int));
            assert(desc.metas@.subrange(0, i + 1).last() == m);
            assert(round_up(desc.metas@[i as int].size as nat, 8) <= usize::MAX);
        }
        memory.track(&region);
        metas.push(Meta { ty: m.ty, region: region.clone() });
        proof {
            layout = layout.push((region.spec_addr() as int, region.spec_size() as int));
            assert(metas_match(metas@, desc.metas@.subrange(0, i + 1), key, layout)) by {
                assert forall|j: int| 0 <= j < metas@.len() implies {
                    &&& (#[trigger] metas@[j]).ty == desc.metas@.subrange(0, i + 1)[j].ty
                    &&& metas@[j].region.spec_file() == key
                    &&& metas@[j].region.spec_addr() == layout[j].0
                    &&& metas@[j].region.spec_size() == layout[j].1
                } by {
                    if j < i {
                        assert(desc.metas@.subrange(0, i + 1)[j] == desc.metas@.subrange(0, i as int)[j]);
                    }
                }
            }
        }
        region = match region.offset(m.size, 8) {
            Ok(rest) => rest,
            Err(e) => {
                proof {
                    lemma_meta_fold_stuck(init, key, desc.metas@, i + 1);
                }
                return Err(UseBuffersError::Region(e));
            },
        };
        i = i + 1;
    }
    proof {
        assert(desc.metas@.subrange(0, i as int) =~= desc.metas@);
    }
    let ghost mstate = meta_fold(init, key, desc.metas@);
    let ghost dinit: DataState = (mstate.0, mstate.1, mstate.2, Seq::empty(), None);
    let cs = core::mem::size_of::<Chunk>();
    let mut datas: Vec<Data> = Vec::new();
    let ghost mut dlayout: Seq<(int, (usize, int, int))> = Seq::empty();
    let mut k: usize = 0;
    while k < desc.datas.len()
        invariant
            k <= desc.datas.len(),
            ids == old(memory).spec_ids(),
            files0 == old(memory).spec_files(),
            map_error(ids, files0, desc.mem_id, desc.offset, desc.size) is None,
            base == (files0[key].addr + desc.offset, desc.size as int),
            init == (track_files(files0, key), base.0, base.1, Seq::<(int, int)>::empty(), None::<UseBuffersError>),
            mstate == meta_fold(init, key, desc.metas@),
            mstate.4 is None,
            mstate.3 == layout,
            metas_match(metas@, desc.metas@, key, layout),
            dinit == (mstate.0, mstate.1, mstate.2, Seq::<(int, (usize, int, int))>::empty(), None::<UseBuffersError>),
            cs == size_of::<Chunk>(),
            cs > 0,
            round_up(cs as nat, 8) <= usize::MAX,
            memory.wf(),
            memory.spec_ids() == ids,
            ids.contains_key(desc.mem_id),
            key == ids[desc.mem_id],
            mm.wf(),
            mm.spec_file() == key,
            mm.spec_addr() == base.0,
            mm.spec_size() == base.1,
            region.wf(),
            region.spec_file() == key,
            data_fold(dinit, ids, key, base, desc.datas@.subrange(0, k as int)) == (
                memory.spec_files(),
                region.spec_addr() as int,
                region.spec_size() as int,
                dlayout,
                None::<UseBuffersError>,
            ),
            datas_match(datas@, desc.datas@.subrange(0, k as int), key, dlayout),
            has_room(memory.spec_files(), 2 * (desc.datas@.len() - k)),
        decreases desc.datas.len() - k,
    {
        let d = desc.datas[k];
        proof {
            assert(desc.datas@.subrange(0, k + 1).drop_last() =~= desc.datas@.subrange(0, k as int));
            assert(desc.datas@.subrange(0, k + 1).last() == d);
        }
        let sized = match region.size(cs) {
            Ok(sized) => sized,
            Err(e) => {
                proof {
                    lemma_data_fold_stuck(dinit, ids, key, base, desc.datas@, k + 1);
                }
                return Err(UseBuffersError::Region(e));
            },
        };
        proof {
            broadcast use vstd::layout::layout_of_primitives;
        }
        let chunk = match sized.cast::<Chunk>() {
            Ok(chunk) => chunk,
            Err(e) => {
                proof {
                    lemma_data_fold_stuck(dinit, ids, key, base, desc.datas@, k + 1);
                }
                return Err(UseBuffersError::Region(e));
            },
        };
        region = match region.offset(cs, 8) {
            Ok(rest) => rest,
            Err(e) => {
                proof {
                    lemma_data_fold_stuck(dinit, ids, key, base, desc.datas@, k + 1);
                }
                return Err(UseBuffersError::Region(e));
            },
        };
        proof {
            lemma_room_track(memory.spec_files(), key, 2 * (desc.datas@.len() - k));
        }
        memory.track(&chunk);
        let ghost after_chunk = memory.spec_files();
        let data_region = if d.ty == DATA_TYPE_MEM_PTR {
            let inner = match mm.offset(d.data as usize, 1) {
                Ok(inner) => inner,
                Err(e) => {
                    proof {
                        lemma_data_fold_stuck(dinit, ids, key, base, desc.datas@, k + 1);
                    }
                    return Err(UseBuffersError::Region(e));
                },
            };
            let inner = match inner.size(d.max_size) {
                Ok(inner) => inner,
                Err(e) => {
                    proof {
                        lemma_data_fold_stuck(dinit, ids, key, base, desc.datas@, k + 1);
                    }
                    return Err(UseBuffersError::Region(e));
                },
            };
            if d.offset != 0 {
                proof {
                    lemma_data_fold_stuck(dinit, ids, key, base, desc.datas@, k + 1);
                }
                return Err(UseBuffersError::DataOffset { offset: d.offset });
            }
            proof {
                lemma_room_track(after_chunk, key, 2 * (desc.datas@.len() - k) - 1);
            }
            memory.track(&inner);
            inner
        } else if d.ty == DATA_TYPE_MEM_FD {
            proof {
                lemma_room_track(
                    after_chunk,
                    if ids.contains_key(d.data) {
                        ids[d.data]
                    } else {
                        0
                    },
                    2 * (desc.datas@.len() - k) - 1,
                );
            }
            match memory.map(d.data, d.offset, d.max_size) {
                Ok(other) => other,
                Err(e) => {
                    proof {
                        lemma_data_fold_stuck(dinit, ids, key, base, desc.datas@, k + 1);
                    }
                    return Err(UseBuffersError::Memory(e));
                },
            }
        } else {
            proof {
                lemma_data_fold_stuck(dinit, ids, key, base, desc.datas@, k + 1);
            }
            return Err(UseBuffersError::UnsupportedType { ty: d.ty });
        };
        datas.push(Data { ty: d.ty, region: data_region, flags: d.flags, chunk });
        proof {
            let last = datas@.last();
            dlayout = dlayout.push(
                (
                    last.chunk.spec_addr() as int,
                    (
                        last.region.spec_file(),
                        last.region.spec_addr() as int,
                        last.region.spec_size() as int,
                    ),
                ),
            );
            assert(datas_match(datas@, desc.datas@.subrange(0, k + 1), key, dlayout)) by {
                assert forall|j: int| 0 <= j < datas@.len() implies {
                    &&& (#[trigger] datas@[j]).ty == desc.datas@.subrange(0, k + 1)[j].ty
                    &&& datas@[j].flags == desc.datas@.subrange(0, k + 1)[j].flags
                    &&& datas@[j].chunk.spec_file() == key
                    &&& datas@[j].chunk.spec_addr() == dlayout[j].0
                    &&& datas@[j].region.spec_file() == dlayout[j].1.0
                    &&& datas@[j].region.spec_addr() == dlayout[j].1.1
                    &&& datas@[j].region.spec_size() == dlayout[j].1.2
                } by {
                    if j < k {
                        assert(desc.datas@.subrange(0, k + 1)[j] == desc.datas@.subrange(0, k as int)[j]);
                    }
                }
            }
        }
        k = k + 1;
    }
    proof {
        assert(desc.datas@.subrange(0, k as int) =~= desc.datas@);
    }
    memory.free(mm);
    Ok(Buffer { id, offset: desc.offset, size: desc.size, metas, datas })
}

/// The files of the metadata regions, in order.
pub open spec fn meta_files(metas: Seq<Meta>) -> Seq<usize>
    decreases metas.len(),
{
    if metas.len() == 0 {
        Seq::empty()
    } else {
        meta_files(metas.drop_last()).push(metas.last().region.spec_file())
    }
}

/// The files of the data regions and their chunks, in order.
pub open spec fn data_files(datas: Seq<Data>) -> Seq<usize>
    decreases datas.len(),
{
    if datas.len() == 0 {
        Seq::empty()
    } else {
        data_files(datas.drop_last()) + seq![
            datas.last().region.spec_file(),
            datas.last().chunk.spec_file(),
        ]
    }
}

/// The files of the regions of a buffer, in the order they are dropped.
pub open spec fn buffer_files(b: Buffer) -> Seq<usize> {
    meta_files(b.metas@) + data_files(b.datas@)
}

/// The files of the regions of buffers, in the order they are dropped.
pub open spec fn buffers_files(bs: Seq<Buffer>) -> Seq<usize>
    decreases bs.len(),
{
    if bs.len() == 0 {
        Seq::empty()
    } else {
        buffers_files(bs.drop_last()) + buffer_files(bs.last())
    }
}

/// The files of the regions of sets of buffers, in the order they are
/// dropped.
pub open spec fn sets_files(sets: Seq<Buffers>) -> Seq<usize>
    decreases sets.len(),
{
    if sets.len() == 0 {
        Seq::empty()
    } else {
        sets_files(sets.drop_last()) + buffers_files(sets.last().buffers@)
    }
}

/// Drop the regions of a buffer; returns the files that lost their last
/// user.
fn free_buffer(memory: &mut Memory, b: Buffer) -> (r: Vec<File>)
    requires
        old(memory).wf(),
    ensures
        final(memory).wf(),
        final(memory).spec_ids() == old(memory).spec_ids(),
        (final(memory).spec_files(), r@) == release_all(old(memory).spec_files(), buffer_files(b)),
{
    let ghost start = memory.spec_files();
    let ghost metas_all = b.metas@;
    let ghost datas_all = b.datas@;
    let Buffer { id: _, offset: _, size: _, metas, datas } = b;
    let mut metas = metas;
    let mut released: Vec<File> = Vec::new();
    let len = metas.len();
    let mut n: usize = 0;
    while n < len
        invariant
            n <= len,
            len == metas_all.len(),
            metas@ == metas_all.subrange(n as int, len as int),
            memory.wf(),
            memory.spec_ids() == old(memory).spec_ids(),
            start == old(memory).spec_files(),
            (memory.spec_files(), released@) == release_all(
                start,
                meta_files(metas_all.subrange(0, n as int)),
            ),
        decreases len - n,
    {
        let m = metas.remove(0);
        proof {
            assert(metas_all.subrange(0, n + 1).drop_last() =~= metas_all.subrange(0, n as int));
            assert(metas_all.subrange(0, n + 1).last() == m);
            lemma_release_all_push(
                start,
                meta_files(metas_all.subrange(0, n as int)),
                m.region.spec_file(),
            );
        }
        let ghost before = released@;
        if let Some(f) = memory.free(m.region) {
            released.push(f);
        }
        proof {
            let (_, last) = release_region(
                release_all(start, meta_files(metas_all.subrange(0, n as int))).0,
                Some(m.region.spec_file()),
            );
            assert(released@ =~= before + last);
        }
        assert(metas@ =~= metas_all.subrange(n + 1, len as int));
        n = n + 1;
    }
    assert(metas_all.subrange(0, len as int) =~= metas_all);
    let ghost mid = memory.spec_files();
    let ghost released_metas = released@;
    let mut datas = datas;
    let len = datas.len();
    let mut n: usize = 0;
    while n < len
        invariant
            n <= len,
            len == datas_all.len(),
            datas@ == datas_all.subrange(n as int, len as int),
            memory.wf(),
            memory.spec_ids() == old(memory).spec_ids(),
            start == old(memory).spec_files(),
            (mid, released_metas) == release_all(start, meta_files(metas_all)),
            (memory.spec_files(), released@) == ({
                let (after, freed) = release_all(mid, data_files(datas_all.subrange(0, n as int)));
                (after, released_metas + freed)
            }),
        decreases len - n,
    {
        let d = datas.remove(0);
        let ghost prefix = data_files(datas_all.subrange(0, n as int));
        proof {
            assert(datas_all.subrange(0, n + 1).drop_last() =~= datas_all.subrange(0, n as int));
            assert(datas_all.subrange(0, n + 1).last() == d);
            assert(prefix + seq![d.region.spec_file(), d.chunk.spec_file()] =~= prefix.push(
                d.region.spec_file(),
            ).push(d.chunk.spec_file()));
            lemma_release_all_push(mid, prefix, d.region.spec_file());
            lemma_release_all_push(mid, prefix.push(d.region.spec_file()), d.chunk.spec_file());
        }
        let ghost before = released@;
        if let Some(f) = memory.free(d.region) {
            released.push(f);
        }
        let ghost between = released@;
        if let Some(f) = memory.free(d.chunk) {
            released.push(f);
        }
        proof {
            let (m1, f1) = release_all(mid, prefix);
            let (m2, l2) = release_region(m1, Some(d.region.spec_file()));
            let (m3, l3) = release_region(m2, Some(d.chunk.spec_file()));
            assert(between =~= before + l2);
            assert(released@ =~= before + l2 + l3);
            assert(released_metas + (f1 + l2 + l3) =~= released_metas + f1 + l2 + l3);
        }
        assert(datas@ =~= datas_all.subrange(n + 1, len as int));
        n = n + 1;
    }
    proof {
        assert(datas_all.subrange(0, len as int) =~= datas_all);
        lemma_release_all_append(start, meta_files(metas_all), data_files(datas_all));
    }
    released
}

/// Drop the regions of buffers in order; returns the files that lost their
/// last user.
fn free_buffers(memory: &mut Memory, bs: Vec<Buffer>) -> (r: Vec<File>)
    requires
        old(memory).wf(),
    ensures
        final(memory).wf(),
        final(memory).spec_ids() == old(memory).spec_ids(),
        (final(memory).spec_files(), r@) == release_all(old(memory).spec_files(), buffers_files(bs@)),
{
    let ghost start = memory.spec_files();
    let ghost all = bs@;
    let mut rest = bs;
    let mut released: Vec<File> = Vec::new();
    let len = rest.len();
    let mut n: usize = 0;
    while n < len
        invariant
            n <= len,
            len == all.len(),
            rest@ == all.subrange(n as int, len as int),
            memory.wf(),
            memory.spec_ids() == old(memory).spec_ids(),
            start == old(memory).spec_files(),
            (memory.spec_files(), released@) == release_all(
                start,
                buffers_files(all.subrange(0, n as int)),
            ),
        decreases len - n,
    {
        let b = rest.remove(0);
        proof {
            assert(all.subrange(0, n + 1).drop_last() =~= all.subrange(0, n as int));
            assert(all.subrange(0, n + 1).last() == b);
            lemma_release_all_append(
                start,
                buffers_files(all.subrange(0, n as int)),
                buffer_files(b),
            );
        }
        let mut freed = free_buffer(memory, b);
        released.append(&mut freed);
        assert(rest@ =~= all.subrange(n + 1, len as int));
        n = n + 1;
    }
    assert(all.subrange(0, len as int) =~= all);
    released
}

/// Drop the regions of sets of buffers in order; returns the files that
/// lost their last user.
pub fn free_sets(memory: &mut Memory, sets: Vec<Buffers>) -> (r: Vec<File>)
    requires
        old(memory).wf(),
    ensures
        final(memory).wf(),
        final(memory).spec_ids() == old(memory).spec_ids(),
        (final(memory).spec_files(), r@) == release_all(old(memory).spec_files(), sets_files(sets@)),
{
    let ghost start = memory.spec_files();
    let ghost all = sets@;
    let mut rest = sets;
    let mut released: Vec<File> = Vec::new();
    let len = rest.len();
    let mut n: usize = 0;
    while n < len
        invariant
            n <= len,
            len == all.len(),
            rest@ == all.subrange(n as int, len as int),
            memory.wf(),
            memory.spec_ids() == old(memory).spec_ids(),
            start == old(memory).spec_files(),
            (memory.spec_files(), released@) == release_all(
                start,
                sets_files(all.subrange(0, n as int)),
            ),
        decreases len - n,
    {
        let set = rest.remove(0);
        proof {
            assert(all.subrange(0, n + 1).drop_last() =~= all.subrange(0, n as int));
            assert(all.subrange(0, n + 1).last() == set);
            lemma_release_all_append(
                start,
                sets_files(all.subrange(0, n as int)),
                buffers_files(set.buffers@),
            );
        }
        let mut freed = free_buffers(memory, set.buffers);
        released.append(&mut freed);
        assert(rest@ =~= all.subrange(n + 1, len as int));
        n = n + 1;
    }
    assert(all.subrange(0, len as int) =~= all);
    released
}

/// How many users setting up buffers adds at most: the memory of each, its
/// metadata regions, and two for each data region.
pub open spec fn descs_budget(descs: Seq<BufferDesc>) -> int
    decreases descs.len(),
{
    if descs.len() == 0 {
        0
    } else {
        descs_budget(descs.drop_last()) + 1 + descs.last().metas@.len() + 2
            * descs.last().datas@.len()
    }
}

/// The layout of a set up buffer: its file, its metadata and its data
/// regions.
pub type BufferLayout = (usize, Seq<(int, int)>, Seq<(int, (usize, int, int))>);

/// What setting up buffers in order does: the error that stopped it or the
/// layout of each, and the files afterwards.
pub open spec fn buffers_fold(
    ids: Map<u32, usize>,
    files: Map<usize, File>,
    descs: Seq<BufferDesc>,
) -> (Result<Seq<BufferLayout>, UseBuffersError>, Map<usize, File>)
    decreases descs.len(),
{
    if descs.len() == 0 {
        (Ok(Seq::empty()), files)
    } else {
        let (before, mid) = buffers_fold(ids, files, descs.drop_last());
        match before {
            Err(e) => (Err(e), mid),
            Ok(layouts) => {
                let d = descs.last();
                let (one, after) = buffer_outcome(
                    ids,
                    mid,
                    d.mem_id,
                    d.offset,
                    d.size,
                    d.metas@,
                    d.datas@,
                );
                match one {
                    Err(e) => (Err(e), after),
                    Ok(layout) => (Ok(layouts.push(layout)), after),
                }
            },
        }
    }
}

/// The buffer `b` is the set up buffer `id` described by `desc`, laid out
/// as `layout`.
pub open spec fn buffer_matches(b: Buffer, id: int, desc: BufferDesc, layout: BufferLayout) -> bool {
    &&& b.id == id
    &&& b.offset == desc.offset
    &&& b.size == desc.size
    &&& metas_match(b.metas@, desc.metas@, layout.0, layout.1)
    &&& datas_match(b.datas@, desc.datas@, layout.0, layout.2)
}

/// The buffers `bs` are the set up buffers described by `descs`, numbered
/// in order and laid out as `layouts`.
pub open spec fn buffers_match(
    bs: Seq<Buffer>,
    descs: Seq<BufferDesc>,
    layouts: Seq<BufferLayout>,
) -> bool {
    &&& bs.len() == descs.len()
    &&& layouts.len() == descs.len()
    &&& forall|i: int| 0 <= i < bs.len() ==> buffer_matches(#[trigger] bs[i], i, descs[i], layouts[i])
}

/// Room for one more buffer than the budget of the buffers before it.
proof fn lemma_budget_step(descs: Seq<BufferDesc>, n: int)
    requires
        0 <= n < descs.len(),
    ensures
        descs_budget(descs.subrange(0, n + 1)) == descs_budget(descs.subrange(0, n)) + 1
            + descs[n].metas@.len() + 2 * descs[n].datas@.len(),
        descs_budget(descs.subrange(0, n)) >= 0,
{
    assert(descs.subrange(0, n + 1).drop_last() =~= descs.subrange(0, n));
    lemma_budget_nonneg(descs.subrange(0, n));
}

/// Budgets are not negative.
proof fn lemma_budget_nonneg(descs: Seq<BufferDesc>)
    ensures
        descs_budget(descs) >= 0,
    decreases descs.len(),
{
    if descs.len() > 0 {
        lemma_budget_nonneg(descs.drop_last());
    }
}

/// The budget of buffers is at least the budget of the first of them.
proof fn lemma_budget_prefix(descs: Seq<BufferDesc>, n: int)
    requires
        0 <= n <= descs.len(),
    ensures
        descs_budget(descs.subrange(0, n)) <= descs_budget(descs),
    decreases descs.len() - n,
{
    if n < descs.len() {
        lemma_budget_prefix(descs, n + 1);
        lemma_budget_step(descs, n);
    } else {
        assert(descs.subrange(0, n) =~= descs);
    }
}

/// Laying out metadata regions uses at most one user of room per region.
proof fn lemma_meta_fold_room(init: MetaState, key: usize, metas: Seq<MetaDesc>, n: int)
    requires
        has_room(init.0, n),
        n >= metas.len(),
    ensures
        has_room(meta_fold(init, key, metas).0, n - metas.len()),
    decreases metas.len(),
{
    if metas.len() > 0 {
        lemma_meta_fold_room(init, key, metas.drop_last(), n);
        let before = meta_fold(init, key, metas.drop_last());
        if before.4 is None {
            lemma_room_track(before.0, key, n - metas.drop_last().len());
        }
    }
}

/// Laying out data regions uses at most two users of room per region.
proof fn lemma_data_fold_room(
    init: DataState,
    ids: Map<u32, usize>,
    key: usize,
    base: (int, int),
    datas: Seq<DataDesc>,
    n: int,
)
    requires
        has_room(init.0, n),
        n >= 2 * datas.len(),
    ensures
        has_room(data_fold(init, ids, key, base, datas).0, n - 2 * datas.len()),
    decreases datas.len(),
{
    if datas.len() > 0 {
        lemma_data_fold_room(init, ids, key, base, datas.drop_last(), n);
        let before = data_fold(init, ids, key, base, datas.drop_last());
        let m = n - 2 * datas.drop_last().len();
        let d = datas.last();
        if before.4 is None {
            lemma_room_track(before.0, key, m);
            let files = track_files(before.0, key);
            lemma_room_track(files, key, m - 1);
            if ids.contains_key(d.data) {
                lemma_room_track(files, ids[d.data], m - 1);
            }
        }
    }
}

/// Dropping a region keeps the room every file has.
proof fn lemma_room_release(files: Map<usize, File>, key: usize, n: int)
    requires
        has_room(files, n),
    ensures
        has_room(release(files, key).0, n),
{
    assert forall|k: usize| #[trigger] release(files, key).0.contains_key(k) implies release(
        files,
        key,
    ).0[k].users + n <= u32::MAX by {
        assert(files.contains_key(k));
    }
}

/// Setting up a buffer uses at most its budget of room.
proof fn lemma_outcome_budget(
    ids: Map<u32, usize>,
    files: Map<usize, File>,
    mem_id: u32,
    offset: usize,
    size: usize,
    metas: Seq<MetaDesc>,
    datas: Seq<DataDesc>,
    n: int,
)
    requires
        has_room(files, n),
        n >= 1 + metas.len() + 2 * datas.len(),
    ensures
        has_room(
            buffer_outcome(ids, files, mem_id, offset, size, metas, datas).1,
            n - (1 + metas.len() + 2 * datas.len()),
        ),
{
    let total = 1 + metas.len() + 2 * datas.len();
    if map_error(ids, files, mem_id, offset, size) is None {
        let key = ids[mem_id];
        let base = (files[key].addr + offset, size as int);
        lemma_room_track(files, key, n);
        let init: MetaState = (track_files(files, key), base.0, base.1, Seq::empty(), None);
        lemma_meta_fold_room(init, key, metas, n - 1);
        let m = meta_fold(init, key, metas);
        if m.4 is None {
            let dinit: DataState = (m.0, m.1, m.2, Seq::empty(), None);
            lemma_data_fold_room(dinit, ids, key, base, datas, n - 1 - metas.len());
            let d = data_fold(dinit, ids, key, base, datas);
            if d.4 is None {
                lemma_room_release(d.0, key, n - total);
            } else {
                lemma_room_less(d.0, n - total, n - total);
            }
        } else {
            lemma_room_less(m.0, n - 1 - metas.len(), n - total);
        }
    } else {
        lemma_room_less(files, n, n - total);
    }
}

/// The server assigned buffers to a port for the mix `mix_id` (the invalid
/// mix for every mix): each is set up in order, then the new set replaces
/// the sets of the mix (or every set), whose regions are dropped. Returns
/// the files that lost their last user.
pub fn use_buffers(
    memory: &mut Memory,
    port: &mut Port,
    direction: u32,
    port_id: PortId,
    mix_id: MixId,
    flags: u32,
    descs: &Vec<BufferDesc>,
) -> (r: Result<Vec<File>, UseBuffersError>)
    requires
        old(memory).wf(),
        has_room(old(memory).spec_files(), descs_budget(descs@)),
        descs@.len() <= u32::MAX,
        size_of::<Chunk>() > 0,
        round_up(size_of::<Chunk>(), 8) <= usize::MAX,
        forall|i: int, j: int|
            0 <= i < descs@.len() && 0 <= j < descs@[i].metas@.len() ==> round_up(
                #[trigger] descs@[i].metas@[j].size as nat,
                8,
            ) <= usize::MAX,
    ensures
        final(memory).wf(),
        final(memory).spec_ids() == old(memory).spec_ids(),
        same_identity(*final(port), *old(port)),
        final(port).spec_io_clock() == old(port).spec_io_clock(),
        final(port).spec_io_position() == old(port).spec_io_position(),
        final(port).spec_mixes() == old(port).spec_mixes(),
        final(port).spec_port_buffers().spec_mixes() == old(port).spec_port_buffers().spec_mixes(),
        ({
            let (built, files) = buffers_fold(
                old(memory).spec_ids(),
                old(memory).spec_files(),
                descs@,
            );
            let sets = old(port).spec_port_buffers().spec_sets();
            match built {
                Err(e) => {
                    &&& r == Err::<Vec<File>, UseBuffersError>(e)
                    &&& final(port).spec_port_buffers() == old(port).spec_port_buffers()
                    &&& final(memory).spec_files() == files
                },
                Ok(layouts) => {
                    let new_sets = final(port).spec_port_buffers().spec_sets();
                    let set = new_sets.last();
                    let removed = if mix_id.0 == super::id::MIX_INVALID {
                        sets
                    } else {
                        sets.filter(|b: Buffers| b.mix_id == mix_id)
                    };
                    let kept = if mix_id.0 == super::id::MIX_INVALID {
                        Seq::<Buffers>::empty()
                    } else {
                        sets.filter(|b: Buffers| b.mix_id != mix_id)
                    };
                    let (after, freed) = release_all(files, sets_files(removed));
                    &&& (r matches Ok(v) && v@ == freed)
                    &&& final(memory).spec_files() == after
                    &&& new_sets == kept.push(set)
                    &&& set.direction == direction
                    &&& set.port_id == port_id
                    &&& set.mix_id == mix_id
                    &&& set.flags == flags
                    &&& set.available == 0
                    &&& buffers_match(set.buffers@, descs@, layouts)
                },
            }
        }),
{
    let ghost ids = memory.spec_ids();
    let ghost files0 = memory.spec_files();
    let mut buffers: Vec<Buffer> = Vec::new();
    let ghost mut layouts: Seq<BufferLayout> = Seq::empty();
    let mut n: usize = 0;
    while n < descs.len()
        invariant
            n <= descs.len(),
            descs@.len() <= u32::MAX,
            ids == old(memory).spec_ids(),
            files0 == old(memory).spec_files(),
            memory.wf(),
            memory.spec_ids() == ids,
            buffers_fold(ids, files0, descs@.subrange(0, n as int)) == (
                Ok::<Seq<BufferLayout>, UseBuffersError>(layouts),
                memory.spec_files(),
            ),
            buffers_match(buffers@, descs@.subrange(0, n as int), layouts),
            has_room(memory.spec_files(), descs_budget(descs@) - descs_budget(descs@.subrange(0, n as int))),
            size_of::<Chunk>() > 0,
            round_up(size_of::<Chunk>(), 8) <= usize::MAX,
            forall|i: int, j: int|
                0 <= i < descs@.len() && 0 <= j < descs@[i].metas@.len() ==> round_up(
                    #[trigger] descs@[i].metas@[j].size as nat,
                    8,
                ) <= usize::MAX,
        decreases descs.len() - n,
    {
        let desc = &descs[n];
        proof {
            lemma_budget_step(descs@, n as int);
            lemma_budget_prefix(descs@, n + 1);
            assert(descs@.subrange(0, n + 1).drop_last() =~= descs@.subrange(0, n as int));
            assert(descs@.subrange(0, n + 1).last() == *desc);
            assert forall|j: int| 0 <= j < desc.metas@.len() implies round_up(
                #[trigger] desc.metas@[j].size as nat,
                8,
            ) <= usize::MAX by {
                assert(descs@[n as int].metas@[j] == desc.metas@[j]);
            }
        }
        let ghost before = memory.spec_files();
        let b = match use_buffer(memory, n as u32, desc) {
            Ok(b) => b,
            Err(e) => {
                proof {
                    lemma_buffers_fold_stuck(ids, files0, descs@, n + 1);
                }
                return Err(e);
            },
        };
        proof {
            lemma_outcome_budget(
                ids,
                before,
                desc.mem_id,
                desc.offset,
                desc.size,
                desc.metas@,
                desc.datas@,
                descs_budget(descs@) - descs_budget(descs@.subrange(0, n as int)),
            );
            let (one, _) = buffer_outcome(
                ids,
                before,
                desc.mem_id,
                desc.offset,
                desc.size,
                desc.metas@,
                desc.datas@,
            );
            layouts = layouts.push(one->Ok_0);
        }
        buffers.push(b);
        proof {
            assert forall|i: int| 0 <= i < buffers@.len() implies buffer_matches(
                #[trigger] buffers@[i],
                i,
                descs@.subrange(0, n + 1)[i],
                layouts[i],
            ) by {
                if i < n {
                    assert(descs@.subrange(0, n + 1)[i] == descs@.subrange(0, n as int)[i]);
                }
            }
        }
        n = n + 1;
    }
    proof {
        assert(descs@.subrange(0, n as int) =~= descs@);
    }
    let set = Buffers { direction, port_id, mix_id, flags, buffers, available: 0 };
    let removed = port.replace_buffers(set);
    Ok(free_sets(memory, removed))
}

/// Once setting up buffers failed, the rest changes nothing.
proof fn lemma_buffers_fold_stuck(
    ids: Map<u32, usize>,
    files: Map<usize, File>,
    descs: Seq<BufferDesc>,
    i: int,
)
    requires
        0 <= i <= descs.len(),
        buffers_fold(ids, files, descs.subrange(0, i)).0 is Err,
    ensures
        buffers_fold(ids, files, descs) == buffers_fold(ids, files, descs.subrange(0, i)),
    decreases descs.len() - i,
{
    if i < descs.len() {
        assert(descs.subrange(0, i + 1).drop_last() =~= descs.subrange(0, i));
        lemma_buffers_fold_stuck(ids, files, descs, i + 1);
    } else {
        assert(descs.subrange(0, i) =~= descs);
    }
}

} // verus!
