//! Memory that the server shares with the client: files, mapped once each,
//! and counted users of the regions handed out of them.

use std::collections::HashMap;

use slab::Slab;
use vstd::prelude::*;

use super::region::{Region, RegionError, round_up};

verus! {

broadcast use vstd::std_specs::hash::group_hash_axioms;

/// Data that lies in the memory a pointer points to.
pub const DATA_TYPE_MEM_PTR: u32 = 1;

/// Data that lies in a file that can be mapped.
pub const DATA_TYPE_MEM_FD: u32 = 2;

/// The memory can be mapped for reading.
pub const MEMBLOCK_READABLE: u32 = 1;

/// The memory can be mapped for writing.
pub const MEMBLOCK_WRITABLE: u32 = 2;

/// Why memory could not be added or mapped.
#[derive(Debug, Clone, Copy, PartialEq, Eq)]
pub enum MemoryError {
    /// The memory is not a file that can be mapped.
    NotMemFd { mem_id: u32, ty: u32 },
    /// No memory is known by this identifier.
    Missing { mem_id: u32 },
    /// The requested part does not lie within the memory.
    Region(RegionError),
}

/// A file shared by the server and where it is mapped.
#[derive(Debug, Clone, Copy, PartialEq, Eq, Structural)]
pub struct File {
    /// The key of the file among the files.
    pub file: usize,
    /// The data type of the file.
    pub ty: u32,
    /// The descriptor of the file.
    pub fd: i32,
    /// The flags the memory was added with.
    pub flags: u32,
    /// How many users the file has: the memory identifier itself and each
    /// region handed out of it.
    pub users: u32,
    /// The size of the mapping.
    pub size: usize,
    /// The address of the mapping.
    pub addr: usize,
}

#[verifier::external_type_specification]
#[verifier::external_body]
#[verifier::reject_recursive_types(T)]
pub struct ExSlab<T>(Slab<T>);

/// The files a slab holds, by key.
pub uninterp spec fn slab_files(s: Slab<File>) -> Map<usize, File>;

/// The key that the next insertion into a slab uses.
pub uninterp spec fn slab_next(s: Slab<File>) -> usize;

/// An empty slab.
///
/// Calls `Slab::new` of `slab`, which holds no values.
#[verifier::external_body]
fn slab_new() -> (r: Slab<File>)
    ensures
        forall|k: usize| !#[trigger] slab_files(r).contains_key(k),
{
    Slab::new()
}

/// The key that the next insertion uses.
///
/// Calls `Slab::vacant_key` of `slab`, which returns its `next` field: the
/// head of the list of vacant entries, or the length of its entries when
/// none is vacant; either way a key that holds no value.
#[verifier::external_body]
fn slab_vacant_key(s: &Slab<File>) -> (k: usize)
    ensures
        k == slab_next(*s),
        !slab_files(*s).contains_key(k),
{
    s.vacant_key()
}

/// Insert a file, returning its key.
///
/// Calls `Slab::insert` of `slab`, which stores the value at the key that
/// `vacant_key` returned before. Running out of memory is not described.
#[verifier::external_body]
fn slab_insert(s: &mut Slab<File>, file: File) -> (k: usize)
    ensures
        k == slab_next(*old(s)),
        !slab_files(*old(s)).contains_key(k),
        slab_files(*final(s)) == slab_files(*old(s)).insert(k, file),
{
    s.insert(file)
}

/// The file at `key`, if any.
///
/// Calls `Slab::get` of `slab` and copies the file out.
#[verifier::external_body]
fn slab_get(s: &Slab<File>, key: usize) -> (r: Option<File>)
    ensures
        r == (if slab_files(*s).contains_key(key) {
            Some(slab_files(*s)[key])
        } else {
            None
        }),
{
    s.get(key).copied()
}

/// Replace the file at `key`, which must hold one.
///
/// Assigns through `IndexMut` of `slab`, which panics on a key that holds
/// no value.
#[verifier::external_body]
fn slab_set(s: &mut Slab<File>, key: usize, file: File)
    requires
        slab_files(*old(s)).contains_key(key),
    ensures
        slab_files(*final(s)) == slab_files(*old(s)).insert(key, file),
{
    s[key] = file;
}

/// Remove the file at `key`, which must hold one.
///
/// Calls `Slab::remove` of `slab`, which panics on a key that holds no
/// value and returns the value it held.
#[verifier::external_body]
fn slab_remove(s: &mut Slab<File>, key: usize) -> (r: File)
    requires
        slab_files(*old(s)).contains_key(key),
    ensures
        r == slab_files(*old(s))[key],
        slab_files(*final(s)) == slab_files(*old(s)).remove(key),
{
    s.remove(key)
}

/// Whether memory of the given flags is mapped for reading and for writing.
pub fn protection(flags: u32) -> (r: (bool, bool))
    ensures
        r.0 == (flags & MEMBLOCK_READABLE != 0),
        r.1 == (flags & MEMBLOCK_WRITABLE != 0),
{
    (flags & MEMBLOCK_READABLE != 0, flags & MEMBLOCK_WRITABLE != 0)
}

/// The memory shared with the server.
pub struct Memory {
    /// The file of each memory identifier.
    map: HashMap<u32, usize>,
    /// The files, by key.
    files: Slab<File>,
}

impl Memory {
    /// The file of each memory identifier.
    pub closed spec fn spec_ids(&self) -> Map<u32, usize> {
        self.map@
    }

    /// The files, by key.
    pub closed spec fn spec_files(&self) -> Map<usize, File> {
        slab_files(self.files)
    }

    /// The file of the memory `mem_id`, if it is there, can gain a user.
    pub open spec fn can_track(&self, mem_id: u32) -> bool {
        self.spec_ids().contains_key(mem_id) && self.spec_files().contains_key(
            self.spec_ids()[mem_id],
        ) ==> self.spec_files()[self.spec_ids()[mem_id]].users < u32::MAX
    }

    /// Every file knows its key, is a mapped memory file within the
    /// address space, and has a user.
    pub open spec fn wf(&self) -> bool {
        files_wf(self.spec_files())
    }

    /// No memory.
    pub fn new() -> (r: Self)
        ensures
            r.wf(),
            r.spec_ids() == Map::<u32, usize>::empty(),
            r.spec_files() == Map::<usize, File>::empty(),
    {
        let files = slab_new();
        assert(slab_files(files) =~= Map::<usize, File>::empty());
        Memory { map: HashMap::new(), files }
    }

    /// Check that memory of type `ty` can be added, before it is mapped.
    pub fn check_type(mem_id: u32, ty: u32) -> (r: Result<(), MemoryError>)
        ensures
            ty == DATA_TYPE_MEM_FD ==> r is Ok,
            ty != DATA_TYPE_MEM_FD ==> r == Err::<(), MemoryError>(
                MemoryError::NotMemFd { mem_id, ty },
            ),
    {
        if ty != DATA_TYPE_MEM_FD {
            return Err(MemoryError::NotMemFd { mem_id, ty });
        }
        Ok(())
    }

    /// The key the next added file gets.
    pub fn next_file(&self) -> (k: usize)
        ensures
            !self.spec_files().contains_key(k),
    {
        slab_vacant_key(&self.files)
    }

    /// Add the memory `mem_id`: the file `fd` of type `ty`, mapped at `addr`
    /// for `size` bytes. It has one user, the identifier; a file the
    /// identifier named before loses that user. Returns the key of the new
    /// file and the old file if it lost its last user.
    pub fn insert(
        &mut self,
        mem_id: u32,
        ty: u32,
        fd: i32,
        flags: u32,
        size: usize,
        addr: usize,
    ) -> (r: Result<(usize, Option<File>), MemoryError>)
        requires
            old(self).wf(),
            addr + size <= usize::MAX,
        ensures
            final(self).wf(),
            ty != DATA_TYPE_MEM_FD ==> r == Err::<(usize, Option<File>), MemoryError>(
                MemoryError::NotMemFd { mem_id, ty },
            ) && final(self).spec_ids() == old(self).spec_ids() && final(self).spec_files()
                == old(self).spec_files(),
            ty == DATA_TYPE_MEM_FD ==> (r matches Ok((key, freed)) && {
                let file = File { file: key, ty, fd, flags, users: 1, size, addr };
                let added = old(self).spec_files().insert(key, file);
                &&& !old(self).spec_files().contains_key(key)
                &&& final(self).spec_ids() == old(self).spec_ids().insert(mem_id, key)
                &&& old(self).spec_ids().contains_key(mem_id) ==> release(
                    added,
                    old(self).spec_ids()[mem_id],
                ) == (final(self).spec_files(), freed)
                &&& !old(self).spec_ids().contains_key(mem_id) ==> final(self).spec_files()
                    == added && freed is None
            }),
    {
        if ty != DATA_TYPE_MEM_FD {
            return Err(MemoryError::NotMemFd { mem_id, ty });
        }
        let key = slab_vacant_key(&self.files);
        proof {
            lemma_files_wf_insert(
                self.spec_files(),
                key,
                File { file: key, ty, fd, flags, users: 1, size, addr },
            );
        }
        let inserted = slab_insert(
            &mut self.files,
            File { file: key, ty, fd, flags, users: 1, size, addr },
        );
        assert(inserted == key);
        let old_file = self.map.insert(mem_id, key);
        let freed = match old_file {
            Some(old_key) => self.free_file(old_key),
            None => None,
        };
        Ok((key, freed))
    }

    /// The data type of the memory `mem_id`, if its file is there.
    pub fn data_type(&self, mem_id: u32) -> (r: Option<u32>)
        ensures
            r == (if self.spec_ids().contains_key(mem_id) && self.spec_files().contains_key(
                self.spec_ids()[mem_id],
            ) {
                Some(self.spec_files()[self.spec_ids()[mem_id]].ty)
            } else {
                None
            }),
    {
        match self.map.get(&mem_id) {
            Some(key) => match slab_get(&self.files, *key) {
                Some(f) => Some(f.ty),
                None => None,
            },
            None => None,
        }
    }

    /// The memory `mem_id` is gone: its file loses the identifier as a user.
    /// Returns the file if that was its last user.
    pub fn remove(&mut self, mem_id: u32) -> (r: Option<File>)
        requires
            old(self).wf(),
        ensures
            final(self).wf(),
            final(self).spec_ids() == old(self).spec_ids().remove(mem_id),
            !old(self).spec_ids().contains_key(mem_id) ==> final(self).spec_files()
                == old(self).spec_files() && r is None,
            old(self).spec_ids().contains_key(mem_id) ==> release(
                old(self).spec_files(),
                old(self).spec_ids()[mem_id],
            ) == (final(self).spec_files(), r),
    {
        match self.map.remove(&mem_id) {
            Some(key) => self.free_file(key),
            None => None,
        }
    }

    /// A region of a file is dropped: the file loses it as a user. Returns
    /// the file if that was its last user.
    pub fn free<T: ?Sized>(&mut self, region: Region<T>) -> (r: Option<File>)
        requires
            old(self).wf(),
        ensures
            final(self).wf(),
            final(self).spec_ids() == old(self).spec_ids(),
            release(old(self).spec_files(), region.spec_file()) == (final(self).spec_files(), r),
    {
        self.free_file(region.file())
    }

    /// A region of a file is handed out: the file gains it as a user.
    pub fn track<T: ?Sized>(&mut self, region: &Region<T>)
        requires
            old(self).wf(),
            old(self).spec_files().contains_key(region.spec_file()) ==> old(self).spec_files()[region.spec_file()].users < u32::MAX,
        ensures
            final(self).wf(),
            final(self).spec_ids() == old(self).spec_ids(),
            final(self).spec_files() == track_files(old(self).spec_files(), region.spec_file()),
    {
        let key = region.file();
        if let Some(f) = slab_get(&self.files, key) {
            assert(self.spec_files().contains_key(key));
            proof {
                lemma_files_wf_insert(self.spec_files(), key, File { users: (f.users + 1) as u32, ..f });
            }
            slab_set(&mut self.files, key, File { users: f.users + 1, ..f });
        }
    }

    /// The number of users of the file `file`, if it is there.
    pub fn users(&self, file: usize) -> (r: Option<u32>)
        ensures
            r == (if self.spec_files().contains_key(file) {
                Some(self.spec_files()[file].users)
            } else {
                None
            }),
    {
        match slab_get(&self.files, file) {
            Some(f) => Some(f.users),
            None => None,
        }
    }

    /// Hand out the `size` bytes at `offset` in the memory `mem_id`; its file
    /// gains the region as a user.
    pub fn map(&mut self, mem_id: u32, offset: usize, size: usize) -> (r: Result<
        Region<[u8]>,
        MemoryError,
    >)
        requires
            old(self).wf(),
            old(self).can_track(mem_id),
        ensures
            final(self).wf(),
            final(self).spec_ids() == old(self).spec_ids(),
            ({
                let ids = old(self).spec_ids();
                let files = old(self).spec_files();
                match map_error(ids, files, mem_id, offset, size) {
                    Some(e) => r == Err::<Region<[u8]>, MemoryError>(e) && final(self).spec_files()
                        == files,
                    None => {
                        let key = ids[mem_id];
                        &&& (r matches Ok(region) && {
                            &&& region.wf()
                            &&& region.spec_file() == key
                            &&& region.spec_addr() == files[key].addr + offset
                            &&& region.spec_size() == size
                        })
                        &&& final(self).spec_files() == track_files(files, key)
                    },
                }
            }),
    {
        let key = match self.map.get(&mem_id) {
            Some(key) => *key,
            None => {
                return Err(MemoryError::Missing { mem_id });
            },
        };
        let f = match slab_get(&self.files, key) {
            Some(f) => f,
            None => {
                return Err(MemoryError::Missing { mem_id });
            },
        };
        if f.ty != DATA_TYPE_MEM_FD {
            return Err(MemoryError::NotMemFd { mem_id, ty: f.ty });
        }
        let whole: Region<[u8]> = Region::from_raw_parts(key, f.size, f.addr);
        proof {
            broadcast use vstd::layout::layout_of_primitives;
        }
        let rest = match whole.offset(offset, 1) {
            Ok(rest) => rest,
            Err(e) => {
                return Err(MemoryError::Region(e));
            },
        };
        let region = match rest.size(size) {
            Ok(region) => region,
            Err(e) => {
                return Err(MemoryError::Region(e));
            },
        };
        assert(self.spec_files().contains_key(key));
        proof {
            lemma_files_wf_insert(self.spec_files(), key, File { users: (f.users + 1) as u32, ..f });
        }
        slab_set(&mut self.files, key, File { users: f.users + 1, ..f });
        Ok(region)
    }

    /// The file `file` loses a user, and is removed when it has none left.
    /// Returns the removed file.
    fn free_file(&mut self, file: usize) -> (r: Option<File>)
        requires
            old(self).wf(),
        ensures
            final(self).wf(),
            final(self).spec_ids() == old(self).spec_ids(),
            release(old(self).spec_files(), file) == (final(self).spec_files(), r),
    {
        let f = match slab_get(&self.files, file) {
            Some(f) => f,
            None => {
                return None;
            },
        };
        assert(self.spec_files().contains_key(file));
        let users = f.users - 1;
        if users > 0 {
            proof {
                lemma_files_wf_insert(self.spec_files(), file, File { users, ..f });
            }
            slab_set(&mut self.files, file, File { users, ..f });
            return None;
        }
        proof {
            lemma_files_wf_remove(self.spec_files(), file);
        }
        Some(slab_remove(&mut self.files, file))
    }
}

/// Why handing out the `size` bytes at `offset` of the memory `mem_id`
/// fails, if it does: the memory is unknown or its file is gone, or the
/// bytes do not lie within the file.
pub open spec fn map_error(
    ids: Map<u32, usize>,
    files: Map<usize, File>,
    mem_id: u32,
    offset: usize,
    size: usize,
) -> Option<MemoryError> {
    if !(ids.contains_key(mem_id) && files.contains_key(ids[mem_id])) {
        Some(MemoryError::Missing { mem_id })
    } else {
        let f = files[ids[mem_id]];
        if offset > f.size {
            Some(MemoryError::Region(RegionError::OffsetOutOfBounds { offset, size: f.size }))
        } else if size > f.size - offset {
            Some(
                MemoryError::Region(
                    RegionError::SizeOutOfBounds { requested: size, size: (f.size - offset) as usize },
                ),
            )
        } else {
            None
        }
    }
}

/// A file as it is kept at `key`: it knows its key, is a mapped memory
/// file within the address space, and has a user.
pub open spec fn file_wf(f: File, key: usize) -> bool {
    &&& f.file == key
    &&& f.ty == DATA_TYPE_MEM_FD
    &&& f.addr + f.size <= usize::MAX
    &&& f.users >= 1
}

/// Every file is kept as it should be at its key.
pub open spec fn files_wf(files: Map<usize, File>) -> bool {
    forall|k: usize| #[trigger] files.contains_key(k) ==> file_wf(files[k], k)
}

/// Keeping a well-formed file keeps the files well-formed.
pub proof fn lemma_files_wf_insert(files: Map<usize, File>, key: usize, f: File)
    requires
        files_wf(files),
        file_wf(f, key),
    ensures
        files_wf(files.insert(key, f)),
{
    assert forall|k: usize| #[trigger] files.insert(key, f).contains_key(k) implies file_wf(
        files.insert(key, f)[k],
        k,
    ) by {
        if k != key {
            assert(files.contains_key(k));
        }
    }
}

/// Removing a file keeps the files well-formed.
pub proof fn lemma_files_wf_remove(files: Map<usize, File>, key: usize)
    requires
        files_wf(files),
    ensures
        files_wf(files.remove(key)),
{
    assert forall|k: usize| #[trigger] files.remove(key).contains_key(k) implies file_wf(
        files.remove(key)[k],
        k,
    ) by {
        assert(files.contains_key(k));
    }
}

/// The files after the file at `key` loses a user, and the file if it
/// lost its last user and was removed.
pub open spec fn release(files: Map<usize, File>, key: usize) -> (Map<usize, File>, Option<File>) {
    if !files.contains_key(key) {
        (files, None)
    } else {
        let f = files[key];
        if f.users > 1 {
            (files.insert(key, File { users: (f.users - 1) as u32, ..f }), None)
        } else {
            (files.remove(key), Some(f))
        }
    }
}

/// The files after the file at `key` gains a user.
pub open spec fn track_files(files: Map<usize, File>, key: usize) -> Map<usize, File> {
    if files.contains_key(key) {
        files.insert(key, File { users: (files[key].users + 1) as u32, ..files[key] })
    } else {
        files
    }
}

/// The files after the file of an optional region loses it as a user, and
/// the file if that was its last user.
pub open spec fn release_region(files: Map<usize, File>, region: Option<usize>) -> (
    Map<usize, File>,
    Seq<File>,
) {
    match region {
        None => (files, Seq::empty()),
        Some(key) => {
            let (after, freed) = release(files, key);
            (
                after,
                match freed {
                    Some(f) => seq![f],
                    None => Seq::empty(),
                },
            )
        },
    }
}

/// The files after the files at `keys` lose a user each, in order, and the
/// files that lost their last user.
pub open spec fn release_all(files: Map<usize, File>, keys: Seq<usize>) -> (
    Map<usize, File>,
    Seq<File>,
)
    decreases keys.len(),
{
    if keys.len() == 0 {
        (files, Seq::empty())
    } else {
        let (before, freed) = release_all(files, keys.drop_last());
        let (after, last) = release_region(before, Some(keys.last()));
        (after, freed + last)
    }
}

/// Releasing keeps the files well-formed.
pub proof fn lemma_release_wf(files: Map<usize, File>, key: usize)
    requires
        files_wf(files),
    ensures
        files_wf(release(files, key).0),
{
    if files.contains_key(key) {
        let f = files[key];
        if f.users > 1 {
            lemma_files_wf_insert(files, key, File { users: (f.users - 1) as u32, ..f });
        } else {
            lemma_files_wf_remove(files, key);
        }
    }
}

/// Releasing the files of two runs of keys one after the other is
/// releasing the files of their concatenation.
pub proof fn lemma_release_all_append(files: Map<usize, File>, a: Seq<usize>, b: Seq<usize>)
    ensures
        release_all(files, a + b) == ({
            let (mid, freed_a) = release_all(files, a);
            let (after, freed_b) = release_all(mid, b);
            (after, freed_a + freed_b)
        }),
    decreases b.len(),
{
    if b.len() == 0 {
        assert(a + b =~= a);
        let (mid, freed_a) = release_all(files, a);
        assert(freed_a + Seq::<File>::empty() =~= freed_a);
    } else {
        assert((a + b).drop_last() =~= a + b.drop_last());
        assert((a + b).last() == b.last());
        lemma_release_all_append(files, a, b.drop_last());
        let (mid, freed_a) = release_all(files, a);
        let (m2, freed_b1) = release_all(mid, b.drop_last());
        let (after, last) = release_region(m2, Some(b.last()));
        assert(freed_a + freed_b1 + last =~= freed_a + (freed_b1 + last));
    }
}

/// Releasing the files of keys is releasing the files of a prefix and then
/// of the next key.
pub proof fn lemma_release_all_push(files: Map<usize, File>, a: Seq<usize>, k: usize)
    ensures
        release_all(files, a.push(k)) == ({
            let (mid, freed) = release_all(files, a);
            let (after, last) = release_region(mid, Some(k));
            (after, freed + last)
        }),
{
    assert(a.push(k).drop_last() =~= a);
}

/// Releasing keeps the files well-formed.
pub proof fn lemma_release_all_wf(files: Map<usize, File>, keys: Seq<usize>)
    requires
        files_wf(files),
    ensures
        files_wf(release_all(files, keys).0),
    decreases keys.len(),
{
    if keys.len() > 0 {
        lemma_release_all_wf(files, keys.drop_last());
        lemma_release_wf(release_all(files, keys.drop_last()).0, keys.last());
    }
}

/// Handing out a region of a file and then dropping it leaves the files as
/// they were: the file keeps its users and stays.
pub proof fn lemma_track_then_release(files: Map<usize, File>, key: usize)
    requires
        files_wf(files),
        files.contains_key(key),
        files[key].users < u32::MAX,
    ensures
        release(track_files(files, key), key) == (files, None::<File>),
{
    let f = files[key];
    let t = track_files(files, key);
    let tracked_f = File { users: (f.users + 1) as u32, ..f };
    assert(t.contains_key(key));
    assert(t[key] == tracked_f);
    assert(t[key].users > 1);
    let back = File { users: (t[key].users - 1) as u32, ..t[key] };
    assert(back == f);
    assert(t.insert(key, back) =~= files);
}

/// A file added with its identifier as its only user is gone again, and
/// handed back, once that user is released; the other files are as they
/// were.
pub proof fn lemma_add_then_release(files: Map<usize, File>, key: usize, file: File)
    requires
        !files.contains_key(key),
        file.users == 1,
    ensures
        release(files.insert(key, file), key) == (files, Some(file)),
{
    assert(files.insert(key, file).remove(key) =~= files);
}

} // verus!
