//! Regions of mapped memory, described by the file they belong to, their
//! address and their size.

use core::marker::PhantomData;

use vstd::layout::{align_of, size_of};
use vstd::prelude::*;

verus! {

/// Why a region could not be derived from another.
#[derive(Debug, Clone, Copy, PartialEq, Eq)]
pub enum RegionError {
    /// The requested offset lies past the end of the region.
    OffsetOutOfBounds { offset: usize, size: usize },
    /// The requested size is larger than the region.
    SizeOutOfBounds { requested: usize, size: usize },
    /// The address of the region is not aligned for the target type.
    Misaligned { addr: usize, align: usize },
    /// The size of the region does not match the size of the target type.
    SizeMismatch { expected: usize, actual: usize },
    /// The size of the region is not a whole number of target elements.
    SizeNotMultiple { element: usize, actual: usize },
}

/// A region of memory mapped from a file, holding a `T`.
///
/// For a region of `[T]`, `size` counts elements; otherwise it counts bytes.
pub struct Region<T: ?Sized> {
    file: usize,
    size: usize,
    addr: usize,
    _marker: PhantomData<T>,
}

impl<T: ?Sized> Region<T> {
    /// The file the region belongs to.
    pub closed spec fn spec_file(&self) -> usize {
        self.file
    }

    /// The size of the region.
    pub closed spec fn spec_size(&self) -> usize {
        self.size
    }

    /// The address where the region starts.
    pub closed spec fn spec_addr(&self) -> usize {
        self.addr
    }

    /// A copy of the region.
    pub fn clone(&self) -> (r: Self)
        ensures
            r.spec_file() == self.spec_file(),
            r.spec_size() == self.spec_size(),
            r.spec_addr() == self.spec_addr(),
    {
        Region { file: self.file, size: self.size, addr: self.addr, _marker: PhantomData }
    }

    /// The file the region belongs to.
    pub fn file(&self) -> (f: usize)
        ensures
            f == self.spec_file(),
    {
        self.file
    }
}

impl<T> Region<[T]> {
    /// The elements of the region lie within the address space.
    pub open spec fn wf(&self) -> bool {
        self.spec_addr() + self.spec_size() * size_of::<T>() <= usize::MAX
    }

    /// Construct a region of `len` elements starting at `addr`.
    pub fn from_raw_parts(file: usize, len: usize, addr: usize) -> (r: Self)
        requires
            addr + len * size_of::<T>() <= usize::MAX,
        ensures
            r.wf(),
            r.spec_file() == file,
            r.spec_size() == len,
            r.spec_addr() == addr,
    {
        Region { file, size: len, addr, _marker: PhantomData }
    }

    /// The sub-region of `size` elements starting at element `offset`, or
    /// `None` if it does not lie within the region.
    pub fn slice(&self, offset: usize, size: usize) -> (r: Option<Self>)
        requires
            self.wf(),
            offset + size <= usize::MAX,
        ensures
            r is Some <==> offset + size <= self.spec_size(),
            r matches Some(s) ==> {
                &&& s.wf()
                &&& s.spec_file() == self.spec_file()
                &&& s.spec_size() == size
                &&& s.spec_addr() == self.spec_addr() + offset * size_of::<T>()
            },
    {
        if offset + size > self.size {
            return None;
        }
        let sz = core::mem::size_of::<T>();
        proof {
            assert(offset * sz + size * sz == (offset + size) * sz) by (nonlinear_arith);
            assert((offset + size) * sz <= self.size * sz) by (nonlinear_arith)
                requires
                    offset + size <= self.size,
            ;
        }
        Some(Region { file: self.file, size, addr: self.addr + offset * sz, _marker: PhantomData })
    }

    /// View the region as a single value of type `U`, which must be aligned
    /// and exactly fill the region.
    pub fn cast<U>(&self) -> (r: Result<Region<U>, RegionError>)
        requires
            self.wf(),
            size_of::<U>() > 0,
        ensures
            r is Ok <==> (self.spec_addr() as int) % (align_of::<U>() as int) == 0 && self.spec_size() * size_of::<T>()
                == size_of::<U>() as int,
            r matches Ok(c) ==> {
                &&& c.spec_file() == self.spec_file()
                &&& c.spec_size() == size_of::<U>()
                &&& c.spec_addr() == self.spec_addr()
            },
            (self.spec_addr() as int) % (align_of::<U>() as int) != 0 ==> r == Err::<Region<U>, RegionError>(
                RegionError::Misaligned { addr: self.spec_addr(), align: align_of::<U>() as usize },
            ),
            (self.spec_addr() as int) % (align_of::<U>() as int) == 0 && self.spec_size() * size_of::<T>()
                != size_of::<U>() as int ==> r == Err::<Region<U>, RegionError>(
                RegionError::SizeMismatch {
                    expected: size_of::<U>() as usize,
                    actual: (self.spec_size() * size_of::<T>()) as usize,
                },
            ),
    {
        let align = core::mem::align_of::<U>();
        proof {
            broadcast use vstd::layout::align_nonzero;
        }
        if self.addr % align != 0 {
            return Err(RegionError::Misaligned { addr: self.addr, align });
        }
        let size = self.size * core::mem::size_of::<T>();
        if size != core::mem::size_of::<U>() {
            return Err(
                RegionError::SizeMismatch { expected: core::mem::size_of::<U>(), actual: size },
            );
        }
        Ok(Region { file: self.file, size, addr: self.addr, _marker: PhantomData })
    }

    /// View the region as an array of `U`, which must be aligned and evenly
    /// divide the region.
    pub fn cast_array<U>(&self) -> (r: Result<Region<[U]>, RegionError>)
        requires
            self.wf(),
            size_of::<U>() > 0,
        ensures
            r is Ok <==> (self.spec_addr() as int) % (align_of::<U>() as int) == 0 && (self.spec_size()
                * size_of::<T>()) % (size_of::<U>() as int) == 0,
            r matches Ok(c) ==> {
                &&& c.wf()
                &&& c.spec_file() == self.spec_file()
                &&& c.spec_size() == (self.spec_size() * size_of::<T>()) / (size_of::<U>() as int)
                &&& c.spec_addr() == self.spec_addr()
            },
            (self.spec_addr() as int) % (align_of::<U>() as int) != 0 ==> r == Err::<Region<[U]>, RegionError>(
                RegionError::Misaligned { addr: self.spec_addr(), align: align_of::<U>() as usize },
            ),
            (self.spec_addr() as int) % (align_of::<U>() as int) == 0 && (self.spec_size()
                * size_of::<T>()) % (size_of::<U>() as int) != 0 ==> r == Err::<Region<[U]>, RegionError>(
                RegionError::SizeNotMultiple {
                    element: size_of::<U>() as usize,
                    actual: (self.spec_size() * size_of::<T>()) as usize,
                },
            ),
    {
        let align = core::mem::align_of::<U>();
        proof {
            broadcast use vstd::layout::align_nonzero;
        }
        if self.addr % align != 0 {
            return Err(RegionError::Misaligned { addr: self.addr, align });
        }
        let size = self.size * core::mem::size_of::<T>();
        let usz = core::mem::size_of::<U>();
        if size % usz != 0 {
            return Err(RegionError::SizeNotMultiple { element: usz, actual: size });
        }
        let len = size / usz;
        proof {
            assert(len * usz == size) by (nonlinear_arith)
                requires
                    size % usz == 0,
                    len == size / usz,
                    usz > 0,
            ;
        }
        Ok(Region { file: self.file, size: len, addr: self.addr, _marker: PhantomData })
    }

    /// View the array as an array of `U`, which has the same size as `T`.
    pub fn cast_array_unchecked<U>(&self) -> (r: Region<[U]>)
        requires
            self.wf(),
            size_of::<U>() == size_of::<T>(),
        ensures
            r.wf(),
            r.spec_file() == self.spec_file(),
            r.spec_size() == self.spec_size(),
            r.spec_addr() == self.spec_addr(),
    {
        Region { file: self.file, size: self.size, addr: self.addr, _marker: PhantomData }
    }

    /// Limit the region to its first `size` elements.
    pub fn size(&self, size: usize) -> (r: Result<Region<[T]>, RegionError>)
        requires
            self.wf(),
        ensures
            r is Ok <==> size <= self.spec_size(),
            r matches Ok(s) ==> {
                &&& s.wf()
                &&& s.spec_file() == self.spec_file()
                &&& s.spec_size() == size
                &&& s.spec_addr() == self.spec_addr()
            },
            r is Err ==> r == Err::<Region<[T]>, RegionError>(
                RegionError::SizeOutOfBounds { requested: size, size: self.spec_size() },
            ),
    {
        if size > self.size {
            return Err(RegionError::SizeOutOfBounds { requested: size, size: self.size });
        }
        proof {
            assert(size * size_of::<T>() <= self.size * size_of::<T>()) by (nonlinear_arith)
                requires
                    size <= self.size,
            ;
        }
        Ok(Region { file: self.file, size, addr: self.addr, _marker: PhantomData })
    }

    /// The number of elements in the region.
    pub fn len(&self) -> (n: usize)
        ensures
            n == self.spec_size(),
    {
        self.size
    }

    /// The address where the region starts.
    pub fn as_ptr(&self) -> (a: usize)
        ensures
            a == self.spec_addr(),
    {
        self.addr
    }

    /// The address where the region starts, for writing.
    pub fn as_mut_ptr(&self) -> (a: usize)
        ensures
            a == self.spec_addr(),
    {
        self.addr
    }
}

impl Region<[u8]> {
    /// The rest of the region after skipping `offset` bytes rounded up to a
    /// multiple of `align`.
    pub fn offset(&self, offset: usize, align: usize) -> (r: Result<Self, RegionError>)
        requires
            self.wf(),
            align > 0,
            round_up(offset as nat, align as nat) <= usize::MAX,
        ensures
            ({
                let rounded = round_up(offset as nat, align as nat);
                &&& r is Ok <==> rounded <= self.spec_size()
                &&& r matches Ok(s) ==> {
                    &&& s.wf()
                    &&& s.spec_file() == self.spec_file()
                    &&& s.spec_size() == self.spec_size() - rounded
                    &&& s.spec_addr() == self.spec_addr() + rounded
                }
                &&& r is Err ==> r == Err::<Self, RegionError>(
                    RegionError::OffsetOutOfBounds { offset: rounded as usize, size: self.spec_size() },
                )
            }),
    {
        let rem = offset % align;
        let rounded = if rem == 0 {
            offset
        } else {
            offset + (align - rem)
        };
        if rounded > self.size {
            return Err(RegionError::OffsetOutOfBounds { offset: rounded, size: self.size });
        }
        Ok(Region { file: self.file, size: self.size - rounded, addr: self.addr + rounded, _marker: PhantomData })
    }
}

/// `n` rounded up to a multiple of `align`.
pub open spec fn round_up(n: nat, align: nat) -> nat
    recommends
        align > 0,
{
    if n % align == 0 {
        n
    } else {
        (n + (align - n % align)) as nat
    }
}

impl<T> Region<T> {
    /// Construct a region of `size` bytes starting at `addr`.
    pub fn new(file: usize, size: usize, addr: usize) -> (r: Self)
        ensures
            r.spec_file() == file,
            r.spec_size() == size,
            r.spec_addr() == addr,
    {
        Region { file, size, addr, _marker: PhantomData }
    }

    /// Erase the type of the region.
    pub fn erase(self) -> (r: Region<()>)
        ensures
            r.spec_file() == self.spec_file(),
            r.spec_size() == self.spec_size(),
            r.spec_addr() == self.spec_addr(),
    {
        Region { file: self.file, size: self.size, addr: self.addr, _marker: PhantomData }
    }

    /// The address where the region starts.
    pub fn as_ptr(&self) -> (a: usize)
        ensures
            a == self.spec_addr(),
    {
        self.addr
    }

    /// The address where the region starts, for writing.
    pub fn as_mut_ptr(&self) -> (a: usize)
        ensures
            a == self.spec_addr(),
    {
        self.addr
    }
}

} // verus!
