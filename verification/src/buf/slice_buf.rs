use vstd::prelude::*;

use super::{AllocError, DynamicBuf};
use crate::error::{Error, ErrorKind};

verus! {

/// A reader over a borrowed slice of bytes.
///
/// Besides the unread bytes it tracks, modulo 256, how far it has advanced
/// from the start of the underlying slice, so that it can skip the padding
/// that aligns values relative to that start.
#[derive(Clone, Copy)]
pub struct SliceBuf<'de> {
    data: &'de [u8],
    start: usize,
    end: usize,
    off: u8,
}

/// A stored position of a [`SliceBuf`].
#[derive(Clone, Copy)]
pub struct Pos {
    at: usize,
}

impl Pos {
    /// The index in the underlying slice that the position refers to.
    pub closed spec fn spec_at(&self) -> nat {
        self.at as nat
    }
}

impl<'de> View for SliceBuf<'de> {
    type V = Seq<u8>;

    closed spec fn view(&self) -> Seq<u8> {
        self.data@.subrange(self.start as int, self.end as int)
    }
}

impl<'de> SliceBuf<'de> {
    /// The unread bytes lie within the underlying slice.
    pub closed spec fn wf(&self) -> bool {
        self.start <= self.end <= self.data@.len()
    }

    /// How far the reader has advanced from the start of the underlying
    /// slice, modulo 256.
    pub closed spec fn spec_off(&self) -> nat {
        self.off as nat
    }

    /// The index in the underlying slice of the first unread byte.
    pub closed spec fn spec_start(&self) -> nat {
        self.start as nat
    }

    /// Construct a reader over all of `slice`.
    pub fn new(slice: &'de [u8]) -> (s: Self)
        ensures
            s.wf(),
            s@ == slice@,
            s.spec_off() == 0,
            s.spec_start() == 0,
    {
        proof {
            assert(slice@.subrange(0, slice@.len() as int) =~= slice@);
        }
        SliceBuf { data: slice, start: 0, end: slice.len(), off: 0 }
    }

    /// Copy the unread bytes into an owned buffer.
    pub fn to_owned(&self) -> (r: Result<DynamicBuf, AllocError>)
        requires
            self.wf(),
        ensures
            r is Ok <==> self@.len() <= isize::MAX - 7,
            r matches Ok(b) ==> b.wf() && b@ == self@,
    {
        DynamicBuf::from_slice(self.as_bytes())
    }

    /// The number of unread bytes.
    pub fn len(&self) -> (n: usize)
        requires
            self.wf(),
        ensures
            n == self@.len(),
    {
        self.end - self.start
    }

    /// Whether all bytes have been read.
    pub fn is_empty(&self) -> (b: bool)
        requires
            self.wf(),
        ensures
            b == (self@.len() == 0),
    {
        self.end == self.start
    }

    /// The unread bytes.
    pub fn as_bytes(&self) -> (s: &'de [u8])
        requires
            self.wf(),
        ensures
            s@ == self@,
    {
        vstd::slice::slice_subrange(self.data, self.start, self.end)
    }

    /// Split the unread bytes at `at` into two readers.
    pub fn split_at_checked(&self, at: usize) -> (r: Option<(SliceBuf<'de>, SliceBuf<'de>)>)
        requires
            self.wf(),
        ensures
            r is Some <==> at <= self@.len(),
            r matches Some((a, b)) ==> {
                &&& a.wf() && b.wf()
                &&& a@ == self@.subrange(0, at as int)
                &&& b@ == self@.subrange(at as int, self@.len() as int)
                &&& a.spec_off() == self.spec_off()
                &&& b.spec_off() == (self.spec_off() + at) % 256
                &&& a.spec_start() == self.spec_start()
                &&& b.spec_start() == self.spec_start() + at
            },
    {
        if at > self.end - self.start {
            return None;
        }
        let a = SliceBuf { data: self.data, start: self.start, end: self.start + at, off: self.off };
        let b = SliceBuf {
            data: self.data,
            start: self.start + at,
            end: self.end,
            off: advance_off(self.off, at),
        };
        proof {
            assert(a@ =~= self@.subrange(0, at as int));
            assert(b@ =~= self@.subrange(at as int, self@.len() as int));
        }
        Some((a, b))
    }

    /// The current position of the reader.
    pub fn pos(&self) -> (p: Pos)
        ensures
            p.spec_at() == self.spec_start(),
    {
        Pos { at: self.start }
    }

    /// The number of bytes read since `pos`.
    pub fn distance_from(&self, pos: Pos) -> (d: usize)
        requires
            pos.spec_at() <= self.spec_start(),
        ensures
            d == self.spec_start() - pos.spec_at(),
    {
        self.start - pos.at
    }

    /// Skip `size` bytes.
    pub fn skip(&mut self, size: usize) -> (r: Result<(), Error>)
        requires
            old(self).wf(),
        ensures
            final(self).wf(),
            r is Ok <==> size <= old(self)@.len(),
            r is Ok ==> final(self)@ == old(self)@.subrange(size as int, old(self)@.len() as int)
                && final(self).spec_off() == (old(self).spec_off() + size) % 256
                && final(self).spec_start() == old(self).spec_start() + size,
            r is Err ==> *final(self) == *old(self) && r == Err::<(), Error>((Error { kind: ErrorKind::BufferUnderflow })),
    {
        match self.split_at_checked(size) {
            Some((_, tail)) => {
                *self = tail;
                Ok(())
            },
            None => Err(Error::new(ErrorKind::BufferUnderflow)),
        }
    }

    /// Skip the padding that brings the offset from the start of the underlying
    /// slice up to a multiple of `align`.
    pub fn unpad(&mut self, align: usize) -> (r: Result<(), Error>)
        requires
            old(self).wf(),
            0 < align <= 255,
        ensures
            final(self).wf(),
            ({
                let rem = old(self).spec_off() % (align as nat);
                let pad = if rem == 0 { 0 } else { (align - rem) as nat };
                &&& r is Ok <==> pad <= old(self)@.len()
                &&& r is Ok ==> final(self)@ == old(self)@.subrange(pad as int, old(self)@.len() as int)
                    && final(self).spec_off() == (old(self).spec_off() + pad) % 256
                    && final(self).spec_start() == old(self).spec_start() + pad
                &&& r is Err ==> *final(self) == *old(self)
            }),
    {
        let remaining = (self.off as usize) % align;
        if remaining == 0 {
            proof {
                assert(self@.subrange(0, self@.len() as int) =~= self@);
            }
            return Ok(());
        }
        let pad = align - remaining;
        if pad > self.end - self.start {
            return Err(Error::new(ErrorKind::BufferUnderflow));
        }
        let ghost old_view = self@;
        self.start = self.start + pad;
        self.off = advance_off(self.off, pad);
        proof {
            assert(self@ =~= old_view.subrange(pad as int, old_view.len() as int));
        }
        Ok(())
    }

    /// Split off the first `at` bytes into a reader of their own.
    pub fn split(&mut self, at: usize) -> (r: Option<SliceBuf<'de>>)
        requires
            old(self).wf(),
        ensures
            final(self).wf(),
            r is Some <==> at <= old(self)@.len(),
            r matches Some(head) ==> {
                &&& head.wf()
                &&& head@ == old(self)@.subrange(0, at as int)
                &&& head.spec_off() == old(self).spec_off()
                &&& final(self)@ == old(self)@.subrange(at as int, old(self)@.len() as int)
                &&& final(self).spec_off() == (old(self).spec_off() + at) % 256
                &&& final(self).spec_start() == old(self).spec_start() + at
            },
            r is None ==> *final(self) == *old(self),
    {
        match self.split_at_checked(at) {
            Some((head, tail)) => {
                *self = tail;
                Some(head)
            },
            None => None,
        }
    }

    /// Copy the first `n` unread bytes without consuming them.
    pub fn peek_words_uninit(&self, n: usize) -> (r: Result<Vec<u8>, Error>)
        requires
            self.wf(),
        ensures
            r is Ok <==> n <= self@.len(),
            r matches Ok(v) ==> v@ == self@.subrange(0, n as int),
            r is Err ==> r == Err::<Vec<u8>, Error>((Error { kind: ErrorKind::BufferUnderflow })),
    {
        if n > self.end - self.start {
            return Err(Error::new(ErrorKind::BufferUnderflow));
        }
        let s = vstd::slice::slice_subrange(self.data, self.start, self.start + n);
        proof {
            assert(s@ =~= self@.subrange(0, n as int));
        }
        Ok(vstd::slice::slice_to_vec(s))
    }

    /// Copy the first `n` unread bytes out, consuming them.
    pub fn read_words_uninit(&mut self, n: usize) -> (r: Result<Vec<u8>, Error>)
        requires
            old(self).wf(),
        ensures
            final(self).wf(),
            r is Ok <==> n <= old(self)@.len(),
            r matches Ok(v) ==> v@ == old(self)@.subrange(0, n as int) && final(self)@
                == old(self)@.subrange(n as int, old(self)@.len() as int) && final(self).spec_off()
                == (old(self).spec_off() + n) % 256 && final(self).spec_start()
                == old(self).spec_start() + n,
            r is Err ==> *final(self) == *old(self),
    {
        let v = self.peek_words_uninit(n)?;
        let ghost old_view = self@;
        self.start = self.start + n;
        self.off = advance_off(self.off, n);
        proof {
            assert(self@ =~= old_view.subrange(n as int, old_view.len() as int));
        }
        Ok(v)
    }

    /// Borrow the first `len` unread bytes, consuming them.
    pub fn read_bytes(&mut self, len: usize) -> (r: Result<&'de [u8], Error>)
        requires
            old(self).wf(),
        ensures
            final(self).wf(),
            r is Ok <==> len <= old(self)@.len(),
            r matches Ok(v) ==> v@ == old(self)@.subrange(0, len as int) && final(self)@
                == old(self)@.subrange(len as int, old(self)@.len() as int) && final(self).spec_off()
                == (old(self).spec_off() + len) % 256 && final(self).spec_start()
                == old(self).spec_start() + len,
            r is Err ==> *final(self) == *old(self),
    {
        match self.split_at_checked(len) {
            Some((head, tail)) => {
                *self = tail;
                Ok(head.as_bytes())
            },
            None => Err(Error::new(ErrorKind::BufferUnderflow)),
        }
    }

    /// Take the unread bytes into a reader of their own, leaving this one
    /// empty.
    pub fn take_reader(&mut self) -> (taken: SliceBuf<'de>)
        requires
            old(self).wf(),
        ensures
            taken == *old(self),
            final(self).wf(),
            final(self)@ == Seq::<u8>::empty(),
            final(self).spec_off() == (old(self).spec_off() + old(self)@.len()) % 256,
    {
        let out = *self;
        let len = self.end - self.start;
        self.start = self.end;
        self.off = advance_off(self.off, len);
        out
    }

    /// A copy of the reader.
    pub fn as_reader(&self) -> (r: SliceBuf<'de>)
        ensures
            r == *self,
    {
        *self
    }
}

/// Advance an offset kept modulo 256 by `n` bytes.
fn advance_off(off: u8, n: usize) -> (r: u8)
    ensures
        r == (off as nat + n as nat) % 256,
{
    ((off as usize % 256 + n % 256) % 256) as u8
}

} // verus!
