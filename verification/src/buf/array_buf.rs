use vstd::prelude::*;

use super::CapacityError;
use crate::bytes::{append_words, append_zeros, words_bytes, zeros, BytesInhabited};
use crate::error::{Error, ErrorKind};
use crate::writer::{overwrite, pad_len, Writer};

verus! {

/// A byte buffer with a fixed capacity of `N` bytes.
pub struct ArrayBuf<const N: usize> {
    data: Vec<u8>,
}

impl<const N: usize> View for ArrayBuf<N> {
    type V = Seq<u8>;

    closed spec fn view(&self) -> Seq<u8> {
        self.data@
    }
}

/// A position in an [`ArrayBuf`] that was reserved to be written later.
#[derive(Clone, Copy)]
pub struct ArrayBufPos {
    at: usize,
    len: usize,
}

impl ArrayBufPos {
    /// Where the position starts.
    pub closed spec fn spec_at(&self) -> nat {
        self.at as nat
    }

    /// How many bytes were reserved.
    pub closed spec fn spec_len(&self) -> nat {
        self.len as nat
    }

    /// Move the position forward by `other` bytes, shrinking what remains of it.
    pub fn saturating_add(self, other: usize) -> (p: Self)
        ensures
            p.spec_at() == if self.spec_at() + other <= usize::MAX {
                self.spec_at() + other
            } else {
                usize::MAX as int
            },
            p.spec_len() == if self.spec_len() >= other {
                (self.spec_len() - other) as nat
            } else {
                0
            },
    {
        ArrayBufPos { at: self.at.saturating_add(other), len: self.len.saturating_sub(other) }
    }
}

impl<const N: usize> ArrayBuf<N> {
    /// At most `N` bytes are stored.
    pub closed spec fn wf(&self) -> bool {
        self.data.len() <= N
    }

    /// Construct an empty buffer.
    pub fn new() -> (b: Self)
        ensures
            b.wf(),
            b@ == Seq::<u8>::empty(),
    {
        ArrayBuf { data: Vec::new() }
    }

    /// Append the bytes of `words`, failing if they do not fit.
    pub fn extend_from_words<T: BytesInhabited>(&mut self, words: &[T]) -> (r: Result<
        (),
        CapacityError,
    >)
        requires
            old(self).wf(),
            words@.len() * T::spec_size() <= isize::MAX,
        ensures
            final(self).wf(),
            r is Ok <==> old(self)@.len() + words@.len() * T::spec_size() <= N,
            r is Ok ==> final(self)@ == old(self)@ + words_bytes(words@),
            r is Err ==> final(self)@ == old(self)@,
    {
        proof {
            crate::bytes::lemma_words_bytes_len(words@);
        }
        let size = T::size();
        let n = words.len() * size;
        let len = self.data.len();
        if n > N || len > N - n {
            return Err(CapacityError);
        }
        append_words(&mut self.data, words);
        Ok(())
    }

    /// Construct a buffer holding the bytes of `words`.
    pub fn from_slice<T: BytesInhabited>(words: &[T]) -> (r: Result<Self, CapacityError>)
        requires
            words@.len() * T::spec_size() <= isize::MAX,
        ensures
            r is Ok <==> words@.len() * T::spec_size() <= N,
            r matches Ok(b) ==> b.wf() && b@ == words_bytes(words@),
    {
        let mut buf = Self::new();
        buf.extend_from_words(words)?;
        Ok(buf)
    }

    /// The number of bytes stored.
    pub fn len(&self) -> (n: usize)
        ensures
            n == self@.len(),
    {
        self.data.len()
    }

    /// Whether no bytes are stored.
    pub fn is_empty(&self) -> (b: bool)
        ensures
            b == (self@.len() == 0),
    {
        self.data.len() == 0
    }

    /// The capacity of the buffer in bytes.
    pub fn capacity(&self) -> (n: usize)
        ensures
            n == N,
    {
        N
    }

    /// Remove all bytes.
    pub fn clear(&mut self)
        ensures
            final(self).wf(),
            final(self)@ == Seq::<u8>::empty(),
    {
        self.data.clear();
    }

    /// The stored bytes.
    pub fn as_bytes(&self) -> (s: &[u8])
        ensures
            s@ == self@,
    {
        self.data.as_slice()
    }

    /// The stored bytes, mutably.
    pub fn as_bytes_mut(&mut self) -> (s: &mut [u8])
        ensures
            s@ == old(self)@,
            final(self)@ == final(s)@,
    {
        self.data.as_mut_slice()
    }

    /// Take all stored bytes out, leaving the buffer empty.
    pub fn take_reader(&mut self) -> (taken: Vec<u8>)
        ensures
            taken@ == old(self)@,
            final(self)@ == Seq::<u8>::empty(),
            final(self).wf(),
    {
        let mut out = Vec::new();
        std::mem::swap(&mut out, &mut self.data);
        out
    }

    /// The bytes written from `pos` on; empty if `pos` lies past the end.
    pub fn slice_from(&self, pos: ArrayBufPos) -> (s: &[u8])
        ensures
            pos.spec_at() <= self@.len() ==> s@ == self@.subrange(pos.spec_at() as int, self@.len() as int),
            pos.spec_at() > self@.len() ==> s@ == Seq::<u8>::empty(),
    {
        let at = if pos.at < self.data.len() { pos.at } else { self.data.len() };
        vstd::slice::slice_subrange(self.data.as_slice(), at, self.data.len())
    }
}

impl<const N: usize> Writer for ArrayBuf<N> {
    type Pos = ArrayBufPos;

    open spec fn bytes(&self) -> Seq<u8> {
        self@
    }

    open spec fn limit(&self) -> nat {
        N as nat
    }

    open spec fn wf(&self) -> bool {
        self.wf()
    }

    open spec fn pos_at(pos: ArrayBufPos) -> nat {
        pos.spec_at()
    }

    open spec fn pos_len(pos: ArrayBufPos) -> nat {
        pos.spec_len()
    }

    proof fn lemma_within_limit(&self) {
    }

    fn reserve<T: BytesInhabited>(&mut self, words: &[T]) -> (r: Result<ArrayBufPos, Error>) {
        proof {
            crate::bytes::lemma_words_bytes_len(words@);
        }
        let at = self.data.len();
        let n = words.len() * T::size();
        match self.extend_from_words(words) {
            Ok(()) => Ok(ArrayBufPos { at, len: n }),
            Err(_) => Err(Error::new(ErrorKind::CapacityError)),
        }
    }

    fn distance_from(&self, pos: &ArrayBufPos) -> (d: usize) {
        self.data.len() - pos.at
    }

    fn write<T: BytesInhabited>(&mut self, words: &[T]) -> (r: Result<(), Error>) {
        proof {
            crate::bytes::lemma_words_bytes_len(words@);
        }
        match self.extend_from_words(words) {
            Ok(()) => Ok(()),
            Err(_) => Err(Error::new(ErrorKind::CapacityError)),
        }
    }

    fn write_at<T: BytesInhabited>(&mut self, pos: ArrayBufPos, words: &[T]) -> (r: Result<
        (),
        Error,
    >)
        ensures
            r is Ok <==> pos.spec_len() >= words@.len() && pos.spec_at() + words@.len() <= N,
            pos.spec_len() < words@.len() ==> r == Err::<(), Error>(
                (Error {
                    kind: ErrorKind::ReservedSizeMismatch {
                        expected: pos.spec_len() as usize,
                        actual: words@.len() as usize,
                    },
                }),
            ),
            pos.spec_len() >= words@.len() && pos.spec_at() + words@.len() > N ==> r == Err::<
                (),
                Error,
            >((Error { kind: ErrorKind::CapacityError })),
    {
        let _size = T::size();
        proof {
            crate::bytes::lemma_words_bytes_len(words@);
            assert(words@.len() * T::spec_size() >= words@.len()) by (nonlinear_arith)
                requires
                    T::spec_size() > 0,
            ;
        }
        if pos.len < words.len() {
            return Err(
                Error::new(ErrorKind::ReservedSizeMismatch { expected: pos.len, actual: words.len() }),
            );
        }
        if words.len() > N || pos.at > N - words.len() {
            return Err(Error::new(ErrorKind::CapacityError));
        }
        let mut b: Vec<u8> = Vec::new();
        append_words(&mut b, words);
        let ghost old_data = self.data@;
        let len = self.data.len();
        let mut i: usize = 0;
        while i < b.len()
            invariant
                0 <= i <= b.len(),
                self.data.len() == len,
                len == old_data.len(),
                len <= N,
                b@ == words_bytes(words@),
                forall|j: int|
                    0 <= j < len ==> #[trigger] self.data@[j] == if pos.at <= j < pos.at + i {
                        b@[j - pos.at]
                    } else {
                        old_data[j]
                    },
            decreases b.len() - i,
        {
            if pos.at as u128 + (i as u128) < len as u128 {
                self.data.set(pos.at + i, b[i]);
            }
            i = i + 1;
        }
        proof {
            assert(self.data@ =~= overwrite(old_data, pos.at as int, words_bytes(words@)));
        }
        Ok(())
    }

    fn write_bytes(&mut self, bytes: &[u8], pad: usize) -> (r: Result<(), Error>) {
        let n = bytes.len() + pad;
        if n > N || self.data.len() > N - n {
            return Err(Error::new(ErrorKind::CapacityError));
        }
        let mut v = vstd::slice::slice_to_vec(bytes);
        self.data.append(&mut v);
        append_zeros(&mut self.data, pad);
        Ok(())
    }

    fn pad(&mut self, align: usize) -> (r: Result<(), Error>) {
        let remaining = self.data.len() % align;
        if remaining == 0 {
            proof {
                assert(self.data@ + zeros(0) =~= self.data@);
            }
            return Ok(());
        }
        let pad = align - remaining;
        let new_len = self.data.len() + pad;
        if new_len > N {
            return Err(Error::new(ErrorKind::CapacityError));
        }
        append_zeros(&mut self.data, pad);
        Ok(())
    }
}

} // verus!
