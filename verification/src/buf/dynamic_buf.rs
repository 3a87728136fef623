use vstd::prelude::*;

use crate::bytes::{append_words, append_zeros, words_bytes, zeros, BytesInhabited};
use crate::error::{Error, ErrorKind};
use crate::writer::{overwrite, pad_len, Writer};

verus! {

/// An allocation error has occured when trying to reserve space in a [`DynamicBuf`].
#[derive(Debug, Clone, Copy, PartialEq, Eq)]
pub struct AllocError;

/// The largest size that a [`DynamicBuf`] grows to: its allocations are
/// powers of two, and none may exceed `isize::MAX` bytes.
pub open spec fn spec_dynamic_limit() -> nat {
    ((isize::MAX as nat) + 1) / 2
}

/// The largest size that a [`DynamicBuf`] grows to.
pub fn dynamic_limit() -> (n: usize)
    ensures
        n == spec_dynamic_limit(),
{
    (isize::MAX as usize) / 2 + 1
}

/// A growable byte buffer.
pub struct DynamicBuf {
    data: Vec<u8>,
    cap: usize,
}

impl View for DynamicBuf {
    type V = Seq<u8>;

    closed spec fn view(&self) -> Seq<u8> {
        self.data@
    }
}

/// A position in a [`DynamicBuf`] that was reserved to be written later.
#[derive(Clone, Copy)]
pub struct Pos {
    at: usize,
    len: usize,
}

impl Pos {
    /// Where the position starts.
    pub closed spec fn spec_at(&self) -> nat {
        self.at as nat
    }

    /// How many bytes were reserved.
    pub closed spec fn spec_len(&self) -> nat {
        self.len as nat
    }
}

impl DynamicBuf {
    /// The stored bytes fit in the reserved capacity, which never exceeds
    /// `isize::MAX` bytes.
    pub closed spec fn wf(&self) -> bool {
        &&& self.data.len() <= self.cap
        &&& self.cap <= isize::MAX
    }

    /// The number of bytes that the buffer can hold without failing to grow.
    pub closed spec fn spec_limit(&self) -> nat {
        if self.cap > spec_dynamic_limit() {
            self.cap as nat
        } else {
            spec_dynamic_limit()
        }
    }

    /// Construct an empty buffer.
    pub fn new() -> (b: Self)
        ensures
            b.wf(),
            b@ == Seq::<u8>::empty(),
            b.spec_limit() == spec_dynamic_limit(),
    {
        DynamicBuf { data: Vec::new(), cap: 0 }
    }

    /// Construct a buffer holding a copy of `data`.
    pub fn from_slice(data: &[u8]) -> (r: Result<Self, AllocError>)
        ensures
            r is Ok <==> data@.len() <= isize::MAX - 7,
            r matches Ok(b) ==> b.wf() && b@ == data@ && b.spec_limit() >= data@.len(),
    {
        // The allocation is aligned to 8 bytes, so its size is rounded up to
        // a multiple of 8, which must fit in `isize`.
        if data.len() > (isize::MAX as usize) - 7 {
            return Err(AllocError);
        }
        let v = vstd::slice::slice_to_vec(data);
        Ok(DynamicBuf { data: v, cap: data.len() })
    }

    /// The number of bytes stored.
    pub fn len(&self) -> (n: usize)
        ensures
            n == self@.len(),
    {
        self.data.len()
    }

    /// Whether no bytes are stored.
    pub fn is_empty(&self) -> (b: bool)
        ensures
            b == (self@.len() == 0),
    {
        self.data.len() == 0
    }

    /// Remove all bytes, keeping the reserved capacity.
    pub fn clear(&mut self)
        requires
            old(self).wf(),
        ensures
            final(self).wf(),
            final(self)@ == Seq::<u8>::empty(),
            final(self).spec_limit() == old(self).spec_limit(),
    {
        self.data.clear();
    }

    /// The stored bytes.
    pub fn as_bytes(&self) -> (s: &[u8])
        ensures
            s@ == self@,
    {
        self.data.as_slice()
    }

    /// The stored bytes, mutably.
    pub fn as_bytes_mut(&mut self) -> (s: &mut [u8])
        ensures
            s@ == old(self)@,
            final(self)@ == final(s)@,
    {
        self.data.as_mut_slice()
    }

    /// Ensure that `needed` bytes can be held, growing the capacity to the
    /// next power of two (at least 16) when it is exceeded.
    fn reserve(&mut self, needed: usize) -> (r: Result<(), AllocError>)
        requires
            old(self).wf(),
        ensures
            final(self).wf(),
            final(self)@ == old(self)@,
            final(self).spec_limit() == old(self).spec_limit(),
            r is Ok <==> needed <= old(self).spec_limit(),
            r is Ok ==> needed <= final(self).cap,
            needed <= old(self).cap ==> final(self).cap == old(self).cap,
            r is Err ==> final(self).cap == old(self).cap,
            needed > old(self).cap && r is Ok ==> final(self).cap >= 16 && (final(self).cap == 16
                || final(self).cap / 2 < needed),
    {
        if needed <= self.cap {
            return Ok(());
        }
        let limit = dynamic_limit();
        if needed > limit {
            return Err(AllocError);
        }
        let mut cap: usize = 16;
        while cap < needed
            invariant
                16 <= cap <= limit,
                needed <= limit,
                limit == spec_dynamic_limit(),
                cap == 16 || cap / 2 < needed,
            decreases limit - cap,
        {
            cap = if cap <= limit / 2 {
                cap * 2
            } else {
                limit
            };
        }
        self.data.reserve(cap - self.data.len());
        self.cap = cap;
        Ok(())
    }

    /// Append the bytes of `words`.
    pub fn extend_from_words<T: BytesInhabited>(&mut self, words: &[T]) -> (r: Result<
        (),
        AllocError,
    >)
        requires
            old(self).wf(),
            words@.len() * T::spec_size() <= isize::MAX,
        ensures
            final(self).wf(),
            final(self).spec_limit() == old(self).spec_limit(),
            r is Ok <==> old(self)@.len() + words@.len() * T::spec_size() <= old(self).spec_limit(),
            r is Ok ==> final(self)@ == old(self)@ + words_bytes(words@),
            r is Err ==> final(self)@ == old(self)@,
    {
        proof {
            crate::bytes::lemma_words_bytes_len(words@);
        }
        let n = words.len() * T::size();
        self.reserve(self.data.len() + n)?;
        append_words(&mut self.data, words);
        Ok(())
    }

    /// Take all stored bytes out, leaving the buffer empty.
    pub fn take_reader(&mut self) -> (taken: Vec<u8>)
        requires
            old(self).wf(),
        ensures
            taken@ == old(self)@,
            final(self)@ == Seq::<u8>::empty(),
            final(self).wf(),
            final(self).spec_limit() == old(self).spec_limit(),
    {
        let mut out = Vec::new();
        std::mem::swap(&mut out, &mut self.data);
        out
    }
}

impl Writer for DynamicBuf {
    type Pos = Pos;

    open spec fn bytes(&self) -> Seq<u8> {
        self@
    }

    open spec fn limit(&self) -> nat {
        self.spec_limit()
    }

    open spec fn wf(&self) -> bool {
        self.wf()
    }

    open spec fn pos_at(pos: Pos) -> nat {
        pos.spec_at()
    }

    open spec fn pos_len(pos: Pos) -> nat {
        pos.spec_len()
    }

    proof fn lemma_within_limit(&self) {
    }

    fn reserve<T: BytesInhabited>(&mut self, words: &[T]) -> (r: Result<Pos, Error>) {
        proof {
            crate::bytes::lemma_words_bytes_len(words@);
        }
        let at = self.data.len();
        let n = words.len() * T::size();
        match self.extend_from_words(words) {
            Ok(()) => Ok(Pos { at, len: n }),
            Err(_) => Err(Error::new(ErrorKind::AllocError)),
        }
    }

    fn distance_from(&self, pos: &Pos) -> (d: usize) {
        self.data.len() - pos.at
    }

    fn write<T: BytesInhabited>(&mut self, words: &[T]) -> (r: Result<(), Error>) {
        proof {
            crate::bytes::lemma_words_bytes_len(words@);
        }
        match self.extend_from_words(words) {
            Ok(()) => Ok(()),
            Err(_) => Err(Error::new(ErrorKind::AllocError)),
        }
    }

    fn write_at<T: BytesInhabited>(&mut self, pos: Pos, words: &[T]) -> (r: Result<(), Error>)
        ensures
            pos.spec_len() < words_bytes(words@).len() ==> r == Err::<(), Error>(
                (Error {
                    kind: ErrorKind::ReservedSizeMismatch {
                        expected: pos.spec_len() as usize,
                        actual: words_bytes(words@).len() as usize,
                    },
                }),
            ),
            pos.spec_len() >= words_bytes(words@).len() && pos.spec_at() + pos.spec_len() > old(
                self,
            )@.len() ==> r == Err::<(), Error>(
                (Error {
                    kind: ErrorKind::ReservedOverflow {
                        write: pos.spec_at() as usize,
                        len: pos.spec_len() as usize,
                        capacity: old(self)@.len() as usize,
                    },
                }),
            ),
            final(self).spec_limit() == old(self).spec_limit(),
    {
        proof {
            crate::bytes::lemma_words_bytes_len(words@);
        }
        let n = words.len() * T::size();
        if pos.len < n {
            return Err(
                Error::new(ErrorKind::ReservedSizeMismatch { expected: pos.len, actual: n }),
            );
        }
        let len = self.data.len();
        if pos.at > len || pos.len > len - pos.at {
            return Err(
                Error::new(
                    ErrorKind::ReservedOverflow { write: pos.at, len: pos.len, capacity: len },
                ),
            );
        }
        let mut b: Vec<u8> = Vec::new();
        append_words(&mut b, words);
        let ghost old_data = self.data@;
        let ghost old_cap = self.cap;
        let mut i: usize = 0;
        while i < b.len()
            invariant
                0 <= i <= b.len(),
                self.cap == old_cap,
                b.len() == n,
                n <= pos.len,
                pos.at + pos.len <= len,
                self.data.len() == len,
                len == old_data.len(),
                len <= self.cap,
                self.cap <= isize::MAX,
                b@ == words_bytes(words@),
                forall|j: int|
                    0 <= j < len ==> #[trigger] self.data@[j] == if pos.at <= j < pos.at + i {
                        b@[j - pos.at]
                    } else {
                        old_data[j]
                    },
            decreases b.len() - i,
        {
            self.data.set(pos.at + i, b[i]);
            i = i + 1;
        }
        proof {
            assert(self.data@ =~= overwrite(old_data, pos.at as int, words_bytes(words@)));
        }
        Ok(())
    }

    fn write_bytes(&mut self, bytes: &[u8], pad: usize) -> (r: Result<(), Error>) {
        let n = bytes.len() + pad;
        let len = self.data.len();
        if n > usize::MAX - len {
            return Err(Error::new(ErrorKind::CapacityError));
        }
        if self.reserve(len + n).is_err() {
            return Err(Error::new(ErrorKind::AllocError));
        }
        let mut v = vstd::slice::slice_to_vec(bytes);
        self.data.append(&mut v);
        append_zeros(&mut self.data, pad);
        Ok(())
    }

    fn pad(&mut self, align: usize) -> (r: Result<(), Error>) {
        let remaining = self.data.len() % align;
        if remaining == 0 {
            proof {
                assert(self.data@ + zeros(0) =~= self.data@);
            }
            return Ok(());
        }
        let pad = align - remaining;
        let new_len = self.data.len() + pad;
        if self.reserve(new_len).is_err() {
            return Err(Error::new(ErrorKind::AllocError));
        }
        append_zeros(&mut self.data, pad);
        Ok(())
    }
}

} // verus!
