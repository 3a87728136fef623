//! A fixed-size buffer of elements with a flexible write position.

use vstd::prelude::*;

use crate::bytes::{append_words, words_bytes, BytesInhabited};
use crate::error::{Error, ErrorKind};

verus! {

/// A buffer of at most `N` elements.
pub struct Buf<T, const N: usize> {
    data: Vec<T>,
}

/// A reserved position in a [`Buf`]: where it starts and how many elements
/// it covers.
#[derive(Clone, Copy)]
pub struct Pos {
    write: usize,
    len: usize,
}

impl Pos {
    /// Where the position starts.
    pub closed spec fn spec_write(&self) -> nat {
        self.write as nat
    }

    /// How many elements were reserved.
    pub closed spec fn spec_len(&self) -> nat {
        self.len as nat
    }
}

impl<T, const N: usize> View for Buf<T, N> {
    type V = Seq<T>;

    closed spec fn view(&self) -> Seq<T> {
        self.data@
    }
}

impl<T, const N: usize> Buf<T, N> {
    /// At most `N` elements are stored.
    pub closed spec fn wf(&self) -> bool {
        self.data.len() <= N
    }

    /// Construct an empty buffer.
    pub fn new() -> (b: Self)
        ensures
            b.wf(),
            b@ == Seq::<T>::empty(),
    {
        Buf { data: Vec::new() }
    }

    /// Push a value, failing with `BufferOverflow` if the buffer is full.
    pub fn push(&mut self, value: T) -> (r: Result<(), Error>)
        requires
            old(self).wf(),
        ensures
            final(self).wf(),
            old(self)@.len() < N ==> r is Ok && final(self)@ == old(self)@.push(value),
            old(self)@.len() >= N ==> r == Err::<(), Error>((Error { kind: ErrorKind::BufferOverflow }))
                && final(self)@ == old(self)@,
    {
        if self.data.len() >= N {
            return Err(Error::new(ErrorKind::BufferOverflow));
        }
        self.data.push(value);
        Ok(())
    }

    /// Remove and return the last value.
    pub fn pop(&mut self) -> (r: Option<T>)
        requires
            old(self).wf(),
        ensures
            final(self).wf(),
            old(self)@.len() == 0 ==> r is None && final(self)@ == old(self)@,
            old(self)@.len() > 0 ==> r == Some(old(self)@.last()) && final(self)@
                == old(self)@.drop_last(),
    {
        self.data.pop()
    }

    /// Construct a full buffer from an array.
    pub fn from_array(words: [T; N]) -> (b: Self)
        where
            T: Copy,
        ensures
            b.wf(),
            b@ == words@,
    {
        Buf { data: vstd::slice::slice_to_vec(words.as_slice()) }
    }

    /// Construct a buffer holding the elements of `words`.
    pub fn from_slice(words: &[T]) -> (b: Self)
        where
            T: Copy,
        requires
            words@.len() <= N,
        ensures
            b.wf(),
            b@ == words@,
    {
        Buf { data: vstd::slice::slice_to_vec(words) }
    }

    /// The number of stored elements.
    pub fn len(&self) -> (n: usize)
        ensures
            n == self@.len(),
    {
        self.data.len()
    }

    /// Whether no elements are stored.
    pub fn is_empty(&self) -> (b: bool)
        ensures
            b == (self@.len() == 0),
    {
        self.data.len() == 0
    }

    /// The capacity of the buffer.
    pub fn capacity(&self) -> (n: usize)
        ensures
            n == N,
    {
        N
    }

    /// Remove all elements.
    pub fn clear(&mut self)
        ensures
            final(self).wf(),
            final(self)@ == Seq::<T>::empty(),
    {
        self.data.clear();
    }

    /// The bytes of the stored elements.
    pub fn as_bytes(&self) -> (b: Vec<u8>)
        where
            T: BytesInhabited,
        ensures
            b@ == words_bytes(self@),
    {
        let mut out = Vec::new();
        append_words(&mut out, self.data.as_slice());
        out
    }

    /// The stored elements.
    pub fn as_slice(&self) -> (s: &[T])
        ensures
            s@ == self@,
    {
        self.data.as_slice()
    }

    /// The stored elements, mutably.
    pub fn as_slice_mut(&mut self) -> (s: &mut [T])
        ensures
            s@ == old(self)@,
            final(self)@ == final(s)@,
    {
        self.data.as_mut_slice()
    }

    /// Append `words` and return the position they were written at.
    pub fn reserve_words(&mut self, words: &[T]) -> (r: Result<Pos, Error>)
        where
            T: Copy,
        requires
            old(self).wf(),
        ensures
            final(self).wf(),
            r is Ok <==> old(self)@.len() + words@.len() <= N,
            r matches Ok(p) ==> final(self)@ == old(self)@ + words@ && p.spec_write()
                == old(self)@.len() && p.spec_len() == words@.len(),
            r is Err ==> final(self)@ == old(self)@ && r == Err::<Pos, Error>(
                (Error { kind: ErrorKind::BufferOverflow }),
            ),
    {
        let write = self.data.len();
        self.write_words(words)?;
        Ok(Pos { write, len: words.len() })
    }

    /// The number of bytes written since `pos`.
    pub fn distance_from(&self, pos: Pos) -> (d: usize)
        where
            T: BytesInhabited,
        requires
            pos.spec_write() <= self@.len(),
            (self@.len() - pos.spec_write()) * T::spec_size() <= usize::MAX,
        ensures
            d == (self@.len() - pos.spec_write()) * T::spec_size(),
    {
        (self.data.len() - pos.write) * T::size()
    }

    /// Append `words`, failing with `BufferOverflow` without change if they
    /// do not fit.
    pub fn write_words(&mut self, words: &[T]) -> (r: Result<(), Error>)
        where
            T: Copy,
        requires
            old(self).wf(),
        ensures
            final(self).wf(),
            r is Ok <==> old(self)@.len() + words@.len() <= N,
            r is Ok ==> final(self)@ == old(self)@ + words@,
            r is Err ==> final(self)@ == old(self)@ && r == Err::<(), Error>(
                (Error { kind: ErrorKind::BufferOverflow }),
            ),
    {
        if words.len() > N - self.data.len() {
            return Err(Error::new(ErrorKind::BufferOverflow));
        }
        let ghost start = self.data@;
        let mut i: usize = 0;
        while i < words.len()
            invariant
                0 <= i <= words.len(),
                start.len() + words@.len() <= N,
                self.data@ == start + words@.take(i as int),
            decreases words.len() - i,
        {
            self.data.push(words[i]);
            proof {
                assert(words@.take(i + 1) =~= words@.take(i as int).push(words@[i as int]));
            }
            i = i + 1;
        }
        proof {
            assert(words@.take(i as int) =~= words@);
        }
        Ok(())
    }

    /// Write `words` again at a reserved position, failing with
    /// `ReservedSizeMismatch` if more words are given than were reserved.
    /// Elements past the end of the stored ones are not kept.
    pub fn write_words_at(&mut self, pos: Pos, words: &[T]) -> (r: Result<(), Error>)
        where
            T: Copy,
        requires
            old(self).wf(),
        ensures
            final(self).wf(),
            r is Ok <==> words@.len() <= pos.spec_len(),
            r is Ok ==> final(self)@ == Seq::new(
                old(self)@.len(),
                |i: int|
                    if pos.spec_write() <= i < pos.spec_write() + words@.len() {
                        words@[i - pos.spec_write()]
                    } else {
                        old(self)@[i]
                    },
            ),
            r is Err ==> final(self)@ == old(self)@ && r == Err::<(), Error>(
                (
                Error {
                    kind: ErrorKind::ReservedSizeMismatch {
                        expected: pos.spec_len() as usize,
                        actual: words@.len() as usize,
                    },
                }),
            ),
    {
        if pos.len < words.len() {
            return Err(
                Error::new(ErrorKind::ReservedSizeMismatch { expected: pos.len, actual: words.len() }),
            );
        }
        let ghost old_data = self.data@;
        let len = self.data.len();
        let mut i: usize = 0;
        while i < words.len()
            invariant
                0 <= i <= words.len(),
                self.data.len() == len,
                len == old_data.len(),
                len <= N,
                forall|j: int|
                    0 <= j < len ==> #[trigger] self.data@[j] == if pos.write <= j < pos.write + i {
                        words@[j - pos.write]
                    } else {
                        old_data[j]
                    },
            decreases words.len() - i,
        {
            if pos.write as u128 + (i as u128) < len as u128 {
                self.data.set(pos.write + i, words[i]);
            }
            i = i + 1;
        }
        proof {
            assert(self.data@ =~= Seq::new(
                old_data.len(),
                |j: int|
                    if pos.write <= j < pos.write + words@.len() {
                        words@[j - pos.write]
                    } else {
                        old_data[j]
                    },
            ));
        }
        Ok(())
    }
}

} // verus!
