//! A fixed-size buffer of 32-bit words with separate read and write
//! positions.

use vstd::bytes::*;
use vstd::prelude::*;

use crate::bytes::{append_zeros, zeros};
use crate::error::{Error, ErrorKind};

verus! {

/// A buffer of at most `N` 32-bit words. Words are written at the end and
/// read from the front; the words between the two positions are the ones
/// that can still be read.
pub struct ArrayBuf<const N: usize> {
    data: Vec<u32>,
    read: usize,
}

/// A reserved position in an [`ArrayBuf`]: where it starts and how many
/// words it covers.
#[derive(Clone, Copy)]
pub struct Pos {
    write: usize,
    len: usize,
}

impl Pos {
    /// Where the position starts.
    pub closed spec fn spec_write(&self) -> nat {
        self.write as nat
    }

    /// How many words were reserved.
    pub closed spec fn spec_len(&self) -> nat {
        self.len as nat
    }
}

/// The words of `b`, four little-endian bytes each; `b` must hold a whole
/// number of words.
pub open spec fn pack_words(b: Seq<u8>) -> Seq<u32> {
    Seq::new(b.len() / 4, |k: int| spec_u32_from_le_bytes(b.subrange(4 * k, 4 * k + 4)))
}

/// The number of words `write_bytes` takes for `n` bytes: enough to hold
/// them, rounded up to an even number of words.
pub open spec fn padded_words(n: nat) -> nat {
    let w = (n + 3) / 4;
    if w % 2 == 0 {
        w
    } else {
        w + 1
    }
}

impl<const N: usize> ArrayBuf<N> {
    /// All words written so far, read or not.
    pub closed spec fn written(&self) -> Seq<u32> {
        self.data@
    }

    /// How many words have been read.
    pub closed spec fn read_pos(&self) -> nat {
        self.read as nat
    }

    /// The read position lies within the written words, which fit in `N`.
    pub closed spec fn wf(&self) -> bool {
        self.read <= self.data.len() <= N
    }

    /// The words that can still be read.
    pub open spec fn unread(&self) -> Seq<u32> {
        self.written().subrange(self.read_pos() as int, self.written().len() as int)
    }

    /// Construct an empty buffer.
    pub fn new() -> (b: Self)
        ensures
            b.wf(),
            b.written() == Seq::<u32>::empty(),
            b.read_pos() == 0,
    {
        ArrayBuf { data: Vec::new(), read: 0 }
    }

    /// Construct an empty buffer.
    pub fn with_size() -> (b: Self)
        ensures
            b.wf(),
            b.written() == Seq::<u32>::empty(),
            b.read_pos() == 0,
    {
        Self::new()
    }

    /// Construct a full buffer from an array of words.
    pub fn from_array(words: [u32; N]) -> (b: Self)
        ensures
            b.wf(),
            b.written() == words@,
            b.read_pos() == 0,
    {
        ArrayBuf { data: vstd::slice::slice_to_vec(words.as_slice()), read: 0 }
    }

    /// Construct a buffer holding `words`.
    pub fn from_slice(words: &[u32]) -> (b: Self)
        requires
            words@.len() <= N,
        ensures
            b.wf(),
            b.written() == words@,
            b.read_pos() == 0,
    {
        ArrayBuf { data: vstd::slice::slice_to_vec(words), read: 0 }
    }

    /// The number of words that can be read.
    pub fn read(&self) -> (n: usize)
        requires
            self.wf(),
        ensures
            n == self.unread().len(),
    {
        self.data.len() - self.read
    }

    /// The number of words that can still be written.
    pub fn write(&self) -> (n: usize)
        requires
            self.wf(),
        ensures
            n == N - self.written().len(),
    {
        N - self.data.len()
    }

    /// Reset the buffer to an empty state.
    pub fn clear(&mut self)
        ensures
            final(self).wf(),
            final(self).written() == Seq::<u32>::empty(),
            final(self).read_pos() == 0,
    {
        self.data.clear();
        self.read = 0;
    }

    /// Reset the read position so that all written words can be read again.
    pub fn clear_read(&mut self)
        requires
            old(self).wf(),
        ensures
            final(self).wf(),
            final(self).written() == old(self).written(),
            final(self).read_pos() == 0,
    {
        self.read = 0;
    }

    /// The words that can be read.
    pub fn as_slice(&self) -> (s: &[u32])
        requires
            self.wf(),
        ensures
            s@ == self.unread(),
    {
        vstd::slice::slice_subrange(self.data.as_slice(), self.read, self.data.len())
    }

    /// The words that can be read, as a slice.
    pub fn as_reader_slice(&self) -> (s: &[u32])
        requires
            self.wf(),
        ensures
            s@ == self.unread(),
    {
        self.as_slice()
    }

    /// Append `words` and return the position they were written at.
    pub fn reserve_words(&mut self, words: &[u32]) -> (r: Result<Pos, Error>)
        requires
            old(self).wf(),
        ensures
            final(self).wf(),
            final(self).read_pos() == old(self).read_pos(),
            r is Ok <==> old(self).written().len() + words@.len() <= N,
            r matches Ok(p) ==> final(self).written() == old(self).written() + words@
                && p.spec_write() == old(self).written().len() && p.spec_len() == words@.len(),
            r is Err ==> final(self).written() == old(self).written() && r == Err::<Pos, Error>(
                (Error { kind: ErrorKind::BufferOverflow }),
            ),
    {
        let write = self.data.len();
        self.write_words(words)?;
        Ok(Pos { write, len: words.len() })
    }

    /// The number of bytes written since `pos`.
    pub fn distance_from(&self, pos: Pos) -> (d: usize)
        requires
            self.wf(),
            pos.spec_write() <= self.written().len(),
            (self.written().len() - pos.spec_write()) * 4 <= usize::MAX,
        ensures
            d == (self.written().len() - pos.spec_write()) * 4,
    {
        (self.data.len() - pos.write) * 4
    }

    /// Append `words` zero words.
    pub fn write_zeros(&mut self, words: usize) -> (r: Result<(), Error>)
        requires
            old(self).wf(),
        ensures
            final(self).wf(),
            final(self).read_pos() == old(self).read_pos(),
            r is Ok <==> old(self).written().len() + words <= N,
            r is Ok ==> final(self).written() == old(self).written() + Seq::new(
                words as nat,
                |i: int| 0u32,
            ),
            r is Err ==> final(self).written() == old(self).written() && r == Err::<(), Error>(
                (Error { kind: ErrorKind::BufferOverflow }),
            ),
    {
        if words > N - self.data.len() {
            return Err(Error::new(ErrorKind::BufferOverflow));
        }
        let ghost start = self.data@;
        let ghost r0 = self.read;
        let mut i: usize = 0;
        while i < words
            invariant
                0 <= i <= words,
                self.read == r0,
                self.read <= start.len(),
                start.len() + words <= N,
                self.data@ == start + Seq::new(i as nat, |k: int| 0u32),
            decreases words - i,
        {
            self.data.push(0);
            proof {
                assert(Seq::new((i + 1) as nat, |k: int| 0u32) =~= Seq::new(i as nat, |k: int| 0u32).push(0));
            }
            i = i + 1;
        }
        Ok(())
    }

    /// Append `words`, failing with `BufferOverflow` without change if they
    /// do not fit.
    pub fn write_words(&mut self, words: &[u32]) -> (r: Result<(), Error>)
        requires
            old(self).wf(),
        ensures
            final(self).wf(),
            final(self).read_pos() == old(self).read_pos(),
            r is Ok <==> old(self).written().len() + words@.len() <= N,
            r is Ok ==> final(self).written() == old(self).written() + words@,
            r is Err ==> final(self).written() == old(self).written() && r == Err::<(), Error>(
                (Error { kind: ErrorKind::BufferOverflow }),
            ),
    {
        if words.len() > N - self.data.len() {
            return Err(Error::new(ErrorKind::BufferOverflow));
        }
        let ghost start = self.data@;
        let ghost r0 = self.read;
        let mut i: usize = 0;
        while i < words.len()
            invariant
                0 <= i <= words.len(),
                self.read == r0,
                self.read <= start.len(),
                start.len() + words@.len() <= N,
                self.data@ == start + words@.take(i as int),
            decreases words.len() - i,
        {
            self.data.push(words[i]);
            proof {
                assert(words@.take(i + 1) =~= words@.take(i as int).push(words@[i as int]));
            }
            i = i + 1;
        }
        proof {
            assert(words@.take(i as int) =~= words@);
        }
        Ok(())
    }

    /// Write `words` again at a reserved position, failing with
    /// `PositionSizeMismatch` if more words are given than were reserved.
    /// Words past the end of the written ones are not kept.
    pub fn write_words_at(&mut self, pos: Pos, words: &[u32]) -> (r: Result<(), Error>)
        requires
            old(self).wf(),
        ensures
            final(self).wf(),
            final(self).read_pos() == old(self).read_pos(),
            r is Ok <==> words@.len() <= pos.spec_len(),
            r is Ok ==> final(self).written() == Seq::new(
                old(self).written().len(),
                |i: int|
                    if pos.spec_write() <= i < pos.spec_write() + words@.len() {
                        words@[i - pos.spec_write()]
                    } else {
                        old(self).written()[i]
                    },
            ),
            r is Err ==> final(self).written() == old(self).written() && r == Err::<(), Error>(
                (
                Error {
                    kind: ErrorKind::PositionSizeMismatch {
                        expected: pos.spec_len() as usize,
                        actual: words@.len() as usize,
                    },
                }),
            ),
    {
        if pos.len < words.len() {
            return Err(
                Error::new(ErrorKind::PositionSizeMismatch { expected: pos.len, actual: words.len() }),
            );
        }
        let ghost old_data = self.data@;
        let len = self.data.len();
        let ghost r0 = self.read;
        let mut i: usize = 0;
        while i < words.len()
            invariant
                0 <= i <= words.len(),
                self.read == r0,
                self.data.len() == len,
                len == old_data.len(),
                self.read <= len <= N,
                forall|j: int|
                    0 <= j < len ==> #[trigger] self.data@[j] == if pos.write <= j < pos.write + i {
                        words@[j - pos.write]
                    } else {
                        old_data[j]
                    },
            decreases words.len() - i,
        {
            if pos.write as u128 + (i as u128) < len as u128 {
                self.data.set(pos.write + i, words[i]);
            }
            i = i + 1;
        }
        proof {
            assert(self.data@ =~= Seq::new(
                old_data.len(),
                |j: int|
                    if pos.write <= j < pos.write + words@.len() {
                        words@[j - pos.write]
                    } else {
                        old_data[j]
                    },
            ));
        }
        Ok(())
    }

    /// Append `bytes` packed into little-endian words, zero-filled up to an
    /// even number of words that holds `bytes` and `pad` more bytes.
    ///
    /// Fails with `SizeOverflow` if the byte count overflows, and with
    /// `BufferOverflow` without change if the words do not fit.
    pub fn write_bytes(&mut self, bytes: &[u8], pad: usize) -> (r: Result<(), Error>)
        requires
            old(self).wf(),
        ensures
            final(self).wf(),
            final(self).read_pos() == old(self).read_pos(),
            ({
                let full = bytes@.len() + pad;
                let req = padded_words(full as nat);
                &&& r is Ok <==> full <= usize::MAX && old(self).written().len() + req <= N && 4 * req
                    <= usize::MAX
                &&& r is Ok ==> final(self).written() == old(self).written() + pack_words(
                    bytes@ + zeros((4 * req - bytes@.len()) as nat),
                )
                &&& r is Err ==> final(self).written() == old(self).written()
                &&& full > usize::MAX ==> r == Err::<(), Error>(
                    (Error { kind: ErrorKind::SizeOverflow }),
                )
            }),
    {
        if pad > usize::MAX - bytes.len() {
            return Err(Error::new(ErrorKind::SizeOverflow));
        }
        let full = bytes.len() + pad;
        let w = full / 4 + if full % 4 == 0 {
            0
        } else {
            1
        };
        let req = if w % 2 == 0 {
            w
        } else {
            w + 1
        };
        proof {
            assert(w == (full as nat + 3) / 4);
        }
        if req > N - self.data.len() || req > usize::MAX / 4 {
            return Err(Error::new(ErrorKind::BufferOverflow));
        }
        let mut b = vstd::slice::slice_to_vec(bytes);
        append_zeros(&mut b, 4 * req - bytes.len());
        let ghost start = self.data@;
        let ghost packed = pack_words(b@);
        let ghost r0 = self.read;
        let mut k: usize = 0;
        while k < req
            invariant
                0 <= k <= req,
                4 * req <= usize::MAX,
                self.read == r0,
                b@.len() == 4 * req,
                packed == pack_words(b@),
                self.read <= start.len(),
                start.len() + req <= N,
                self.data@ == start + packed.take(k as int),
            decreases req - k,
        {
            let word = vstd::slice::slice_subrange(b.as_slice(), 4 * k, 4 * k + 4);
            self.data.push(u32_from_le_bytes(word));
            proof {
                assert(packed.take(k + 1) =~= packed.take(k as int).push(packed[k as int]));
            }
            k = k + 1;
        }
        proof {
            assert(packed.take(req as int) =~= packed);
        }
        Ok(())
    }

    /// Copy the first `n` readable words without consuming them.
    pub fn peek_words_uninit(&self, n: usize) -> (r: Result<Vec<u32>, Error>)
        requires
            self.wf(),
        ensures
            r is Ok <==> n <= self.unread().len(),
            r matches Ok(v) ==> v@ == self.unread().subrange(0, n as int),
            r is Err ==> r == Err::<Vec<u32>, Error>((Error { kind: ErrorKind::BufferUnderflow })),
    {
        if n > self.data.len() - self.read {
            return Err(Error::new(ErrorKind::BufferUnderflow));
        }
        let s = vstd::slice::slice_subrange(self.data.as_slice(), self.read, self.read + n);
        proof {
            assert(s@ =~= self.unread().subrange(0, n as int));
        }
        Ok(vstd::slice::slice_to_vec(s))
    }

    /// Copy the first `n` readable words out, consuming them.
    pub fn read_words_uninit(&mut self, n: usize) -> (r: Result<Vec<u32>, Error>)
        requires
            old(self).wf(),
        ensures
            final(self).wf(),
            final(self).written() == old(self).written(),
            r is Ok <==> n <= old(self).unread().len(),
            r matches Ok(v) ==> v@ == old(self).unread().subrange(0, n as int)
                && final(self).read_pos() == old(self).read_pos() + n,
            r is Err ==> final(self).read_pos() == old(self).read_pos(),
    {
        let v = self.peek_words_uninit(n)?;
        self.read = self.read + n;
        Ok(v)
    }
}

} // verus!
