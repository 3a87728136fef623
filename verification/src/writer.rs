//! The interface of buffers that PODs are written into.

use vstd::prelude::*;

use crate::bytes::{words_bytes, zeros, BytesInhabited};
use crate::error::Error;

verus! {

/// `s` with the bytes of `b` written from position `at` on; bytes that would
/// land past the end of `s` are dropped.
pub open spec fn overwrite(s: Seq<u8>, at: int, b: Seq<u8>) -> Seq<u8> {
    Seq::new(s.len(), |i: int| if at <= i < at + b.len() { b[i - at] } else { s[i] })
}

/// The padding needed to bring `len` up to a multiple of `align`.
pub open spec fn pad_len(len: nat, align: nat) -> nat
    recommends
        align > 0,
{
    if len % align == 0 {
        0
    } else {
        (align - len % align) as nat
    }
}

/// A buffer that bytes are appended to, with positions that can be written
/// again later.
pub trait Writer: Sized {
    /// A position in the buffer, reserved by [`Writer::reserve`].
    type Pos: Copy;

    /// The bytes written so far.
    spec fn bytes(&self) -> Seq<u8>;

    /// The largest number of bytes the buffer can hold.
    spec fn limit(&self) -> nat;

    /// The buffer's internal invariant.
    spec fn wf(&self) -> bool;

    /// Where a position starts.
    spec fn pos_at(pos: Self::Pos) -> nat;

    /// How many bytes were reserved at a position.
    spec fn pos_len(pos: Self::Pos) -> nat;

    /// A well-formed buffer holds no more than its limit.
    proof fn lemma_within_limit(&self)
        requires
            self.wf(),
        ensures
            self.bytes().len() <= self.limit(),
    ;

    /// Append `words` and return the position where they were written.
    fn reserve<T: BytesInhabited>(&mut self, words: &[T]) -> (r: Result<Self::Pos, Error>)
        requires
            old(self).wf(),
            words@.len() * T::spec_size() <= isize::MAX,
        ensures
            final(self).wf(),
            final(self).limit() == old(self).limit(),
            r is Ok <==> old(self).bytes().len() + words_bytes(words@).len() <= old(self).limit(),
            r matches Ok(p) ==> {
                &&& final(self).bytes() == old(self).bytes() + words_bytes(words@)
                &&& Self::pos_at(p) == old(self).bytes().len()
                &&& Self::pos_len(p) == words_bytes(words@).len()
            },
            r is Err ==> final(self).bytes() == old(self).bytes(),
    ;

    /// The number of bytes written since `pos`.
    fn distance_from(&self, pos: &Self::Pos) -> (d: usize)
        requires
            self.wf(),
            Self::pos_at(*pos) <= self.bytes().len(),
        ensures
            d == self.bytes().len() - Self::pos_at(*pos),
    ;

    /// Append `words`.
    fn write<T: BytesInhabited>(&mut self, words: &[T]) -> (r: Result<(), Error>)
        requires
            old(self).wf(),
            words@.len() * T::spec_size() <= isize::MAX,
        ensures
            final(self).wf(),
            final(self).limit() == old(self).limit(),
            r is Ok <==> old(self).bytes().len() + words_bytes(words@).len() <= old(self).limit(),
            r is Ok ==> final(self).bytes() == old(self).bytes() + words_bytes(words@),
            r is Err ==> final(self).bytes() == old(self).bytes(),
    ;

    /// Write `words` again at a reserved position. Succeeds when they fit
    /// in what was reserved there and the position lies within the written
    /// bytes; fails only when they take more bytes than were reserved or the
    /// reservation reaches past the written bytes. Each buffer states which
    /// error it gives.
    fn write_at<T: BytesInhabited>(&mut self, pos: Self::Pos, words: &[T]) -> (r: Result<(), Error>)
        requires
            old(self).wf(),
            words@.len() * T::spec_size() <= isize::MAX,
        ensures
            final(self).wf(),
            final(self).limit() == old(self).limit(),
            ({
                let b = words_bytes(words@);
                Self::pos_len(pos) >= b.len() && Self::pos_at(pos) + Self::pos_len(pos)
                    <= old(self).bytes().len() ==> r is Ok
            }),
            r is Ok ==> final(self).bytes() == overwrite(
                old(self).bytes(),
                Self::pos_at(pos) as int,
                words_bytes(words@),
            ),
            r is Err ==> final(self).bytes() == old(self).bytes(),
            r is Err ==> Self::pos_len(pos) < words_bytes(words@).len() || Self::pos_at(pos)
                + Self::pos_len(pos) > old(self).bytes().len(),
    ;

    /// Append `bytes` followed by `pad` zero bytes.
    fn write_bytes(&mut self, bytes: &[u8], pad: usize) -> (r: Result<(), Error>)
        requires
            old(self).wf(),
            bytes@.len() + pad <= usize::MAX,
        ensures
            final(self).wf(),
            final(self).limit() == old(self).limit(),
            r is Ok <==> old(self).bytes().len() + bytes@.len() + pad <= old(self).limit(),
            r is Ok ==> final(self).bytes() == old(self).bytes() + bytes@ + zeros(pad as nat),
            r is Err ==> final(self).bytes() == old(self).bytes(),
    ;

    /// Append zero bytes until the length is a multiple of `align`.
    fn pad(&mut self, align: usize) -> (r: Result<(), Error>)
        requires
            old(self).wf(),
            align > 0,
            old(self).bytes().len() + align <= usize::MAX,
        ensures
            final(self).wf(),
            final(self).limit() == old(self).limit(),
            r is Ok <==> old(self).bytes().len() + pad_len(old(self).bytes().len(), align as nat)
                <= old(self).limit(),
            r is Ok ==> final(self).bytes() == old(self).bytes() + zeros(
                pad_len(old(self).bytes().len(), align as nat),
            ),
            r is Err ==> final(self).bytes() == old(self).bytes(),
    ;
}

} // verus!
