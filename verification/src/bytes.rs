//! Plain values that are laid out as a sequence of bytes.

use vstd::bytes::*;
use vstd::prelude::*;

verus! {

/// A value whose memory consists of plain bytes, in little-endian order.
pub trait BytesInhabited: Copy + Sized {
    /// The bytes of the value.
    spec fn spec_le_bytes(self) -> Seq<u8>;

    /// The size of the value in bytes.
    spec fn spec_size() -> nat;

    /// The size of the value in bytes.
    fn size() -> (n: usize)
        ensures
            n == Self::spec_size(),
            n > 0,
    ;

    /// Append the bytes of the value to `out`.
    fn append_le_bytes(&self, out: &mut Vec<u8>)
        ensures
            final(out)@ == old(out)@ + self.spec_le_bytes(),
    ;

    /// Every value has exactly `spec_size()` bytes.
    proof fn lemma_size(self)
        ensures
            self.spec_le_bytes().len() == Self::spec_size(),
            Self::spec_size() > 0,
    ;
}

impl BytesInhabited for u8 {
    open spec fn spec_le_bytes(self) -> Seq<u8> {
        seq![self]
    }

    open spec fn spec_size() -> nat {
        1
    }

    fn size() -> (n: usize) {
        1
    }

    fn append_le_bytes(&self, out: &mut Vec<u8>) {
        out.push(*self);
    }

    proof fn lemma_size(self) {
    }
}

impl BytesInhabited for u16 {
    open spec fn spec_le_bytes(self) -> Seq<u8> {
        spec_u16_to_le_bytes(self)
    }

    open spec fn spec_size() -> nat {
        2
    }

    fn size() -> (n: usize) {
        2
    }

    fn append_le_bytes(&self, out: &mut Vec<u8>) {
        proof {
            lemma_auto_spec_u16_to_from_le_bytes();
        }
        let mut b = u16_to_le_bytes(*self);
        out.append(&mut b);
    }

    proof fn lemma_size(self) {
        lemma_auto_spec_u16_to_from_le_bytes();
    }
}

impl BytesInhabited for u32 {
    open spec fn spec_le_bytes(self) -> Seq<u8> {
        spec_u32_to_le_bytes(self)
    }

    open spec fn spec_size() -> nat {
        4
    }

    fn size() -> (n: usize) {
        4
    }

    fn append_le_bytes(&self, out: &mut Vec<u8>) {
        let mut b = u32_to_le_bytes(*self);
        out.append(&mut b);
    }

    proof fn lemma_size(self) {
        lemma_auto_spec_u32_to_from_le_bytes();
    }
}

impl BytesInhabited for u64 {
    open spec fn spec_le_bytes(self) -> Seq<u8> {
        spec_u64_to_le_bytes(self)
    }

    open spec fn spec_size() -> nat {
        8
    }

    fn size() -> (n: usize) {
        8
    }

    fn append_le_bytes(&self, out: &mut Vec<u8>) {
        let mut b = u64_to_le_bytes(*self);
        out.append(&mut b);
    }

    proof fn lemma_size(self) {
        lemma_auto_spec_u64_to_from_le_bytes();
    }
}

/// The bytes of a sequence of values, one after the other.
pub open spec fn words_bytes<T: BytesInhabited>(words: Seq<T>) -> Seq<u8>
    decreases words.len(),
{
    if words.len() == 0 {
        Seq::empty()
    } else {
        words_bytes(words.drop_last()) + words.last().spec_le_bytes()
    }
}

/// The bytes of a sequence of values are `spec_size()` bytes per value.
pub proof fn lemma_words_bytes_len<T: BytesInhabited>(words: Seq<T>)
    ensures
        words_bytes(words).len() == words.len() * T::spec_size(),
    decreases words.len(),
{
    if words.len() > 0 {
        lemma_words_bytes_len(words.drop_last());
        words.last().lemma_size();
        assert(words.len() * T::spec_size() == (words.len() - 1) * T::spec_size() + T::spec_size())
            by (nonlinear_arith);
    }
}

/// A run of `n` zero bytes.
pub open spec fn zeros(n: nat) -> Seq<u8> {
    Seq::new(n, |i: int| 0u8)
}

/// Append the bytes of all `words` to `out`.
pub fn append_words<T: BytesInhabited>(out: &mut Vec<u8>, words: &[T])
    ensures
        final(out)@ == old(out)@ + words_bytes(words@),
{
    let ghost start = out@;
    let mut i: usize = 0;
    while i < words.len()
        invariant
            0 <= i <= words.len(),
            out@ == start + words_bytes(words@.take(i as int)),
        decreases words.len() - i,
    {
        let w = words[i];
        w.append_le_bytes(out);
        proof {
            assert(words@.take(i + 1).drop_last() == words@.take(i as int));
            assert(words@.take(i + 1).last() == w);
        }
        i = i + 1;
    }
    proof {
        assert(words@.take(i as int) == words@);
    }
}

/// Append `n` zero bytes to `out`.
pub fn append_zeros(out: &mut Vec<u8>, n: usize)
    ensures
        final(out)@ == old(out)@ + zeros(n as nat),
{
    let ghost start = out@;
    let mut i: usize = 0;
    while i < n
        invariant
            0 <= i <= n,
            out@ == start + zeros(i as nat),
        decreases n - i,
    {
        out.push(0u8);
        proof {
            assert(zeros((i + 1) as nat) == zeros(i as nat).push(0u8));
        }
        i = i + 1;
    }
}

} // verus!
