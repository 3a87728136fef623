//! A stored position in a writer whose bytes are read later.

use vstd::prelude::*;

use super::array_buf::ArrayBuf;
use super::slice_buf::SliceBuf;
use crate::as_slice::{AsSlice, Sealed};
use crate::writer::Writer;

verus! {

/// A writer with a stored position: the bytes after the first `N` bytes
/// at that position are read later.
pub struct WriterSlice<W: Writer, const N: usize> {
    writer: W,
    pos: W::Pos,
}

impl<W: Writer, const N: usize> WriterSlice<W, N> {
    /// The writer.
    pub closed spec fn spec_writer(&self) -> W {
        self.writer
    }

    /// The stored position.
    pub closed spec fn spec_pos(&self) -> W::Pos {
        self.pos
    }

    /// Store `pos` with `writer`.
    pub fn new(writer: W, pos: W::Pos) -> (r: Self)
        ensures
            r.spec_writer() == writer,
            r.spec_pos() == pos,
    {
        WriterSlice { writer, pos }
    }

    /// The writer.
    pub fn writer(&self) -> (r: &W)
        ensures
            *r == self.spec_writer(),
    {
        &self.writer
    }

    /// Give the writer back.
    pub fn into_writer(self) -> (r: W)
        ensures
            r == self.spec_writer(),
    {
        self.writer
    }
}

impl<const M: usize, const N: usize> Sealed for WriterSlice<ArrayBuf<M>, N> {

}

impl<const M: usize, const N: usize> AsSlice for WriterSlice<ArrayBuf<M>, N> {
    open spec fn readable(&self) -> bool {
        true
    }

    /// The bytes written from `N` bytes after the stored position on.
    open spec fn slice_bytes(&self) -> Seq<u8> {
        let at = if self.spec_pos().spec_at() + N <= usize::MAX {
            self.spec_pos().spec_at() + N
        } else {
            usize::MAX as int
        };
        let bytes = self.spec_writer()@;
        if at <= bytes.len() {
            bytes.subrange(at, bytes.len() as int)
        } else {
            Seq::empty()
        }
    }

    fn as_slice(&self) -> (r: SliceBuf<'_>) {
        SliceBuf::new(self.writer.slice_from(self.pos.saturating_add(N)))
    }
}

} // verus!
