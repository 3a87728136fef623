//! The kinds of PODs a builder writes: a free-standing POD, a child of an
//! array or choice, a property of an object, or a control of a sequence.

use vstd::prelude::*;

use super::ty::Type;
use crate::bytes::words_bytes;
use crate::error::{Error, ErrorKind};
use crate::writer::Writer;

verus! {

/// Only the kinds of this module are kinds of PODs.
pub trait Sealed {

}

/// How a POD of some kind is framed and what it may hold.
pub trait PodKind: Sealed + Sized {
    /// Whether the POD carries its own header.
    spec fn spec_envelope(&self) -> bool;

    /// The words written before the POD.
    spec fn spec_header(&self) -> Seq<u32>;

    /// Whether a POD of type `ty` and size `size` may be written, and the
    /// error if not.
    spec fn spec_check(&self, ty: u32, size: usize) -> Result<(), Error>;

    /// Whether the POD carries its own header.
    fn is_envelope(&self) -> (r: bool)
        ensures
            r == self.spec_envelope(),
    ;

    /// Write the words that come before the POD.
    fn header<W: Writer>(&self, buf: &mut W) -> (r: Result<(), Error>)
        requires
            old(buf).wf(),
        ensures
            final(buf).wf(),
            final(buf).limit() == old(buf).limit(),
            r is Ok <==> old(buf).bytes().len() + words_bytes(self.spec_header()).len() <= old(
                buf,
            ).limit(),
            r is Ok ==> final(buf).bytes() == old(buf).bytes() + words_bytes(self.spec_header()),
            r is Err ==> final(buf).bytes() == old(buf).bytes(),
    ;

    /// Check that a POD of type `ty` and size `size` may be written.
    fn check(&self, ty: Type, size: usize) -> (r: Result<(), Error>)
        ensures
            r == self.spec_check(ty.0, size),
    ;

    /// The size of the POD whose header was reserved at `header` and whose
    /// body was written since, checked against the kind; the size must fit
    /// in a `u32`.
    fn check_size<W: Writer>(&self, ty: Type, writer: &W, header: W::Pos) -> (r: Result<
        u32,
        Error,
    >)
        requires
            writer.wf(),
            W::pos_at(header) + 8 <= writer.bytes().len(),
        ensures
            ({
                let size = (writer.bytes().len() - W::pos_at(header) - 8) as usize;
                match self.spec_check(ty.0, size) {
                    Err(e) => r == Err::<u32, Error>(e),
                    Ok(_) => if size > u32::MAX {
                        r == Err::<u32, Error>((Error { kind: ErrorKind::SizeOverflow }))
                    } else {
                        r == Ok::<u32, Error>(size as u32)
                    },
                }
            }),
    {
        let size = writer.distance_from(&header) - 8;
        match self.check(ty, size) {
            Err(e) => Err(e),
            Ok(()) => {
                if size > u32::MAX as usize {
                    Err(Error::new(ErrorKind::SizeOverflow))
                } else {
                    Ok(size as u32)
                }
            },
        }
    }
}

/// Write no words: always fits.
fn write_nothing<W: Writer>(buf: &W)
    requires
        buf.wf(),
    ensures
        buf.bytes().len() + words_bytes(Seq::<u32>::empty()).len() <= buf.limit(),
        buf.bytes() + words_bytes(Seq::<u32>::empty()) == buf.bytes(),
{
    proof {
        buf.lemma_within_limit();
        assert(words_bytes(Seq::<u32>::empty()) == Seq::<u8>::empty());
        assert(buf.bytes() + Seq::<u8>::empty() =~= buf.bytes());
    }
}

/// A free-standing POD, with its own header and no limit.
#[derive(Debug, Clone, Copy)]
pub struct EnvelopePod;

impl Sealed for EnvelopePod {

}

impl PodKind for EnvelopePod {
    open spec fn spec_envelope(&self) -> bool {
        true
    }

    open spec fn spec_header(&self) -> Seq<u32> {
        Seq::empty()
    }

    open spec fn spec_check(&self, ty: u32, size: usize) -> Result<(), Error> {
        Ok(())
    }

    fn is_envelope(&self) -> (r: bool) {
        true
    }

    fn header<W: Writer>(&self, buf: &mut W) -> (r: Result<(), Error>) {
        write_nothing(buf);
        Ok(())
    }

    fn check(&self, ty: Type, size: usize) -> (r: Result<(), Error>) {
        Ok(())
    }
}

/// A child of an array or a choice: no header of its own, of one type and
/// at most one size.
#[derive(Debug, Clone, Copy)]
pub struct ChildPod {
    /// The largest size a child may have.
    pub size: usize,
    /// The type every child has.
    pub ty: Type,
    /// Whether each child is padded to eight bytes.
    pub padded: bool,
}

impl Sealed for ChildPod {

}

impl PodKind for ChildPod {
    open spec fn spec_envelope(&self) -> bool {
        false
    }

    open spec fn spec_header(&self) -> Seq<u32> {
        Seq::empty()
    }

    open spec fn spec_check(&self, ty: u32, size: usize) -> Result<(), Error> {
        if self.ty.0 != ty {
            Err(Error { kind: ErrorKind::Expected { expected_type: self.ty.0, actual_type: ty } })
        } else if size > self.size {
            Err(Error { kind: ErrorKind::ChildSizeMismatch { expected: self.size, actual: size } })
        } else {
            Ok(())
        }
    }

    fn is_envelope(&self) -> (r: bool) {
        false
    }

    fn header<W: Writer>(&self, buf: &mut W) -> (r: Result<(), Error>) {
        write_nothing(buf);
        Ok(())
    }

    fn check(&self, ty: Type, size: usize) -> (r: Result<(), Error>) {
        if self.ty.0 != ty.0 {
            return Err(Error::new(ErrorKind::Expected { expected_type: self.ty.0, actual_type: ty.0 }));
        }
        if size > self.size {
            return Err(Error::new(ErrorKind::ChildSizeMismatch { expected: self.size, actual: size }));
        }
        Ok(())
    }
}

/// A property of an object: its key and flags, then a POD with its own
/// header.
#[derive(Debug, Clone, Copy)]
pub struct PropertyChild {
    key: u32,
    flags: u32,
}

impl PropertyChild {
    /// The key of the property.
    pub closed spec fn spec_key(&self) -> u32 {
        self.key
    }

    /// The flags of the property.
    pub closed spec fn spec_flags(&self) -> u32 {
        self.flags
    }

    /// A property of `key` without flags.
    pub fn new(key: u32) -> (r: Self)
        ensures
            r.spec_key() == key,
            r.spec_flags() == 0,
    {
        PropertyChild { key, flags: 0 }
    }

    /// Change the flags of the property.
    pub fn flags(self, flags: u32) -> (r: Self)
        ensures
            r.spec_key() == self.spec_key(),
            r.spec_flags() == flags,
    {
        PropertyChild { key: self.key, flags }
    }
}

impl Sealed for PropertyChild {

}

impl PodKind for PropertyChild {
    open spec fn spec_envelope(&self) -> bool {
        true
    }

    open spec fn spec_header(&self) -> Seq<u32> {
        seq![self.spec_key(), self.spec_flags()]
    }

    open spec fn spec_check(&self, ty: u32, size: usize) -> Result<(), Error> {
        Ok(())
    }

    fn is_envelope(&self) -> (r: bool) {
        true
    }

    fn header<W: Writer>(&self, buf: &mut W) -> (r: Result<(), Error>) {
        let words = [self.key, self.flags];
        assert(words@ == seq![self.key, self.flags]);
        buf.write(&words)
    }

    fn check(&self, ty: Type, size: usize) -> (r: Result<(), Error>) {
        Ok(())
    }
}

/// A control of a sequence: its offset and type, then a POD with its own
/// header.
#[derive(Debug, Clone, Copy)]
pub struct ControlChild {
    offset: u32,
    ty: u32,
}

impl ControlChild {
    /// The offset of the control.
    pub closed spec fn spec_offset(&self) -> u32 {
        self.offset
    }

    /// The type of the control.
    pub closed spec fn spec_ty(&self) -> u32 {
        self.ty
    }

    /// A control at offset zero of type zero.
    pub fn new() -> (r: Self)
        ensures
            r.spec_offset() == 0,
            r.spec_ty() == 0,
    {
        ControlChild { offset: 0, ty: 0 }
    }

    /// Change the offset of the control.
    pub fn offset(self, offset: u32) -> (r: Self)
        ensures
            r.spec_offset() == offset,
            r.spec_ty() == self.spec_ty(),
    {
        ControlChild { offset, ty: self.ty }
    }

    /// Change the type of the control.
    pub fn ty(self, ty: u32) -> (r: Self)
        ensures
            r.spec_offset() == self.spec_offset(),
            r.spec_ty() == ty,
    {
        ControlChild { offset: self.offset, ty }
    }
}

impl Sealed for ControlChild {

}

impl PodKind for ControlChild {
    open spec fn spec_envelope(&self) -> bool {
        true
    }

    open spec fn spec_header(&self) -> Seq<u32> {
        seq![self.spec_offset(), self.spec_ty()]
    }

    open spec fn spec_check(&self, ty: u32, size: usize) -> Result<(), Error> {
        Ok(())
    }

    fn is_envelope(&self) -> (r: bool) {
        true
    }

    fn header<W: Writer>(&self, buf: &mut W) -> (r: Result<(), Error>) {
        let words = [self.offset, self.ty];
        assert(words@ == seq![self.offset, self.ty]);
        buf.write(&words)
    }

    fn check(&self, ty: Type, size: usize) -> (r: Result<(), Error>) {
        Ok(())
    }
}

} // verus!
