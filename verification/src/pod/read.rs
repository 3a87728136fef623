use vstd::bytes::*;
use vstd::prelude::*;

use super::field::{
    decode_body, models, pad8, parse_field, parse_fields, parse_struct, u32_at, Field,
    FieldModel,
};
use super::packed::parse_array;
use super::ty::{ARRAY, BOOL, BYTES, ID, INT, LONG, NONE, STRUCT};
use crate::buf::SliceBuf;
use crate::error::{Error, ErrorKind};

verus! {

/// Read the header of a POD: its size and its type.
fn read_header<'de>(r: &mut SliceBuf<'de>) -> (res: Result<(u32, u32), Error>)
    requires
        old(r).wf(),
    ensures
        final(r).wf(),
        res is Ok <==> old(r)@.len() >= 8,
        res matches Ok((size, ty)) ==> {
            &&& size == u32_at(old(r)@, 0)
            &&& ty == u32_at(old(r)@, 4)
            &&& final(r)@ == old(r)@.subrange(8, old(r)@.len() as int)
            &&& final(r).spec_off() == (old(r).spec_off() + 8) % 256
        },
{
    let h = r.read_bytes(8)?;
    let a = vstd::slice::slice_subrange(h, 0, 4);
    let b = vstd::slice::slice_subrange(h, 4, 8);
    proof {
        assert(a@ =~= old(r)@.subrange(0, 4));
        assert(b@ =~= old(r)@.subrange(4, 8));
    }
    Ok((u32_from_le_bytes(a), u32_from_le_bytes(b)))
}

/// Decode the body of a POD of type `ty`.
fn read_body(ty: u32, body: &[u8]) -> (res: Result<Field, Error>)
    ensures
        res is Ok <==> decode_body(ty, body@) is Some,
        res matches Ok(f) ==> decode_body(ty, body@) == Some(f@),
{
    let len = body.len();
    if ty == NONE {
        if len == 0 {
            return Ok(Field::Null);
        }
        return Err(Error::new(ErrorKind::InvalidSize { size: len }));
    }
    if ty == BOOL || ty == ID || ty == INT {
        if len != 4 {
            return Err(Error::new(ErrorKind::InvalidSize { size: len }));
        }
        let v = u32_from_le_bytes(body);
        if ty == BOOL {
            return Ok(Field::Bool(v != 0));
        } else if ty == ID {
            return Ok(Field::Id(v));
        } else {
            return Ok(Field::Int(#[verifier::truncate] (v as i32)));
        }
    }
    if ty == LONG {
        if len != 8 {
            return Err(Error::new(ErrorKind::InvalidSize { size: len }));
        }
        let v = u64_from_le_bytes(body);
        return Ok(Field::Long(#[verifier::truncate] (v as i64)));
    }
    if ty == BYTES {
        return Ok(Field::Bytes(vstd::slice::slice_to_vec(body)));
    }
    Err(Error::new(ErrorKind::UnsupportedType { ty }))
}

/// Read one POD along with its padding.
fn read_field<'de>(r: &mut SliceBuf<'de>) -> (res: Result<Field, Error>)
    requires
        old(r).wf(),
        old(r).spec_off() % 8 == 0,
    ensures
        final(r).wf(),
        res is Ok <==> parse_field(old(r)@) is Some,
        res matches Ok(f) ==> {
            let (g, n) = parse_field(old(r)@).unwrap();
            &&& g == f@
            &&& final(r)@ == old(r)@.subrange(n as int, old(r)@.len() as int)
            &&& final(r).spec_off() % 8 == 0
        },
{
    let ghost s = r@;
    let ghost off = r.spec_off();
    let (size, ty) = read_header(r)?;
    let body = match r.split(size as usize) {
        Some(b) => b,
        None => {
            return Err(Error::new(ErrorKind::BufferUnderflow));
        },
    };
    proof {
        assert(r.spec_off() % 8 == (size as nat) % 8) by (nonlinear_arith)
            requires
                r.spec_off() == (((off + 8) % 256) + size as nat) % 256,
                off % 8 == 0,
        ;
    }
    let ghost moff = r.spec_off();
    r.unpad(8)?;
    let bytes = body.as_bytes();
    proof {
        assert(bytes@ =~= s.subrange(8, 8 + size as int));
        let p = pad8(size as nat);
        assert(r@ =~= s.subrange(8 + size + p, s.len() as int));
        assert(r.spec_off() % 8 == 0) by (nonlinear_arith)
            requires
                r.spec_off() == (moff + p) % 256,
                moff % 8 == (size as nat) % 8,
                p == pad8(size as nat),
        ;
    }
    read_body(ty, bytes)
}

/// Read a struct POD and its fields.
///
/// The reader must sit at an offset that is a multiple of eight from the
/// start of its slice, as every POD does. On success the reader has moved
/// past the struct and its padding.
pub fn read_struct<'de>(r: &mut SliceBuf<'de>) -> (res: Result<Vec<Field>, Error>)
    requires
        old(r).wf(),
        old(r).spec_off() % 8 == 0,
    ensures
        final(r).wf(),
        res is Ok <==> parse_struct(old(r)@) is Some,
        res matches Ok(v) ==> {
            let (fs, n) = parse_struct(old(r)@).unwrap();
            &&& models(v@) == fs
            &&& final(r)@ == old(r)@.subrange(n as int, old(r)@.len() as int)
            &&& final(r).spec_off() % 8 == 0
        },
{
    let ghost s = r@;
    let ghost off = r.spec_off();
    let (size, ty) = read_header(r)?;
    if ty != STRUCT {
        return Err(Error::new(ErrorKind::Expected { expected_type: STRUCT, actual_type: ty }));
    }
    let mut body = match r.split(size as usize) {
        Some(b) => b,
        None => {
            return Err(Error::new(ErrorKind::BufferUnderflow));
        },
    };
    proof {
        assert(r.spec_off() % 8 == (size as nat) % 8) by (nonlinear_arith)
            requires
                r.spec_off() == (((off + 8) % 256) + size as nat) % 256,
                off % 8 == 0,
        ;
        assert(body.spec_off() % 8 == 0) by (nonlinear_arith)
            requires
                body.spec_off() == (off + 8) % 256,
                off % 8 == 0,
        ;
    }
    let ghost moff = r.spec_off();
    r.unpad(8)?;
    proof {
        let p = pad8(size as nat);
        assert(r@ =~= s.subrange(8 + size + p, s.len() as int));
        assert(r.spec_off() % 8 == 0) by (nonlinear_arith)
            requires
                r.spec_off() == (moff + p) % 256,
                moff % 8 == (size as nat) % 8,
                p == pad8(size as nat),
        ;
        assert(body@ =~= s.subrange(8, 8 + size as int));
    }
    let ghost whole = body@;
    let ghost end: nat = 8 + size as nat + pad8(size as nat);
    proof {
        assert(u32_at(s, 0) == size && u32_at(s, 4) == ty);
        assert(parse_struct(s) == match parse_fields(whole) {
            Some(fs) => Some((fs, end)),
            None => None::<(Seq<FieldModel>, nat)>,
        });
    }
    let mut out: Vec<Field> = Vec::new();
    while !body.is_empty()
        invariant
            r.wf(),
            r@ == s.subrange(end as int, s.len() as int),
            r.spec_off() % 8 == 0,
            s == old(r)@,
            parse_struct(s) == match parse_fields(whole) {
                Some(fs) => Some((fs, end)),
                None => None::<(Seq<FieldModel>, nat)>,
            },
            body.wf(),
            body.spec_off() % 8 == 0,
            parse_fields(whole) == match parse_fields(body@) {
                Some(rest) => Some(models(out@) + rest),
                None => None::<Seq<FieldModel>>,
            },
        decreases body@.len(),
    {
        let ghost cur = body@;
        let ghost acc = out@;
        let f = match read_field(&mut body) {
            Ok(f) => f,
            Err(e) => {
                proof {
                    assert(parse_fields(cur) is None);
                }
                return Err(e);
            },
        };
        proof {
            let (g, n) = parse_field(cur).unwrap();
            assert(n >= 8);
            assert(0 < n <= cur.len());
        }
        out.push(f);
        proof {
            assert(models(out@) =~= models(acc) + seq![f@]);
            match parse_fields(body@) {
                Some(rest) => {
                    assert(models(acc) + (seq![f@] + rest) =~= models(out@) + rest);
                },
                None => {},
            }
        }
    }
    proof {
        assert(parse_fields(body@) == Some(Seq::<FieldModel>::empty()));
        assert(models(out@) + Seq::<FieldModel>::empty() =~= models(out@));
    }
    Ok(out)
}

/// Read an array POD: the size and type of its children and the bytes of
/// the children together.
///
/// The reader must sit at an offset that is a multiple of eight from the
/// start of its slice. A POD of another type is refused with `Expected`. On
/// success the reader has moved past the array and its padding.
pub fn read_array<'de>(r: &mut SliceBuf<'de>) -> (res: Result<(u32, u32, Vec<u8>), Error>)
    requires
        old(r).wf(),
        old(r).spec_off() % 8 == 0,
    ensures
        final(r).wf(),
        res is Ok <==> parse_array(old(r)@) is Some,
        res matches Ok((child_size, child_type, children)) ==> {
            let (cs, ct, bytes, n) = parse_array(old(r)@).unwrap();
            &&& child_size == cs
            &&& child_type == ct
            &&& children@ == bytes
            &&& final(r)@ == old(r)@.subrange(n as int, old(r)@.len() as int)
            &&& final(r).spec_off() % 8 == 0
        },
        old(r)@.len() >= 8 && u32_at(old(r)@, 4) != ARRAY ==> res == Err::<(u32, u32, Vec<u8>), Error>(
            (Error { kind: ErrorKind::Expected { expected_type: ARRAY, actual_type: u32_at(old(r)@, 4) } }),
        ),
{
    let ghost s = r@;
    let ghost off = r.spec_off();
    let (size, ty) = read_header(r)?;
    if ty != ARRAY {
        return Err(Error::new(ErrorKind::Expected { expected_type: ARRAY, actual_type: ty }));
    }
    if size < 8 {
        return Err(Error::new(ErrorKind::InvalidSize { size: size as usize }));
    }
    let body = match r.split(size as usize) {
        Some(b) => b,
        None => {
            return Err(Error::new(ErrorKind::BufferUnderflow));
        },
    };
    proof {
        assert(r.spec_off() % 8 == (size as nat) % 8) by (nonlinear_arith)
            requires
                r.spec_off() == (((off + 8) % 256) + size as nat) % 256,
                off % 8 == 0,
        ;
    }
    let ghost moff = r.spec_off();
    r.unpad(8)?;
    proof {
        let p = pad8(size as nat);
        assert(r@ =~= s.subrange(8 + size + p, s.len() as int));
        assert(r.spec_off() % 8 == 0) by (nonlinear_arith)
            requires
                r.spec_off() == (moff + p) % 256,
                moff % 8 == (size as nat) % 8,
                p == pad8(size as nat),
        ;
    }
    let bytes = body.as_bytes();
    let a = vstd::slice::slice_subrange(bytes, 0, 4);
    let b = vstd::slice::slice_subrange(bytes, 4, 8);
    let rest = vstd::slice::slice_subrange(bytes, 8, bytes.len());
    proof {
        assert(a@ =~= s.subrange(8, 12));
        assert(b@ =~= s.subrange(12, 16));
        assert(rest@ =~= s.subrange(16, 8 + size as int));
    }
    Ok((u32_from_le_bytes(a), u32_from_le_bytes(b), vstd::slice::slice_to_vec(rest)))
}

} // verus!
