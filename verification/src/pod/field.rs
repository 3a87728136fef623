use vstd::bytes::*;
use vstd::prelude::*;

use super::ty::{BOOL, BYTES, ID, INT, LONG, NONE, STRUCT};
use crate::bytes::zeros;

verus! {

/// A value stored in a field of a struct POD.
#[derive(Debug, Clone, PartialEq, Eq)]
pub enum Field {
    /// A POD without a value.
    Null,
    /// A boolean.
    Bool(bool),
    /// An identifier.
    Id(u32),
    /// A signed 32-bit integer.
    Int(i32),
    /// A signed 64-bit integer.
    Long(i64),
    /// A sequence of bytes.
    Bytes(Vec<u8>),
}

/// The mathematical value of a [`Field`].
pub enum FieldModel {
    Null,
    Bool(bool),
    Id(u32),
    Int(i32),
    Long(i64),
    Bytes(Seq<u8>),
}

impl View for Field {
    type V = FieldModel;

    open spec fn view(&self) -> FieldModel {
        match self {
            Field::Null => FieldModel::Null,
            Field::Bool(b) => FieldModel::Bool(*b),
            Field::Id(v) => FieldModel::Id(*v),
            Field::Int(v) => FieldModel::Int(*v),
            Field::Long(v) => FieldModel::Long(*v),
            Field::Bytes(b) => FieldModel::Bytes(b@),
        }
    }
}

/// The models of a sequence of fields.
pub open spec fn models(fields: Seq<Field>) -> Seq<FieldModel> {
    fields.map_values(|f: Field| f@)
}

/// The little-endian bytes of a `u32`.
pub open spec fn le32(x: u32) -> Seq<u8> {
    spec_u32_to_le_bytes(x)
}

/// The header of a POD: its size, then its type.
pub open spec fn header(size: u32, ty: u32) -> Seq<u8> {
    le32(size) + le32(ty)
}

/// The padding after `n` bytes that brings them to a multiple of eight.
pub open spec fn pad8(n: nat) -> nat {
    if n % 8 == 0 {
        0
    } else {
        (8 - n % 8) as nat
    }
}

/// Whether a field can be encoded: the size of its body fits in a `u32`.
pub open spec fn field_fits(f: FieldModel) -> bool {
    match f {
        FieldModel::Bytes(b) => b.len() <= u32::MAX && b.len() + 8 <= usize::MAX,
        _ => true,
    }
}

/// The encoding of a field: header, body, and zero padding.
pub open spec fn encode_field(f: FieldModel) -> Seq<u8> {
    match f {
        FieldModel::Null => header(0, NONE),
        FieldModel::Bool(b) => header(4, BOOL) + le32(if b { 1u32 } else { 0u32 }) + le32(0),
        FieldModel::Id(v) => header(4, ID) + le32(v) + le32(0),
        FieldModel::Int(v) => header(4, INT) + le32(v as u32) + le32(0),
        FieldModel::Long(v) => header(8, LONG) + spec_u64_to_le_bytes(v as u64),
        FieldModel::Bytes(b) => header(b.len() as u32, BYTES) + b + zeros(pad8(b.len())),
    }
}

/// The encoding of fields, one after the other.
pub open spec fn encode_fields(fs: Seq<FieldModel>) -> Seq<u8>
    decreases fs.len(),
{
    if fs.len() == 0 {
        Seq::empty()
    } else {
        encode_field(fs[0]) + encode_fields(fs.drop_first())
    }
}

/// Whether every field can be encoded and their encoding fits in the size
/// of a struct header.
pub open spec fn fields_fit(fs: Seq<FieldModel>) -> bool {
    &&& forall|i: int| 0 <= i < fs.len() ==> #[trigger] field_fits(fs[i])
    &&& encode_fields(fs).len() <= u32::MAX
}

/// The encoding of a struct POD holding `fs`.
pub open spec fn encode_struct(fs: Seq<FieldModel>) -> Seq<u8> {
    header(encode_fields(fs).len() as u32, STRUCT) + encode_fields(fs)
}

/// The little-endian `u32` at position `at` of `s`.
pub open spec fn u32_at(s: Seq<u8>, at: int) -> u32 {
    spec_u32_from_le_bytes(s.subrange(at, at + 4))
}

/// Decode the body of a POD of type `ty`.
pub open spec fn decode_body(ty: u32, body: Seq<u8>) -> Option<FieldModel> {
    if ty == NONE && body.len() == 0 {
        Some(FieldModel::Null)
    } else if ty == BOOL && body.len() == 4 {
        Some(FieldModel::Bool(spec_u32_from_le_bytes(body) != 0))
    } else if ty == ID && body.len() == 4 {
        Some(FieldModel::Id(spec_u32_from_le_bytes(body)))
    } else if ty == INT && body.len() == 4 {
        Some(FieldModel::Int(spec_u32_from_le_bytes(body) as i32))
    } else if ty == LONG && body.len() == 8 {
        Some(FieldModel::Long(spec_u64_from_le_bytes(body) as i64))
    } else if ty == BYTES {
        Some(FieldModel::Bytes(body))
    } else {
        None
    }
}

/// Decode one POD from the start of `s`, returning it and the number of
/// bytes it takes up with its padding.
pub open spec fn parse_field(s: Seq<u8>) -> Option<(FieldModel, nat)> {
    if s.len() < 8 {
        None
    } else {
        let size = u32_at(s, 0) as nat;
        let ty = u32_at(s, 4);
        let end = 8 + size + pad8(size);
        if end > s.len() {
            None
        } else {
            match decode_body(ty, s.subrange(8, 8 + size as int)) {
                Some(f) => Some((f, end)),
                None => None,
            }
        }
    }
}

/// Decode PODs until `s` is used up.
pub open spec fn parse_fields(s: Seq<u8>) -> Option<Seq<FieldModel>>
    decreases s.len(),
{
    if s.len() == 0 {
        Some(Seq::empty())
    } else {
        match parse_field(s) {
            Some((f, n)) => if 0 < n <= s.len() {
                match parse_fields(s.subrange(n as int, s.len() as int)) {
                    Some(rest) => Some(seq![f] + rest),
                    None => None,
                }
            } else {
                None
            },
            None => None,
        }
    }
}

/// Decode a struct POD from the start of `s`, returning its fields and the
/// number of bytes it takes up with its padding.
pub open spec fn parse_struct(s: Seq<u8>) -> Option<(Seq<FieldModel>, nat)> {
    if s.len() < 8 {
        None
    } else {
        let size = u32_at(s, 0) as nat;
        let ty = u32_at(s, 4);
        let end = 8 + size + pad8(size);
        if ty != STRUCT || end > s.len() {
            None
        } else {
            match parse_fields(s.subrange(8, 8 + size as int)) {
                Some(fs) => Some((fs, end)),
                None => None,
            }
        }
    }
}

/// The length of the encoding of a field.
pub proof fn lemma_encode_field_len(f: FieldModel)
    requires
        field_fits(f),
    ensures
        encode_field(f).len() == 8 + body_len(f) + pad8(body_len(f)),
        encode_field(f).len() % 8 == 0,
{
    lemma_auto_spec_u32_to_from_le_bytes();
    lemma_auto_spec_u64_to_from_le_bytes();
}

/// The size of the body of a field.
pub open spec fn body_len(f: FieldModel) -> nat {
    match f {
        FieldModel::Null => 0,
        FieldModel::Bool(_) | FieldModel::Id(_) | FieldModel::Int(_) => 4,
        FieldModel::Long(_) => 8,
        FieldModel::Bytes(b) => b.len(),
    }
}

/// The length of the encoding of fields is a multiple of eight.
#[verifier::spinoff_prover]
pub proof fn lemma_encode_fields_len(fs: Seq<FieldModel>)
    requires
        forall|i: int| 0 <= i < fs.len() ==> #[trigger] field_fits(fs[i]),
    ensures
        encode_fields(fs).len() % 8 == 0,
    decreases fs.len(),
{
    if fs.len() > 0 {
        let rest = fs.drop_first();
        assert forall|i: int| 0 <= i < rest.len() implies #[trigger] field_fits(rest[i]) by {
            assert(rest[i] == fs[i + 1]);
        }
        lemma_encode_fields_len(rest);
        assert(field_fits(fs[0]));
        lemma_encode_field_len(fs[0]);
        let a = encode_field(fs[0]).len();
        let b = encode_fields(rest).len();
        assert(encode_fields(fs).len() == a + b);
        assert((a + b) % 8 == 0) by (nonlinear_arith)
            requires
                a % 8 == 0,
                b % 8 == 0,
        ;
    }
}

/// Encoding one more field appends its encoding.
pub proof fn lemma_encode_fields_push(fs: Seq<FieldModel>, f: FieldModel)
    ensures
        encode_fields(fs.push(f)) == encode_fields(fs) + encode_field(f),
    decreases fs.len(),
{
    if fs.len() == 0 {
        assert(fs.push(f).drop_first() =~= Seq::<FieldModel>::empty());
        assert(encode_fields(fs.push(f).drop_first()) == Seq::<u8>::empty());
        assert(fs.push(f)[0] == f);
        assert(encode_fields(fs) == Seq::<u8>::empty());
        assert(encode_fields(fs.push(f)) =~= encode_field(f) + Seq::<u8>::empty());
    } else {
        assert(fs.push(f).drop_first() =~= fs.drop_first().push(f));
        lemma_encode_fields_push(fs.drop_first(), f);
        assert(fs.push(f)[0] == fs[0]);
        assert(encode_fields(fs.push(f)) =~= encode_field(fs[0]) + (encode_fields(fs.drop_first())
            + encode_field(f)));
    }
}

/// Encoding two runs of fields one after the other is encoding their
/// concatenation.
pub proof fn lemma_encode_fields_append(a: Seq<FieldModel>, b: Seq<FieldModel>)
    ensures
        encode_fields(a + b) == encode_fields(a) + encode_fields(b),
    decreases a.len(),
{
    if a.len() == 0 {
        assert(a + b =~= b);
        assert(encode_fields(a) + encode_fields(b) =~= encode_fields(b));
    } else {
        assert((a + b).drop_first() =~= a.drop_first() + b);
        assert((a + b)[0] == a[0]);
        lemma_encode_fields_append(a.drop_first(), b);
        assert(encode_fields(a + b) =~= encode_field(a[0]) + (encode_fields(a.drop_first())
            + encode_fields(b)));
    }
}

/// Decoding the encoding of a field, followed by anything, gives the field
/// back along with the length of its encoding.
pub proof fn lemma_field_roundtrip(f: FieldModel, rest: Seq<u8>)
    requires
        field_fits(f),
    ensures
        parse_field(encode_field(f) + rest) == Some((f, encode_field(f).len())),
{
    lemma_auto_spec_u32_to_from_le_bytes();
    lemma_auto_spec_u64_to_from_le_bytes();
    lemma_encode_field_len(f);
    let s = encode_field(f) + rest;
    let n = body_len(f);
    match f {
        FieldModel::Null => {
            assert(s.subrange(0, 4) =~= le32(0));
            assert(s.subrange(4, 8) =~= le32(NONE));
            assert(s.subrange(8, 8) =~= Seq::<u8>::empty());
        },
        FieldModel::Bool(b) => {
            let v = if b { 1u32 } else { 0u32 };
            assert(s.subrange(0, 4) =~= le32(4));
            assert(s.subrange(4, 8) =~= le32(BOOL));
            assert(s.subrange(8, 12) =~= le32(v));
        },
        FieldModel::Id(v) => {
            assert(s.subrange(0, 4) =~= le32(4));
            assert(s.subrange(4, 8) =~= le32(ID));
            assert(s.subrange(8, 12) =~= le32(v));
        },
        FieldModel::Int(v) => {
            assert(s.subrange(0, 4) =~= le32(4));
            assert(s.subrange(4, 8) =~= le32(INT));
            assert(s.subrange(8, 12) =~= le32(v as u32));
            assert((v as u32) as i32 == v) by (bit_vector);
        },
        FieldModel::Long(v) => {
            assert(s.subrange(0, 4) =~= le32(8));
            assert(s.subrange(4, 8) =~= le32(LONG));
            assert(s.subrange(8, 16) =~= spec_u64_to_le_bytes(v as u64));
            assert((v as u64) as i64 == v) by (bit_vector);
        },
        FieldModel::Bytes(b) => {
            assert(s.subrange(0, 4) =~= le32(b.len() as u32));
            assert(s.subrange(4, 8) =~= le32(BYTES));
            assert(s.subrange(8, 8 + b.len() as int) =~= b);
        },
    }
}

/// Decoding the encoding of fields gives the fields back.
pub proof fn lemma_fields_roundtrip(fs: Seq<FieldModel>)
    requires
        forall|i: int| 0 <= i < fs.len() ==> #[trigger] field_fits(fs[i]),
    ensures
        parse_fields(encode_fields(fs)) == Some(fs),
    decreases fs.len(),
{
    if fs.len() > 0 {
        let f = fs[0];
        let tail = fs.drop_first();
        assert(field_fits(f));
        assert forall|i: int| 0 <= i < tail.len() implies #[trigger] field_fits(tail[i]) by {
            assert(tail[i] == fs[i + 1]);
        }
        lemma_fields_roundtrip(tail);
        lemma_field_roundtrip(f, encode_fields(tail));
        lemma_encode_field_len(f);
        let s = encode_fields(fs);
        assert(s == encode_field(f) + encode_fields(tail));
        assert(s.subrange(encode_field(f).len() as int, s.len() as int) =~= encode_fields(tail));
        assert(seq![f] + tail =~= fs);
    } else {
        assert(fs =~= Seq::<FieldModel>::empty());
    }
}

/// Decoding the encoding of a struct, followed by anything, gives its fields
/// back along with the length of its encoding.
pub proof fn lemma_struct_roundtrip(fs: Seq<FieldModel>, rest: Seq<u8>)
    requires
        fields_fit(fs),
    ensures
        parse_struct(encode_struct(fs) + rest) == Some((fs, encode_struct(fs).len())),
{
    lemma_auto_spec_u32_to_from_le_bytes();
    lemma_encode_fields_len(fs);
    lemma_fields_roundtrip(fs);
    let body = encode_fields(fs);
    let s = encode_struct(fs) + rest;
    assert(s.subrange(0, 4) =~= le32(body.len() as u32));
    assert(s.subrange(4, 8) =~= le32(STRUCT));
    assert(s.subrange(8, 8 + body.len() as int) =~= body);
}

} // verus!
