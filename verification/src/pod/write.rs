use vstd::bytes::*;
use vstd::prelude::*;

use super::field::{
    encode_field, encode_fields, encode_struct, field_fits, fields_fit, header, le32,
    lemma_encode_fields_append, lemma_encode_fields_push, models, Field, FieldModel,
};
use super::ty::{BOOL, BYTES, ID, INT, LONG, NONE, STRUCT};
use crate::bytes::{words_bytes, BytesInhabited};
use crate::error::{Error, ErrorKind};
use crate::writer::{overwrite, Writer};

verus! {

/// The bytes of one word.
proof fn lemma_one_word<T: BytesInhabited>(a: T)
    ensures
        words_bytes(seq![a]) == a.spec_le_bytes(),
{
    assert(seq![a].drop_last() =~= Seq::<T>::empty());
    assert(seq![a].last() == a);
    assert(words_bytes(Seq::<T>::empty()) == Seq::<u8>::empty());
    assert(words_bytes(seq![a]) =~= a.spec_le_bytes());
}

/// The bytes of two words.
proof fn lemma_two_words(a: u32, b: u32)
    ensures
        words_bytes(seq![a, b]) == le32(a) + le32(b),
{
    lemma_one_word(a);
    assert(seq![a, b].drop_last() =~= seq![a]);
    assert(seq![a, b].last() == b);
}

/// The bytes of four words.
proof fn lemma_four_words(a: u32, b: u32, c: u32, d: u32)
    ensures
        words_bytes(seq![a, b, c, d]) == le32(a) + le32(b) + le32(c) + le32(d),
{
    assert(seq![a, b, c, d].drop_last() =~= seq![a, b, c]);
    assert(seq![a, b, c].drop_last() =~= seq![a, b]);
    assert(seq![a, b, c, d].last() == d);
    assert(seq![a, b, c].last() == c);
    lemma_two_words(a, b);
    assert(words_bytes(seq![a, b, c]) == words_bytes(seq![a, b]) + le32(c));
    assert(words_bytes(seq![a, b, c, d]) == words_bytes(seq![a, b, c]) + le32(d));
    assert(words_bytes(seq![a, b, c, d]) =~= le32(a) + le32(b) + le32(c) + le32(d));
}

/// Write one field as a POD: header, body, and padding.
///
/// Fails with `SizeOverflow` if the field is a byte sequence longer than a
/// `u32` can describe, and with the writer's error if the buffer is full.
pub fn write_field<W: Writer>(w: &mut W, f: &Field) -> (r: Result<(), Error>)
    requires
        old(w).wf(),
    ensures
        final(w).wf(),
        final(w).limit() == old(w).limit(),
        r is Ok <==> field_fits(f@) && old(w).bytes().len() + encode_field(f@).len() <= old(w).limit(),
        r is Ok ==> final(w).bytes() == old(w).bytes() + encode_field(f@),
        !field_fits(f@) ==> r == Err::<(), Error>((Error { kind: ErrorKind::SizeOverflow })),
        final(w).bytes().len() >= old(w).bytes().len(),
        final(w).bytes().subrange(0, old(w).bytes().len() as int) == old(w).bytes(),
{
    proof {
        lemma_auto_spec_u32_to_from_le_bytes();
        lemma_auto_spec_u64_to_from_le_bytes();
    }
    let ghost start = w.bytes();
    match f {
        Field::Null => {
            proof {
                lemma_two_words(0, NONE);
            }
            let words = [0u32, NONE];
            assert(words@ == seq![0u32, NONE]);
            let r = w.write(&words);
            proof {
                assert(encode_field(f@) == le32(0) + le32(NONE));
                assert(w.bytes().subrange(0, start.len() as int) =~= start);
            }
            r
        },
        Field::Bool(b) => {
            let v: u32 = if *b { 1 } else { 0 };
            proof {
                lemma_four_words(4, BOOL, v, 0);
            }
            let words = [4u32, BOOL, v, 0];
            assert(words@ == seq![4u32, BOOL, v, 0]);
            let r = w.write(&words);
            proof {
                assert(w.bytes().subrange(0, start.len() as int) =~= start);
            }
            r
        },
        Field::Id(v) => {
            proof {
                lemma_four_words(4, ID, *v, 0);
            }
            let words = [4u32, ID, *v, 0];
            assert(words@ == seq![4u32, ID, *v, 0]);
            let r = w.write(&words);
            proof {
                assert(w.bytes().subrange(0, start.len() as int) =~= start);
            }
            r
        },
        Field::Int(v) => {
            proof {
            }
            let x: u32 = #[verifier::truncate] (*v as u32);
            proof {
                lemma_four_words(4, INT, x, 0);
            }
            let words = [4u32, INT, x, 0];
            assert(words@ == seq![4u32, INT, x, 0]);
            let r = w.write(&words);
            proof {
                assert(w.bytes().subrange(0, start.len() as int) =~= start);
            }
            r
        },
        Field::Long(v) => {
            let x: u64 = #[verifier::truncate] (*v as u64);
            proof {
                lemma_two_words(8, LONG);
                lemma_one_word(x);
            }
            let words = [8u32, LONG];
            assert(words@ == seq![8u32, LONG]);
            let r1 = w.write(&words);
            if r1.is_err() {
                proof {
                    assert(w.bytes().subrange(0, start.len() as int) =~= start);
                }
                return r1;
            }
            let ghost mid = w.bytes();
            let words2 = [x];
            assert(words2@ == seq![x]);
            let r = w.write(&words2);
            proof {
                assert(mid == start + (le32(8) + le32(LONG)));
                assert(w.bytes().subrange(0, start.len() as int) =~= start);
                if r is Ok {
                    assert(w.bytes() =~= start + (le32(8) + le32(LONG) + spec_u64_to_le_bytes(x)));
                }
            }
            r
        },
        Field::Bytes(b) => {
            if b.len() > u32::MAX as usize || b.len() > usize::MAX - 8 {
                return Err(Error::new(ErrorKind::SizeOverflow));
            }
            let len = b.len() as u32;
            let pad = if b.len() % 8 == 0 {
                0
            } else {
                8 - b.len() % 8
            };
            proof {
                lemma_two_words(len, BYTES);
            }
            let words = [len, BYTES];
            assert(words@ == seq![len, BYTES]);
            let r1 = w.write(&words);
            if r1.is_err() {
                proof {
                    assert(w.bytes().subrange(0, start.len() as int) =~= start);
                }
                return r1;
            }
            let ghost mid = w.bytes();
            let r = w.write_bytes(b.as_slice(), pad);
            proof {
                assert(mid == start + (le32(len) + le32(BYTES)));
                assert(w.bytes().subrange(0, start.len() as int) =~= start);
                if r is Ok {
                    assert(w.bytes() =~= start + (le32(len) + le32(BYTES) + b@ + crate::bytes::zeros(
                        pad as nat,
                    )));
                }
            }
            r
        },
    }
}

/// Write a struct POD holding `fields`.
///
/// The header is reserved first and filled in with the size once all fields
/// are written. Fails with `SizeOverflow` if a field or the whole struct is
/// too large for its size to fit in a `u32`, and with the writer's error if
/// the buffer is full; what was written before a failure stays.
pub fn write_struct<W: Writer>(w: &mut W, fields: &[Field]) -> (r: Result<(), Error>)
    requires
        old(w).wf(),
    ensures
        final(w).wf(),
        final(w).limit() == old(w).limit(),
        r is Ok <==> fields_fit(models(fields@)) && old(w).bytes().len() + encode_struct(
            models(fields@),
        ).len() <= old(w).limit(),
        r is Ok ==> final(w).bytes() == old(w).bytes() + encode_struct(models(fields@)),
        final(w).bytes().len() >= old(w).bytes().len(),
        final(w).bytes().subrange(0, old(w).bytes().len() as int) == old(w).bytes(),
{
    proof {
        lemma_auto_spec_u32_to_from_le_bytes();
    }
    let ghost start = w.bytes();
    let ghost fs = models(fields@);
    let words = [0u32, STRUCT];
    proof {
        assert(words@ == seq![0u32, STRUCT]);
        lemma_two_words(0, STRUCT);
    }
    let hdr = match w.reserve(&words) {
        Ok(p) => p,
        Err(e) => {
            proof {
                assert(w.bytes().subrange(0, start.len() as int) =~= start);
                lemma_struct_len(fs);
            }
            return Err(e);
        },
    };
    let ghost top = start + (le32(0) + le32(STRUCT));
    let mut i: usize = 0;
    while i < fields.len()
        invariant
            0 <= i <= fields.len(),
            fs == models(fields@),
            w.wf(),
            w.limit() == old(w).limit(),
            start == old(w).bytes(),
            top == start + (le32(0) + le32(STRUCT)),
            top.len() == start.len() + 8,
            W::pos_at(hdr) == start.len(),
            W::pos_len(hdr) == 8,
            w.bytes() == top + encode_fields(fs.take(i as int)),
            forall|j: int| 0 <= j < i ==> #[trigger] field_fits(fs[j]),
        decreases fields.len() - i,
    {
        let ghost before = w.bytes();
        let rf = write_field(w, &fields[i]);
        proof {
            assert(fs[i as int] == fields@[i as int]@);
            assert(fs.take(i + 1) =~= fs.take(i as int).push(fs[i as int]));
            lemma_encode_fields_push(fs.take(i as int), fs[i as int]);
            lemma_prefix(fs, i as int);
            lemma_prefix(fs, i + 1);
        }
        if rf.is_err() {
            proof {
                assert(w.bytes().subrange(0, start.len() as int) =~= start);
                lemma_struct_len(fs);
                if field_fits(fs[i as int]) {
                    assert(before.len() + encode_field(fs[i as int]).len() > w.limit());
                }
            }
            return rf;
        }
        i = i + 1;
    }
    proof {
        assert(fs.take(i as int) =~= fs);
    }
    let size = w.distance_from(&hdr) - 8;
    if size > u32::MAX as usize {
        proof {
            assert(w.bytes().subrange(0, start.len() as int) =~= start);
        }
        return Err(Error::new(ErrorKind::SizeOverflow));
    }
    let size32 = size as u32;
    let words = [size32, STRUCT];
    proof {
        assert(words@ == seq![size32, STRUCT]);
        lemma_two_words(size32, STRUCT);
    }
    let ghost filled = w.bytes();
    proof {
        w.lemma_within_limit();
    }
    let r = w.write_at(hdr, &words);
    proof {
        let body = encode_fields(fs);
        assert(w.bytes() =~= overwrite(filled, start.len() as int, le32(size32) + le32(STRUCT)));
        assert(w.bytes() =~= start + encode_struct(fs));
        assert(w.bytes().subrange(0, start.len() as int) =~= start);
    }
    r
}

/// The fields before `i` are encoded at the start of the encoding of all of
/// them.
proof fn lemma_prefix(fs: Seq<FieldModel>, i: int)
    requires
        0 <= i <= fs.len(),
    ensures
        encode_fields(fs) == encode_fields(fs.take(i)) + encode_fields(fs.skip(i)),
        encode_fields(fs.take(i)).len() <= encode_fields(fs).len(),
{
    assert(fs =~= fs.take(i) + fs.skip(i));
    lemma_encode_fields_append(fs.take(i), fs.skip(i));
}

/// The length of the encoding of a struct.
proof fn lemma_struct_len(fs: Seq<FieldModel>)
    ensures
        encode_struct(fs).len() == 8 + encode_fields(fs).len(),
{
    lemma_auto_spec_u32_to_from_le_bytes();
}

} // verus!
