//! Arrays and choices: PODs whose children all have one type and one size,
//! packed one after the other without headers of their own, and padded to
//! eight bytes as a whole.

use vstd::bytes::*;
use vstd::prelude::*;

use super::field::{le32, pad8, u32_at};
use super::kind::{ChildPod, PodKind};
use super::ty::{spec_type_size, Type, ARRAY, CHOICE};
use crate::bytes::{lemma_words_bytes_len, words_bytes, zeros, BytesInhabited};
use crate::choice::ChoiceType;
use crate::error::{Error, ErrorKind};
use crate::writer::{pad_len, Writer};

verus! {

/// The bytes of a packed POD of type `outer`: its size and type, the words
/// `extra` that describe its children, then the children.
pub open spec fn encode_packed<T: BytesInhabited>(outer: u32, extra: Seq<u32>, children: Seq<T>) -> Seq<u8> {
    le32(packed_size::<T>(extra, children) as u32) + le32(outer) + words_bytes(extra) + words_bytes(
        children,
    )
}

/// The size a packed POD states: the words that describe its children and
/// the children.
pub open spec fn packed_size<T: BytesInhabited>(extra: Seq<u32>, children: Seq<T>) -> nat {
    4 * extra.len() + children.len() * T::spec_size()
}

/// Whether a packed POD fits the limits of its header and kind, leaving the
/// room in the buffer aside: each child has the child type and fits the
/// child size, the size fits in a `u32`, and the kind allows it.
pub open spec fn packed_allowed<T: BytesInhabited, P: PodKind>(
    kind: P,
    outer: u32,
    extra: Seq<u32>,
    child_size: usize,
    child_type: u32,
    value_type: u32,
    children: Seq<T>,
) -> bool {
    &&& (children.len() == 0 || (value_type == child_type && T::spec_size() <= child_size))
    &&& kind.spec_check(outer, packed_size::<T>(extra, children) as usize) is Ok
    &&& packed_size::<T>(extra, children) <= u32::MAX
}

/// The length of the written POD with its padding, after `start` bytes.
pub open spec fn packed_total<T: BytesInhabited>(start: nat, extra: Seq<u32>, children: Seq<T>) -> nat {
    let len = 8 + packed_size::<T>(extra, children);
    len + pad_len(start + len, 8)
}

/// Whether `ty` has a fixed size other than `child_size`.
pub open spec fn size_conflicts(ty: u32, child_size: usize) -> bool {
    spec_type_size(ty) is Some && spec_type_size(ty).unwrap() != child_size
}

/// What writing a packed POD with kind `kind` did, from the bytes `before`
/// in a buffer of limit `limit` to the bytes `after` with the result `r`:
/// the kind's own header comes first, and the POD follows it.
pub open spec fn packed_written<T: BytesInhabited, P: PodKind>(
    kind: P,
    outer: u32,
    extra: Seq<u32>,
    child_size: usize,
    child_type: u32,
    value_type: u32,
    children: Seq<T>,
    before: Seq<u8>,
    limit: nat,
    r: Result<(), Error>,
    after: Seq<u8>,
) -> bool {
    let hdr = words_bytes(kind.spec_header());
    let start = before.len() + hdr.len();
    let reached = children.len() > 0 && start + 8 + 4 * extra.len() <= limit;
    &&& r is Ok <==> packed_allowed(
        kind,
        outer,
        extra,
        child_size,
        child_type,
        value_type,
        children,
    ) && start + packed_total(start, extra, children) <= limit
    &&& r is Ok ==> after == before + hdr + encode_packed(outer, extra, children) + zeros(
        pad_len(start + 8 + packed_size(extra, children), 8),
    )
    &&& reached && value_type != child_type ==> r == Err::<(), Error>(
        (Error { kind: ErrorKind::Expected { expected_type: child_type, actual_type: value_type } }),
    )
    &&& reached && value_type == child_type && T::spec_size() > child_size ==> r == Err::<
        (),
        Error,
    >(
        (Error {
            kind: ErrorKind::ChildSizeMismatch { expected: child_size, actual: T::spec_size() as usize },
        }),
    )
}

/// The bytes of two words.
proof fn lemma_two(a: u32, b: u32)
    ensures
        words_bytes(seq![a, b]) == le32(a) + le32(b),
{
    lemma_auto_spec_u32_to_from_le_bytes();
    assert(seq![a, b].drop_last() =~= seq![a]);
    assert(seq![a].drop_last() =~= Seq::<u32>::empty());
    assert(words_bytes(Seq::<u32>::empty()) == Seq::<u8>::empty());
    assert(words_bytes(seq![a]) =~= le32(a));
}

/// The bytes of a header followed by more words.
proof fn lemma_prefix_words(a: u32, b: u32, extra: Seq<u32>)
    ensures
        words_bytes(seq![a, b] + extra) == le32(a) + le32(b) + words_bytes(extra),
    decreases extra.len(),
{
    if extra.len() == 0 {
        lemma_two(a, b);
        assert(seq![a, b] + extra =~= seq![a, b]);
        assert(le32(a) + le32(b) + Seq::<u8>::empty() =~= le32(a) + le32(b));
    } else {
        assert((seq![a, b] + extra).drop_last() =~= seq![a, b] + extra.drop_last());
        assert((seq![a, b] + extra).last() == extra.last());
        lemma_prefix_words(a, b, extra.drop_last());
        assert(le32(a) + le32(b) + words_bytes(extra.drop_last()) + extra.last().spec_le_bytes()
            =~= le32(a) + le32(b) + (words_bytes(extra.drop_last()) + extra.last().spec_le_bytes()));
    }
}

/// Write a packed POD whose header words are `header`: its placeholder size
/// and type, then the words that describe its children. Each child, a value
/// of type `value_type`, is checked against the child type and size, the
/// size is checked by the kind and filled in, and the whole is padded to
/// eight bytes.
fn write_packed<W: Writer, P: PodKind, T: BytesInhabited>(
    w: &mut W,
    kind: &P,
    outer: u32,
    header: &[u32],
    child_size: usize,
    child_type: Type,
    value_type: Type,
    children: &[T],
) -> (r: Result<(), Error>)
    requires
        old(w).wf(),
        header@.len() >= 2,
        header@.len() <= 8,
        header@[1] == outer,
        children@.len() * T::spec_size() <= isize::MAX,
        old(w).limit() <= usize::MAX - 16,
    ensures
        final(w).wf(),
        final(w).limit() == old(w).limit(),
        ({
            let extra = header@.subrange(2, header@.len() as int);
            let start = old(w).bytes().len();
            &&& r is Ok <==> packed_allowed(
                *kind,
                outer,
                extra,
                child_size,
                child_type.0,
                value_type.0,
                children@,
            ) && start + packed_total(start, extra, children@) <= old(w).limit()
            &&& r is Ok ==> final(w).bytes() == old(w).bytes() + encode_packed(outer, extra, children@)
                + zeros(pad_len(start + 8 + packed_size(extra, children@), 8))
            &&& children@.len() > 0 && start + 4 * header@.len() <= old(w).limit() ==> {
                &&& value_type.0 != child_type.0 ==> r == Err::<(), Error>(
                    (Error {
                        kind: ErrorKind::Expected {
                            expected_type: child_type.0,
                            actual_type: value_type.0,
                        },
                    }),
                )
                &&& value_type.0 == child_type.0 && T::spec_size() > child_size ==> r == Err::<
                    (),
                    Error,
                >(
                    (Error {
                        kind: ErrorKind::ChildSizeMismatch {
                            expected: child_size,
                            actual: T::spec_size() as usize,
                        },
                    }),
                )
            }
        }),
        final(w).bytes().len() >= old(w).bytes().len(),
        final(w).bytes().subrange(0, old(w).bytes().len() as int) == old(w).bytes(),
{
    proof {
        lemma_auto_spec_u32_to_from_le_bytes();
        lemma_words_bytes_len(header@);
        lemma_words_bytes_len(children@);
    }
    let ghost start = w.bytes();
    let ghost extra = header@.subrange(2, header@.len() as int);
    let ghost n = children@.len();
    proof {
        assert(header@ =~= seq![header@[0], outer] + extra);
        lemma_prefix_words(header@[0], outer, extra);
        lemma_words_bytes_len(extra);
        assert(4 * header@.len() == 8 + 4 * extra.len());
    }
    let pos = match w.reserve(header) {
        Ok(pos) => pos,
        Err(e) => {
            proof {
                assert(w.bytes().subrange(0, start.len() as int) =~= start);
            }
            return Err(e);
        },
    };
    let ghost top = w.bytes();
    let child = ChildPod { size: child_size, ty: child_type, padded: false };
    let tsize = T::size();
    let mut i: usize = 0;
    while i < children.len()
        invariant
            0 <= i <= children.len(),
            n == children@.len(),
            extra == header@.subrange(2, header@.len() as int),
            tsize == T::spec_size(),
            tsize > 0,
            children@.len() * T::spec_size() <= isize::MAX,
            child == (ChildPod { size: child_size, ty: child_type, padded: false }),
            i > 0 ==> tsize <= child_size && value_type.0 == child_type.0,
            w.wf(),
            w.limit() == old(w).limit(),
            start == old(w).bytes(),
            top == start + words_bytes(header@),
            top.len() == start.len() + 8 + 4 * extra.len(),
            W::pos_at(pos) == start.len(),
            W::pos_len(pos) == 4 * header@.len(),
            w.bytes() == top + words_bytes(children@.take(i as int)),
            words_bytes(children@.take(i as int)).len() == i * T::spec_size(),
        decreases children.len() - i,
    {
        match child.check(value_type, tsize) {
            Ok(()) => {},
            Err(e) => {
                proof {
                    assert(w.bytes().subrange(0, start.len() as int) =~= start);
                }
                return Err(e);
            },
        }
        let value = children[i];
        let words = [value];
        assert(words@ == seq![value]);
        proof {
            assert(seq![value].drop_last() =~= Seq::<T>::empty());
            assert(words_bytes(Seq::<T>::empty()) == Seq::<u8>::empty());
            assert(words_bytes(seq![value]) =~= value.spec_le_bytes());
            value.lemma_size();
            assert(children@.take(i + 1).drop_last() =~= children@.take(i as int));
            assert(children@.take(i + 1).last() == value);
            assert((i + 1) * T::spec_size() == i * T::spec_size() + T::spec_size()) by (nonlinear_arith);
            assert(1 * T::spec_size() == T::spec_size());
            assert(i * T::spec_size() + T::spec_size() <= n * T::spec_size()) by (nonlinear_arith)
                requires
                    i < n,
            ;
        }
        match w.write(&words) {
            Ok(()) => {},
            Err(e) => {
                proof {
                    assert(w.bytes().subrange(0, start.len() as int) =~= start);
                    assert(packed_size(extra, children@) == 4 * extra.len() + n * T::spec_size());
                }
                return Err(e);
            },
        }
        proof {
            assert(w.bytes() =~= top + words_bytes(children@.take(i + 1)));
        }
        i = i + 1;
    }
    proof {
        assert(children@.take(i as int) =~= children@);
        w.lemma_within_limit();
        assert(w.bytes().len() - start.len() - 8 == packed_size(extra, children@));
    }
    let size = match kind.check_size(Type(outer), w, pos) {
        Ok(size) => size,
        Err(e) => {
            proof {
                assert(w.bytes().subrange(0, start.len() as int) =~= start);
            }
            return Err(e);
        },
    };
    let words = [size, outer];
    assert(words@ == seq![size, outer]);
    proof {
        lemma_two(size, outer);
    }
    match w.write_at(pos, &words) {
        Ok(()) => {},
        Err(e) => {
            proof {
                assert(w.bytes().subrange(0, start.len() as int) =~= start);
            }
            return Err(e);
        },
    }
    proof {
        assert(w.bytes() =~= start + encode_packed(outer, extra, children@));
        assert(w.bytes().subrange(0, start.len() as int) =~= start);
    }
    let r = w.pad(8);
    proof {
        assert(w.bytes().subrange(0, start.len() as int) =~= start);
    }
    r
}

/// Write the kind's header and then a packed POD, as `write_packed` does.
fn write_kind_packed<W: Writer, P: PodKind, T: BytesInhabited>(
    w: &mut W,
    kind: &P,
    outer: u32,
    header: &[u32],
    child_size: usize,
    child_type: Type,
    value_type: Type,
    children: &[T],
) -> (r: Result<(), Error>)
    requires
        old(w).wf(),
        header@.len() >= 2,
        header@.len() <= 8,
        header@[1] == outer,
        children@.len() * T::spec_size() <= isize::MAX,
        old(w).limit() <= usize::MAX - 16,
    ensures
        final(w).wf(),
        final(w).limit() == old(w).limit(),
        packed_written(
            *kind,
            outer,
            header@.subrange(2, header@.len() as int),
            child_size,
            child_type.0,
            value_type.0,
            children@,
            old(w).bytes(),
            old(w).limit(),
            r,
            final(w).bytes(),
        ),
        old(w).bytes().len() + words_bytes(kind.spec_header()).len() > old(w).limit() ==> r is Err
            && final(w).bytes() == old(w).bytes(),
        final(w).bytes().len() >= old(w).bytes().len(),
        final(w).bytes().subrange(0, old(w).bytes().len() as int) == old(w).bytes(),
{
    let ghost start = w.bytes();
    proof {
        lemma_words_bytes_len(header@);
        lemma_words_bytes_len(kind.spec_header());
    }
    match kind.header(w) {
        Ok(()) => {},
        Err(e) => {
            proof {
                assert(w.bytes().subrange(0, start.len() as int) =~= start);
            }
            return Err(e);
        },
    }
    let ghost mid = w.bytes();
    let r = write_packed(w, kind, outer, header, child_size, child_type, value_type, children);
    proof {
        assert(w.bytes().subrange(0, start.len() as int) =~= mid.subrange(0, mid.len() as int).subrange(0, start.len() as int));
        assert(mid.subrange(0, start.len() as int) =~= start);
        assert(w.bytes().subrange(0, start.len() as int) =~= start);
    }
    r
}

/// Write an array of `children`, values of type `value_type`, as children
/// of type `child_type`, which must have a fixed size. The kind's header is
/// written first.
pub fn write_array<W: Writer, P: PodKind, T: BytesInhabited>(
    w: &mut W,
    kind: &P,
    child_type: Type,
    value_type: Type,
    children: &[T],
) -> (r: Result<(), Error>)
    requires
        old(w).wf(),
        children@.len() * T::spec_size() <= isize::MAX,
        old(w).limit() <= usize::MAX - 16,
    ensures
        final(w).wf(),
        final(w).limit() == old(w).limit(),
        ({
            let hdr = words_bytes(kind.spec_header());
            &&& old(w).bytes().len() + hdr.len() > old(w).limit() ==> r is Err && final(w).bytes()
                == old(w).bytes()
            &&& old(w).bytes().len() + hdr.len() <= old(w).limit() && spec_type_size(child_type.0) is None
                ==> r == Err::<(), Error>(
                (Error { kind: ErrorKind::UnsizedTypeInArray { ty: child_type.0 } }),
            ) && final(w).bytes() == old(w).bytes() + hdr
        }),
        spec_type_size(child_type.0) matches Some(cs) ==> packed_written(
            *kind,
            ARRAY,
            seq![cs as u32, child_type.0],
            cs,
            child_type.0,
            value_type.0,
            children@,
            old(w).bytes(),
            old(w).limit(),
            r,
            final(w).bytes(),
        ),
        final(w).bytes().len() >= old(w).bytes().len(),
        final(w).bytes().subrange(0, old(w).bytes().len() as int) == old(w).bytes(),
{
    proof {
        lemma_words_bytes_len(kind.spec_header());
        lemma_auto_spec_u32_to_from_le_bytes();
        lemma_words_bytes_len(children@);
    }
    let child_size = match child_type.size() {
        Some(size) => size,
        None => {
            let ghost start = w.bytes();
            let rh = kind.header(w);
            proof {
                assert(w.bytes().subrange(0, start.len() as int) =~= start);
            }
            return match rh {
                Ok(()) => Err(Error::new(ErrorKind::UnsizedTypeInArray { ty: child_type.0 })),
                Err(e) => Err(e),
            };
        },
    };
    let header = [8u32, ARRAY, child_size as u32, child_type.0];
    proof {
        assert(header@ == seq![8u32, ARRAY, child_size as u32, child_type.0]);
        assert(header@.subrange(2, 4) =~= seq![child_size as u32, child_type.0]);
    }
    write_kind_packed(w, kind, ARRAY, &header, child_size, child_type, value_type, children)
}

/// Write an array of `children`, values of type `value_type`, as children
/// of type `child_type` and size `child_size`. The size must match the size
/// of the type where it has one, and fit in a `u32`. The kind's header is
/// written first.
pub fn write_array_unsized<W: Writer, P: PodKind, T: BytesInhabited>(
    w: &mut W,
    kind: &P,
    child_type: Type,
    child_size: usize,
    value_type: Type,
    children: &[T],
) -> (r: Result<(), Error>)
    requires
        old(w).wf(),
        children@.len() * T::spec_size() <= isize::MAX,
        old(w).limit() <= usize::MAX - 16,
    ensures
        final(w).wf(),
        final(w).limit() == old(w).limit(),
        ({
            let hdr = words_bytes(kind.spec_header());
            let fits = old(w).bytes().len() + hdr.len() <= old(w).limit();
            &&& !fits ==> r is Err && final(w).bytes() == old(w).bytes()
            &&& fits && size_conflicts(child_type.0, child_size) ==> r == Err::<(), Error>(
                (Error {
                    kind: ErrorKind::ChildSizeMismatch {
                        expected: spec_type_size(child_type.0).unwrap(),
                        actual: child_size,
                    },
                }),
            ) && final(w).bytes() == old(w).bytes() + hdr
            &&& fits && !size_conflicts(child_type.0, child_size) && child_size > u32::MAX ==> r
                == Err::<(), Error>((Error { kind: ErrorKind::SizeOverflow })) && final(w).bytes()
                == old(w).bytes() + hdr
        }),
        !size_conflicts(child_type.0, child_size) && child_size <= u32::MAX ==> packed_written(
            *kind,
            ARRAY,
            seq![child_size as u32, child_type.0],
            child_size,
            child_type.0,
            value_type.0,
            children@,
            old(w).bytes(),
            old(w).limit(),
            r,
            final(w).bytes(),
        ),
        final(w).bytes().len() >= old(w).bytes().len(),
        final(w).bytes().subrange(0, old(w).bytes().len() as int) == old(w).bytes(),
{
    proof {
        lemma_words_bytes_len(kind.spec_header());
        lemma_auto_spec_u32_to_from_le_bytes();
    }
    let conflict = match child_type.size() {
        Some(size) => size != child_size,
        None => false,
    };
    if conflict || child_size > u32::MAX as usize {
        let ghost start = w.bytes();
        let rh = kind.header(w);
        proof {
            assert(w.bytes().subrange(0, start.len() as int) =~= start);
        }
        return match rh {
            Ok(()) => {
                if conflict {
                    let expected = match child_type.size() {
                        Some(size) => size,
                        None => child_size,
                    };
                    Err(Error::new(ErrorKind::ChildSizeMismatch { expected, actual: child_size }))
                } else {
                    Err(Error::new(ErrorKind::SizeOverflow))
                }
            },
            Err(e) => Err(e),
        };
    }
    let header = [8u32, ARRAY, child_size as u32, child_type.0];
    proof {
        assert(header@ == seq![8u32, ARRAY, child_size as u32, child_type.0]);
        assert(header@.subrange(2, 4) =~= seq![child_size as u32, child_type.0]);
    }
    write_kind_packed(w, kind, ARRAY, &header, child_size, child_type, value_type, children)
}

/// Write a choice of kind `choice` among `children`, values of type
/// `value_type`, as children of type `child_type`, which must have a fixed
/// size. The kind's header is written first.
pub fn write_choice<W: Writer, P: PodKind, T: BytesInhabited>(
    w: &mut W,
    kind: &P,
    choice: ChoiceType,
    child_type: Type,
    value_type: Type,
    children: &[T],
) -> (r: Result<(), Error>)
    requires
        old(w).wf(),
        children@.len() * T::spec_size() <= isize::MAX,
        old(w).limit() <= usize::MAX - 16,
    ensures
        final(w).wf(),
        final(w).limit() == old(w).limit(),
        ({
            let hdr = words_bytes(kind.spec_header());
            &&& old(w).bytes().len() + hdr.len() > old(w).limit() ==> r is Err && final(w).bytes()
                == old(w).bytes()
            &&& old(w).bytes().len() + hdr.len() <= old(w).limit() && spec_type_size(child_type.0) is None
                ==> r == Err::<(), Error>(
                (Error { kind: ErrorKind::UnsizedTypeInArray { ty: child_type.0 } }),
            ) && final(w).bytes() == old(w).bytes() + hdr
        }),
        spec_type_size(child_type.0) matches Some(cs) ==> packed_written(
            *kind,
            CHOICE,
            seq![choice.0, 0u32, cs as u32, child_type.0],
            cs,
            child_type.0,
            value_type.0,
            children@,
            old(w).bytes(),
            old(w).limit(),
            r,
            final(w).bytes(),
        ),
        final(w).bytes().len() >= old(w).bytes().len(),
        final(w).bytes().subrange(0, old(w).bytes().len() as int) == old(w).bytes(),
{
    proof {
        lemma_words_bytes_len(kind.spec_header());
        lemma_auto_spec_u32_to_from_le_bytes();
    }
    let child_size = match child_type.size() {
        Some(size) => size,
        None => {
            let ghost start = w.bytes();
            let rh = kind.header(w);
            proof {
                assert(w.bytes().subrange(0, start.len() as int) =~= start);
            }
            return match rh {
                Ok(()) => Err(Error::new(ErrorKind::UnsizedTypeInArray { ty: child_type.0 })),
                Err(e) => Err(e),
            };
        },
    };
    let header = [16u32, CHOICE, choice.0, 0u32, child_size as u32, child_type.0];
    proof {
        assert(header@ == seq![16u32, CHOICE, choice.0, 0u32, child_size as u32, child_type.0]);
        assert(header@.subrange(2, 6) =~= seq![choice.0, 0u32, child_size as u32, child_type.0]);
    }
    write_kind_packed(w, kind, CHOICE, &header, child_size, child_type, value_type, children)
}

/// Decode an array POD from the start of `s`: the size and type of its
/// children, the bytes of the children together, and the number of bytes
/// the array takes up with its padding.
pub open spec fn parse_array(s: Seq<u8>) -> Option<(u32, u32, Seq<u8>, nat)> {
    if s.len() < 8 {
        None
    } else {
        let size = u32_at(s, 0) as nat;
        let end = 8 + size + pad8(size);
        if u32_at(s, 4) != ARRAY || size < 8 || end > s.len() {
            None
        } else {
            Some((u32_at(s, 8), u32_at(s, 12), s.subrange(16, 8 + size as int), end))
        }
    }
}

/// Decoding what an array write produced, followed by anything, gives back
/// the size and type of the children and their bytes, along with the length
/// of the array and its padding.
pub proof fn lemma_array_roundtrip<T: BytesInhabited>(
    child_size: u32,
    child_type: u32,
    children: Seq<T>,
    rest: Seq<u8>,
)
    requires
        packed_size(seq![child_size, child_type], children) <= u32::MAX,
    ensures
        ({
            let extra = seq![child_size, child_type];
            let bytes = encode_packed(ARRAY, extra, children) + zeros(
                pad_len(8 + packed_size(extra, children), 8),
            );
            parse_array(bytes + rest) == Some(
                (child_size, child_type, words_bytes(children), bytes.len()),
            )
        }),
{
    lemma_auto_spec_u32_to_from_le_bytes();
    let extra = seq![child_size, child_type];
    let size = packed_size(extra, children);
    lemma_two(child_size, child_type);
    lemma_words_bytes_len(children);
    lemma_words_bytes_len(extra);
    let pad = pad_len(8 + size, 8);
    assert(pad == pad8(size)) by {
        assert((8 + size) % 8 == size % 8);
    }
    let bytes = encode_packed(ARRAY, extra, children) + zeros(pad);
    let s = bytes + rest;
    assert(s.subrange(0, 4) =~= le32(size as u32));
    assert(s.subrange(4, 8) =~= le32(ARRAY));
    assert(s.subrange(8, 12) =~= le32(child_size));
    assert(s.subrange(12, 16) =~= le32(child_type));
    assert(s.subrange(16, 8 + size as int) =~= words_bytes(children));
}

} // verus!
