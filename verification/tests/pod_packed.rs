use pod::buf::{ArrayBuf, DynamicBuf, SliceBuf};
use pod::writer::Writer;
use pod::pod::field::Field;
use pod::pod::read::read_array;
use pod::pod::write::write_struct;
use pod::choice::{ChoiceType, ENUM};
use pod::error::ErrorKind;
use pod::pod::kind::{EnvelopePod, PropertyChild};
use pod::pod::packed::{write_array, write_array_unsized, write_choice};
use pod::pod::ty::{Type, ARRAY, CHOICE, INT, LONG, STRING, STRUCT};

fn words(ws: &[u32]) -> Vec<u8> {
    let mut out = Vec::new();
    for w in ws {
        out.extend_from_slice(&w.to_le_bytes());
    }
    out
}

#[test]
fn array_of_ints_is_packed_and_padded() {
    let mut buf = ArrayBuf::<64>::new();
    write_array(&mut buf, &EnvelopePod, Type(INT), Type(INT), &[1u32, 2, 3]).unwrap();
    let mut expected = words(&[20, ARRAY, 4, INT, 1, 2, 3]);
    expected.extend_from_slice(&[0, 0, 0, 0]);
    assert_eq!(buf.as_bytes(), &expected[..]);
}

#[test]
fn empty_array_needs_no_padding() {
    let mut buf = ArrayBuf::<64>::new();
    write_array::<_, _, u32>(&mut buf, &EnvelopePod, Type(LONG), Type(LONG), &[]).unwrap();
    assert_eq!(buf.as_bytes(), &words(&[8, ARRAY, 8, LONG])[..]);
}

#[test]
fn array_of_unsized_type_is_refused() {
    let mut buf = ArrayBuf::<64>::new();
    let err = write_array(&mut buf, &EnvelopePod, Type(STRING), Type(STRING), &[1u32]).unwrap_err();
    assert_eq!(err.kind, ErrorKind::UnsizedTypeInArray { ty: STRING });
    assert!(buf.as_bytes().is_empty());
}

#[test]
fn array_child_of_other_type_is_refused() {
    let mut buf = ArrayBuf::<64>::new();
    let err = write_array(&mut buf, &EnvelopePod, Type(INT), Type(LONG), &[1u64]).unwrap_err();
    assert_eq!(err.kind, ErrorKind::Expected { expected_type: INT, actual_type: LONG });
}

#[test]
fn array_child_too_large_is_refused() {
    let mut buf = ArrayBuf::<64>::new();
    let err = write_array(&mut buf, &EnvelopePod, Type(INT), Type(INT), &[1u64]).unwrap_err();
    assert_eq!(err.kind, ErrorKind::ChildSizeMismatch { expected: 4, actual: 8 });
}

#[test]
fn array_that_does_not_fit_keeps_what_was_there() {
    let mut buf = ArrayBuf::<24>::new();
    assert!(write_array(&mut buf, &EnvelopePod, Type(INT), Type(INT), &[1u32, 2, 3]).is_err());
    assert_eq!(&buf.as_bytes()[..16], &words(&[8, ARRAY, 4, INT])[..]);
}

#[test]
fn unsized_array_size_must_match_the_type() {
    let mut buf = ArrayBuf::<64>::new();
    let err = write_array_unsized::<_, _, u32>(&mut buf, &EnvelopePod, Type(INT), 5, Type(INT), &[])
        .unwrap_err();
    assert_eq!(err.kind, ErrorKind::ChildSizeMismatch { expected: 4, actual: 5 });
    assert!(buf.as_bytes().is_empty());
}

#[test]
fn unsized_array_of_strings_of_one_length() {
    let mut buf = ArrayBuf::<64>::new();
    let foo = u32::from_le_bytes(*b"foo\0");
    let bar = u32::from_le_bytes(*b"bar\0");
    write_array_unsized(&mut buf, &EnvelopePod, Type(STRING), 4, Type(STRING), &[foo, bar]).unwrap();
    let mut expected = words(&[16, ARRAY, 4, STRING]);
    expected.extend_from_slice(b"foo\0bar\0");
    assert_eq!(buf.as_bytes(), &expected[..]);
}

#[test]
fn unsized_array_child_size_must_fit_a_word() {
    let mut buf = ArrayBuf::<64>::new();
    let err = write_array_unsized::<_, _, u32>(
        &mut buf,
        &EnvelopePod,
        Type(STRING),
        u32::MAX as usize + 1,
        Type(STRING),
        &[],
    )
    .unwrap_err();
    assert_eq!(err.kind, ErrorKind::SizeOverflow);
}

#[test]
fn choice_of_ints() {
    let mut buf = ArrayBuf::<64>::new();
    write_choice(&mut buf, &EnvelopePod, ChoiceType(ENUM), Type(INT), Type(INT), &[1u32, 2, 3]).unwrap();
    let mut expected = words(&[28, CHOICE, ENUM, 0, 4, INT, 1, 2, 3]);
    expected.extend_from_slice(&[0, 0, 0, 0]);
    assert_eq!(buf.as_bytes(), &expected[..]);
}

#[test]
fn choice_of_unsized_type_is_refused() {
    let mut buf = ArrayBuf::<64>::new();
    let err = write_choice::<_, _, u32>(&mut buf, &EnvelopePod, ChoiceType(ENUM), Type(STRING), Type(STRING), &[])
        .unwrap_err();
    assert_eq!(err.kind, ErrorKind::UnsizedTypeInArray { ty: STRING });
}

#[test]
fn array_as_property_follows_key_and_flags() {
    let mut buf = ArrayBuf::<64>::new();
    let kind = PropertyChild::new(9).flags(1);
    write_array(&mut buf, &kind, Type(INT), Type(INT), &[5u32, 6]).unwrap();
    assert_eq!(buf.as_bytes(), &words(&[9, 1, 16, ARRAY, 4, INT, 5, 6])[..]);
}

#[test]
fn array_reads_back_what_was_written() {
    let mut buf = ArrayBuf::<64>::new();
    let foo = u32::from_le_bytes(*b"foo\0");
    let bar = u32::from_le_bytes(*b"bar\0");
    let baz = u32::from_le_bytes(*b"baz\0");
    write_array_unsized(&mut buf, &EnvelopePod, Type(STRING), 4, Type(STRING), &[foo, bar, baz]).unwrap();
    let bytes = buf.as_bytes().to_vec();
    let mut r = SliceBuf::new(&bytes);
    let (child_size, child_type, children) = read_array(&mut r).unwrap();
    assert_eq!(child_size, 4);
    assert_eq!(child_type, STRING);
    assert_eq!(&children[..], b"foo\0bar\0baz\0");
    assert!(r.is_empty());
}

#[test]
fn reading_an_array_from_a_struct_is_refused() {
    let mut buf = ArrayBuf::<64>::new();
    write_struct(&mut buf, &[Field::Int(1)]).unwrap();
    let bytes = buf.as_bytes().to_vec();
    let mut r = SliceBuf::new(&bytes);
    let err = read_array(&mut r).unwrap_err();
    assert_eq!(err.kind, ErrorKind::Expected { expected_type: ARRAY, actual_type: STRUCT });
}

#[test]
fn write_at_counts_words_against_the_reservation() {
    let mut buf = ArrayBuf::<64>::new();
    let pos = buf.reserve(&[0u32]).unwrap();
    // More words than reserved bytes is refused.
    let err = buf.write_at(pos, &[1u8, 2, 3, 4, 5]).unwrap_err();
    assert_eq!(err.kind, ErrorKind::ReservedSizeMismatch { expected: 4, actual: 5 });
    assert_eq!(buf.as_bytes(), &[0, 0, 0, 0]);
    // One word fits the count of four reserved bytes, though it takes
    // eight: the bytes past what was written are not kept.
    buf.write_at(pos, &[0x0807_0605_0403_0201u64]).unwrap();
    assert_eq!(buf.as_bytes(), &[1, 2, 3, 4]);
    buf.write_at(pos, &[7u32]).unwrap();
    assert_eq!(buf.as_bytes(), &[7, 0, 0, 0]);
}

#[test]
fn dynamic_write_at_refuses_past_the_end() {
    let mut buf = DynamicBuf::new();
    let pos = buf.reserve(&[0u32, 0u32]).unwrap();
    let err = buf.write_at(pos, &[1u64, 2u64]).unwrap_err();
    assert_eq!(err.kind, ErrorKind::ReservedSizeMismatch { expected: 8, actual: 16 });
    buf.clear();
    let err = buf.write_at(pos, &[1u32]).unwrap_err();
    assert_eq!(err.kind, ErrorKind::ReservedOverflow { write: 0, len: 8, capacity: 0 });
}
