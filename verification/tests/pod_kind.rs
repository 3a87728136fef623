use pod::as_reader::AsReader;
use pod::as_slice::AsSlice;
use pod::buf::{ArrayBuf, DynamicBuf, WriterSlice};
use pod::error::ErrorKind;
use pod::pod::kind::{ChildPod, ControlChild, EnvelopePod, PodKind, PropertyChild};
use pod::pod::ty::{Type, INT, STRING};
use pod::writer::Writer;

#[test]
fn property_header_is_key_and_flags() {
    let mut buf = ArrayBuf::<64>::new();
    let kind = PropertyChild::new(7).flags(3);
    assert!(kind.is_envelope());
    kind.header(&mut buf).unwrap();
    assert_eq!(buf.as_bytes(), &[7, 0, 0, 0, 3, 0, 0, 0]);
}

#[test]
fn control_header_is_offset_and_type() {
    let mut buf = ArrayBuf::<64>::new();
    let kind = ControlChild::new().offset(16).ty(2);
    kind.header(&mut buf).unwrap();
    assert_eq!(buf.as_bytes(), &[16, 0, 0, 0, 2, 0, 0, 0]);
    let mut full = ArrayBuf::<4>::new();
    assert!(kind.header(&mut full).is_err());
    assert!(full.as_bytes().is_empty());
}

#[test]
fn envelope_writes_no_header() {
    let mut buf = ArrayBuf::<8>::new();
    EnvelopePod.header(&mut buf).unwrap();
    assert!(buf.as_bytes().is_empty());
    assert!(EnvelopePod.check(Type(STRING), usize::MAX).is_ok());
}

#[test]
fn child_check() {
    let child = ChildPod { size: 4, ty: Type(INT), padded: false };
    assert!(!child.is_envelope());
    assert!(child.check(Type(INT), 4).is_ok());
    assert_eq!(
        child.check(Type(STRING), 4).unwrap_err().kind,
        ErrorKind::Expected { expected_type: INT, actual_type: STRING }
    );
    assert_eq!(
        child.check(Type(INT), 5).unwrap_err().kind,
        ErrorKind::ChildSizeMismatch { expected: 4, actual: 5 }
    );
}

#[test]
fn check_size_measures_after_header() {
    let mut buf = ArrayBuf::<64>::new();
    let header = buf.reserve(&[0u32, 0u32]).unwrap();
    buf.write(&[1u32, 2u32, 3u32]).unwrap();
    assert_eq!(EnvelopePod.check_size(Type(INT), &buf, header), Ok(12));
    let child = ChildPod { size: 8, ty: Type(INT), padded: false };
    assert_eq!(
        child.check_size(Type(INT), &buf, header).unwrap_err().kind,
        ErrorKind::ChildSizeMismatch { expected: 8, actual: 12 }
    );
}

#[test]
fn readers_over_buffers() {
    let bytes = vec![1u8, 2, 3];
    assert_eq!(bytes.as_slice().len(), 3);
    assert_eq!(AsSlice::as_slice(&bytes).as_bytes(), &[1, 2, 3]);
    assert_eq!(AsReader::as_reader(&bytes).as_bytes(), &[1, 2, 3]);
    let mut buf = ArrayBuf::<16>::new();
    buf.write(&[5u32]).unwrap();
    assert_eq!(AsSlice::as_slice(&buf).as_bytes(), &[5, 0, 0, 0]);
    let dynamic = DynamicBuf::from_slice(&[9, 8]).unwrap();
    assert_eq!(AsReader::as_reader(&dynamic).as_bytes(), &[9, 8]);
}

#[test]
fn writer_slice_skips_its_prefix() {
    let mut buf = ArrayBuf::<64>::new();
    let pos = buf.reserve(&[1u32, 2u32]).unwrap();
    buf.write(&[3u32]).unwrap();
    let slice: WriterSlice<ArrayBuf<64>, 4> = WriterSlice::new(buf, pos);
    assert_eq!(slice.as_slice().as_bytes(), &[2, 0, 0, 0, 3, 0, 0, 0]);
    assert_eq!(slice.into_writer().as_bytes().len(), 12);
}
