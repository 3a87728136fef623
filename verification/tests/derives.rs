use pod::buf::{slice, ArrayBuf};
use pod::pod::{read_struct, write_struct, Field};

/// Write `fields` as a struct into a fresh buffer and read them back.
fn roundtrip(fields: Vec<Field>) -> Vec<Field> {
    let mut buf = ArrayBuf::<1024>::new();
    write_struct(&mut buf, &fields).unwrap();
    let mut reader = slice(buf.as_bytes());
    let read = read_struct(&mut reader).unwrap();
    assert!(reader.is_empty());
    read
}

#[test]
fn basic() {
    let value = vec![Field::Int(40)];
    assert_eq!(roundtrip(value.clone()), value);
}

#[test]
fn with_lifetime() {
    let value = vec![
        Field::Bytes(b"hello".to_vec()),
        Field::Bytes(b"world".to_vec()),
    ];
    assert_eq!(roundtrip(value.clone()), value);
}
