use mcrs::error::ProtocolError;
use mcrs::net::proto::varint::Varint;
use mcrs::net::proto::{read_varint, ProtoSerializable, Reader};

fn cases() -> Vec<(i32, Vec<u8>)> {
    vec![
        (0, vec![0]),
        (1, vec![1]),
        (2, vec![2]),
        (127, vec![0x7f]),
        (128, vec![0x80, 0x01]),
        (255, vec![0xff, 0x01]),
        (2147483647, vec![0xff, 0xff, 0xff, 0xff, 0x07]),
        (-2147483648, vec![0x80, 0x80, 0x80, 0x80, 0x08]),
        (-1, vec![0xff, 0xff, 0xff, 0xff, 0x0f]),
    ]
}

#[test]
fn test_read() {
    for (val, bytes) in cases() {
        let mut r = Reader::new(&bytes);
        assert_eq!(read_varint(&mut r).unwrap(), val);
    }
}

#[test]
fn test_read_too_long() {
    let bytes: Vec<u8> = vec![0x80, 0x80, 0x80, 0x80, 0x80];
    let mut r = Reader::new(&bytes);
    assert!(read_varint(&mut r).is_err());
}

#[test]
fn test_write() {
    let mut buf = Vec::new();
    for (val, bytes) in cases() {
        buf.clear();
        let v = Varint(val);
        v.write(&mut buf).unwrap();
        assert_eq!(buf, bytes);
    }
}

#[test]
fn varint_too_long_is_length_out_of_range() {
    let bytes: Vec<u8> = vec![0xff, 0xff, 0xff, 0xff, 0xff, 0x01];
    let mut r = Reader::new(&bytes);
    assert_eq!(read_varint(&mut r), Err(ProtocolError::LengthOutOfRange));
    assert_eq!(r.remaining(), 6);
}
