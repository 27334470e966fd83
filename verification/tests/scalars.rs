use mcrs::error::ProtocolError;
use mcrs::net::proto::scalars::{read_be, write_be, Double, Float};
use mcrs::net::proto::varint::Varint;
use mcrs::net::proto::{read, write_varint, ProtoSerializable, Reader};

fn written<T: ProtoSerializable>(value: T) -> Vec<u8> {
    let mut buf = Vec::new();
    value.write(&mut buf).unwrap();
    buf
}

#[test]
fn u16_is_big_endian() {
    assert_eq!(written(25565u16), vec![0x63, 0xdd]);
    assert_eq!(read::<u16>(&mut Reader::new(&[0x63, 0xdd])), Ok(25565));
    assert_eq!(read::<u16>(&mut Reader::new(&[0xff, 0xff])), Ok(65535));
}

#[test]
fn i32_is_big_endian_twos_complement() {
    assert_eq!(written(1i32), vec![0, 0, 0, 1]);
    assert_eq!(written(-2i32), vec![0xff, 0xff, 0xff, 0xfe]);
    assert_eq!(written(i32::MIN), vec![0x80, 0, 0, 0]);
    assert_eq!(read::<i32>(&mut Reader::new(&[0xff, 0xff, 0xff, 0xfe])), Ok(-2));
    assert_eq!(read::<i32>(&mut Reader::new(&[0x7f, 0xff, 0xff, 0xff])), Ok(i32::MAX));
}

#[test]
fn i64_is_big_endian_twos_complement() {
    assert_eq!(written(42i64), vec![0, 0, 0, 0, 0, 0, 0, 42]);
    assert_eq!(written(-1i64), vec![0xff; 8]);
    assert_eq!(written(0x0102030405060708i64), vec![1, 2, 3, 4, 5, 6, 7, 8]);
    assert_eq!(read::<i64>(&mut Reader::new(&[1, 2, 3, 4, 5, 6, 7, 8])), Ok(0x0102030405060708));
    assert_eq!(read::<i64>(&mut Reader::new(&[0x80, 0, 0, 0, 0, 0, 0, 0])), Ok(i64::MIN));
}

#[test]
fn integers_read_back() {
    for v in [0i64, 1, -1, i64::MAX, i64::MIN, 578, -25565] {
        assert_eq!(read::<i64>(&mut Reader::new(&written(v))), Ok(v));
    }
    for v in [0i32, 1, -1, i32::MAX, i32::MIN] {
        assert_eq!(read::<i32>(&mut Reader::new(&written(v))), Ok(v));
    }
    for v in [0u16, 1, 255, 256, u16::MAX] {
        assert_eq!(read::<u16>(&mut Reader::new(&written(v))), Ok(v));
    }
    for v in [0u8, 1, 255] {
        assert_eq!(read::<u8>(&mut Reader::new(&written(v))), Ok(v));
    }
}

#[test]
fn short_integers_are_unexpected_eof_and_consume_nothing() {
    let bytes = [1u8, 2, 3];
    let mut r = Reader::new(&bytes);
    assert_eq!(read::<i32>(&mut r), Err(ProtocolError::UnexpectedEof));
    assert_eq!(r.remaining(), 3);
    assert_eq!(read::<i64>(&mut r), Err(ProtocolError::UnexpectedEof));
    assert_eq!(read::<u16>(&mut r), Ok(0x0102));
    assert_eq!(read::<u16>(&mut r), Err(ProtocolError::UnexpectedEof));
    assert_eq!(read::<u8>(&mut r), Ok(3));
    assert_eq!(read::<u8>(&mut r), Err(ProtocolError::UnexpectedEof));
    assert_eq!(read::<bool>(&mut r), Err(ProtocolError::UnexpectedEof));
}

#[test]
fn bool_is_written_as_one_or_zero() {
    assert_eq!(written(true), vec![1]);
    assert_eq!(written(false), vec![0]);
}

#[test]
fn bool_reads_every_nonzero_byte_as_true() {
    assert_eq!(read::<bool>(&mut Reader::new(&[0])), Ok(false));
    assert_eq!(read::<bool>(&mut Reader::new(&[1])), Ok(true));
    assert_eq!(read::<bool>(&mut Reader::new(&[2])), Ok(true));
    assert_eq!(read::<bool>(&mut Reader::new(&[0xff])), Ok(true));
}

#[test]
fn floats_travel_as_their_bits() {
    let x = 1.5f64;
    assert_eq!(written(Double(x.to_bits())), x.to_be_bytes().to_vec());
    let back = read::<Double>(&mut Reader::new(&x.to_be_bytes())).unwrap();
    assert_eq!(f64::from_bits(back.0), 1.5);
    let y = -0.25f32;
    assert_eq!(written(Float(y.to_bits())), y.to_be_bytes().to_vec());
    let back = read::<Float>(&mut Reader::new(&y.to_be_bytes())).unwrap();
    assert_eq!(f32::from_bits(back.0), -0.25);
}

#[test]
fn read_be_and_write_be_take_any_width_up_to_eight() {
    let mut buf = Vec::new();
    write_be(&mut buf, 0x010203, 3);
    assert_eq!(buf, vec![1, 2, 3]);
    write_be(&mut buf, 0x0102, 0);
    assert_eq!(buf, vec![1, 2, 3]);
    // digits above the width are dropped
    write_be(&mut buf, 0x0a0b0c, 2);
    assert_eq!(buf, vec![1, 2, 3, 0x0b, 0x0c]);
    let mut r = Reader::new(&buf);
    assert_eq!(read_be(&mut r, 3), Ok(0x010203));
    assert_eq!(read_be(&mut r, 0), Ok(0));
    assert_eq!(r.remaining(), 2);
    assert_eq!(read_be(&mut r, 3), Err(ProtocolError::UnexpectedEof));
    assert_eq!(read_be(&mut r, 2), Ok(0x0b0c));
}

#[test]
fn varint_from_i32() {
    assert_eq!(Varint::from(8), Varint(8));
    let v: Varint = 300.into();
    assert_eq!(written(v), vec![0xac, 0x02]);
}

#[test]
fn varint_round_trips_over_the_whole_range() {
    let mut v: i64 = i32::MIN as i64;
    while v <= i32::MAX as i64 {
        let mut buf = Vec::new();
        write_varint(&mut buf, v as i32).unwrap();
        assert!(buf.len() >= 1 && buf.len() <= 5);
        buf.push(0x55);
        let mut r = Reader::new(&buf);
        assert_eq!(read::<Varint>(&mut r), Ok(Varint(v as i32)));
        assert_eq!(r.rest(), &[0x55]);
        v += 65521;
    }
}

#[test]
fn varint_drops_the_bits_of_a_fifth_byte_beyond_the_thirty_second() {
    let bytes = [0xff, 0xff, 0xff, 0xff, 0x7f];
    assert_eq!(read::<Varint>(&mut Reader::new(&bytes)), Ok(Varint(-1)));
}

#[test]
fn varint_reads_a_padded_form() {
    let bytes = [0x80, 0x00];
    let mut r = Reader::new(&bytes);
    assert_eq!(read::<Varint>(&mut r), Ok(Varint(0)));
    assert_eq!(r.remaining(), 0);
}

#[test]
fn short_varint_is_unexpected_eof() {
    assert_eq!(read::<Varint>(&mut Reader::new(&[])), Err(ProtocolError::UnexpectedEof));
    let bytes = [0x80, 0x80, 0x80, 0x80];
    let mut r = Reader::new(&bytes);
    assert_eq!(read::<Varint>(&mut r), Err(ProtocolError::UnexpectedEof));
    assert_eq!(r.remaining(), 4);
}

#[test]
fn pairs_are_read_and_written_in_order() {
    let pair: (u16, (bool, String)) = (0x0102, (true, "x".to_string()));
    let buf = written(pair.clone());
    assert_eq!(buf, vec![1, 2, 1, 1, b'x']);
    assert_eq!(read::<(u16, (bool, String))>(&mut Reader::new(&buf)), Ok(pair));
    let mut r = Reader::new(&buf[..4]);
    assert_eq!(read::<(u16, (bool, String))>(&mut r), Err(ProtocolError::UnexpectedEof));
    assert_eq!(r.remaining(), 4);
    assert_eq!(written(()), Vec::<u8>::new());
}

#[test]
fn a_pair_that_cannot_be_written_leaves_the_sink_as_it_was() {
    let pair: (u16, String) = (7, "a".repeat(40000));
    let mut buf = vec![1u8, 2];
    assert_eq!(pair.write(&mut buf), Err(ProtocolError::ValueTooLarge));
    assert_eq!(buf, vec![1u8, 2]);
}
