use mcrs::error::ProtocolError;
use mcrs::net::packet::{
    frame_length, read_payload, read_payload_exact, write_packet, RawPacket, MAX_PACKET_BYTES,
};
use mcrs::net::proto::{read, write_varint, ProtoSerializable, Reader};

fn frame(packet_id: i32, data: &[u8]) -> Vec<u8> {
    let mut buf = Vec::new();
    RawPacket { packet_id, data: data.to_vec() }.write(&mut buf).unwrap();
    buf
}

#[test]
fn frame_is_length_then_discriminator_then_payload() {
    assert_eq!(frame(0x26, &[1, 2, 3]), vec![4, 0x26, 1, 2, 3]);
    assert_eq!(frame(0, &[]), vec![1, 0]);
    // a discriminator of two bytes counts as two
    assert_eq!(frame(300, &[9]), vec![3, 0xac, 0x02, 9]);
}

#[test]
fn frame_reads_back_and_leaves_what_follows() {
    let mut bytes = frame(0x11, &[5, 6, 7, 8]);
    bytes.extend_from_slice(&[0xaa, 0xbb]);
    let mut r = Reader::new(&bytes);
    let raw = read::<RawPacket>(&mut r).unwrap();
    assert_eq!(raw, RawPacket { packet_id: 0x11, data: vec![5, 6, 7, 8] });
    assert_eq!(r.rest(), &[0xaa, 0xbb]);
}

#[test]
fn payload_length_is_frame_length_less_the_discriminator() {
    let bytes = [6u8, 0xac, 0x02, 1, 2, 3, 4];
    let raw = read::<RawPacket>(&mut Reader::new(&bytes)).unwrap();
    assert_eq!(raw.packet_id, 300);
    assert_eq!(raw.data.len(), 6 - 2);
}

#[test]
fn declared_length_over_two_mib_is_refused_before_any_byte_of_the_frame() {
    let mut bytes = Vec::new();
    write_varint(&mut bytes, 2 * 1024 * 1024 + 1).unwrap();
    // nothing behind the length: the length alone decides
    let mut r = Reader::new(&bytes);
    assert_eq!(read::<RawPacket>(&mut r), Err(ProtocolError::FrameTooLarge));
    assert_eq!(r.remaining(), bytes.len());
    let mut bytes = Vec::new();
    write_varint(&mut bytes, i32::MAX).unwrap();
    bytes.extend_from_slice(&[0, 1, 2]);
    assert_eq!(read::<RawPacket>(&mut Reader::new(&bytes)), Err(ProtocolError::FrameTooLarge));
}

#[test]
fn negative_declared_frame_length_is_refused() {
    let mut bytes = Vec::new();
    write_varint(&mut bytes, -1).unwrap();
    bytes.extend_from_slice(&[0, 1, 2]);
    assert_eq!(read::<RawPacket>(&mut Reader::new(&bytes)), Err(ProtocolError::FrameTooLarge));
    let mut bytes = Vec::new();
    write_varint(&mut bytes, i32::MIN).unwrap();
    assert_eq!(read::<RawPacket>(&mut Reader::new(&bytes)), Err(ProtocolError::FrameTooLarge));
}

#[test]
fn declared_length_of_two_mib_is_accepted() {
    assert_eq!(MAX_PACKET_BYTES, 2 * 1024 * 1024);
    assert_eq!(frame_length(2 * 1024 * 1024), Ok(2 * 1024 * 1024));
    assert_eq!(frame_length(0), Ok(0));
    assert_eq!(frame_length(2 * 1024 * 1024 + 1), Err(ProtocolError::FrameTooLarge));
    assert_eq!(frame_length(-1), Err(ProtocolError::FrameTooLarge));
    let data = vec![7u8; 2 * 1024 * 1024 - 1];
    let bytes = frame(0, &data);
    let raw = read::<RawPacket>(&mut Reader::new(&bytes)).unwrap();
    assert_eq!(raw.data.len(), 2 * 1024 * 1024 - 1);
}

#[test]
fn truncated_frame_is_unexpected_eof_and_consumes_nothing() {
    let bytes = frame(0x11, &[5, 6, 7, 8]);
    for cut in 0..bytes.len() {
        let mut r = Reader::new(&bytes[..cut]);
        assert_eq!(read::<RawPacket>(&mut r), Err(ProtocolError::UnexpectedEof));
        assert_eq!(r.remaining(), cut);
    }
}

#[test]
fn empty_frame_has_no_discriminator() {
    let bytes = [0u8, 1, 2];
    assert_eq!(read::<RawPacket>(&mut Reader::new(&bytes)), Err(ProtocolError::UnexpectedEof));
    assert_eq!(RawPacket::from_body(&[]), Err(ProtocolError::UnexpectedEof));
}

#[test]
fn body_is_taken_apart() {
    assert_eq!(
        RawPacket::from_body(&[0x0f, 1, 2]),
        Ok(RawPacket { packet_id: 0x0f, data: vec![1, 2] })
    );
    assert_eq!(
        RawPacket::from_body(&[0x80, 0x80, 0x80, 0x80, 0x80, 0x01]),
        Err(ProtocolError::LengthOutOfRange)
    );
}

#[test]
fn typed_packet_is_framed_over_a_scratch_buffer() {
    let mut buf = vec![0xeeu8];
    write_packet(3, &"hi".to_string(), &mut buf).unwrap();
    assert_eq!(buf, vec![0xee, 4, 3, 2, b'h', b'i']);
    let too_long = "a".repeat(32768);
    assert_eq!(write_packet(3, &too_long, &mut buf), Err(ProtocolError::ValueTooLarge));
    assert_eq!(buf, vec![0xee, 4, 3, 2, b'h', b'i']);
}

#[test]
fn payload_reading_counts_what_is_left_over() {
    assert_eq!(read_payload::<u16>(&[1, 2, 3, 4, 5]), Ok((0x0102, 3)));
    assert_eq!(read_payload::<u16>(&[1, 2]), Ok((0x0102, 0)));
    assert_eq!(read_payload::<u16>(&[1]), Err(ProtocolError::UnexpectedEof));
    assert_eq!(read_payload_exact::<u16>(&[1, 2]), Ok(0x0102));
    assert_eq!(read_payload_exact::<u16>(&[1, 2, 3]), Err(ProtocolError::InvalidEncoding));
    assert_eq!(read_payload_exact::<u16>(&[1]), Err(ProtocolError::UnexpectedEof));
}
