use mc_protocol::types::bool::{decode_value, encode_value};
use mc_protocol::{Bool, Byte, Packet, PacketReader, PacketWriter, ReadError, VarInt};
use std::io::ErrorKind;

#[test]
fn bool_decoding_is_generous() {
    assert!(decode_value(0x05));
    assert!(decode_value(0x01));
    assert!(decode_value(0xFF));
    assert!(!decode_value(0x00));
}

#[test]
fn bool_encoding_is_strict() {
    assert_eq!(encode_value(true), 0x01);
    assert_eq!(encode_value(false), 0x00);
    let wire: u8 = Bool::from(0x05u8).into();
    assert_eq!(wire, 0x01);
}

#[test]
fn bool_round_trips() {
    for value in [true, false].iter() {
        assert_eq!(decode_value(encode_value(*value)), *value);
    }
}

#[test]
fn bool_conversions() {
    assert_eq!(Bool::new(true), Bool::from(true));
    assert_eq!(Bool::from(0x05u8), Bool::new(true));
    assert_eq!(Bool::from(0x00u8), Bool::new(false));
    let plain: bool = Bool::new(true).into();
    assert!(plain);
    let wire: u8 = Bool::new(false).into();
    assert_eq!(wire, 0);
}

#[test]
fn bool_access() {
    let mut value = Bool::new(false);
    assert!(!value.get());
    assert!(!*value);
    *value = true;
    assert!(value.get());
    value.set(false);
    assert_eq!(value, Bool::new(false));
}

#[test]
fn byte_is_the_raw_byte_in_twos_complement() {
    for value in i8::MIN..=i8::MAX {
        let raw: u8 = Byte::new(value).into();
        assert_eq!(raw, value.to_le_bytes()[0]);
        let back: i8 = Byte::from(raw).into();
        assert_eq!(back, value);
    }
    let raw: u8 = Byte::new(-1).into();
    assert_eq!(raw, 0xFF);
    let raw: u8 = Byte::new(-128).into();
    assert_eq!(raw, 0x80);
    let raw: u8 = Byte::new(127).into();
    assert_eq!(raw, 0x7F);
}

#[test]
fn byte_conversions() {
    assert_eq!(Byte::from(0xFFu8), Byte::new(-1));
    assert_eq!(Byte::from(0x80u8), Byte::new(-128));
    assert_eq!(Byte::from(0x7Fu8), Byte::new(127));
    assert_eq!(Byte::from(-5i8), Byte::new(-5));
    for raw in 0..=u8::MAX {
        let back: u8 = Byte::from(raw).into();
        assert_eq!(back, raw);
    }
}

#[test]
fn byte_access() {
    let mut value = Byte::new(5);
    assert_eq!(value.get(), 5);
    *value += 10;
    assert_eq!(*value, 15);
    value.set(-15);
    assert_eq!(value, Byte::new(-15));
}

#[test]
fn slice_hands_out_its_bytes_in_order() {
    let bytes: Vec<u8> = vec![0x05, 0x00, 0xFE, 0x01];
    let mut source = bytes.as_slice();
    assert_eq!(source.read_bool().unwrap(), Bool::new(true));
    assert_eq!(source.read_bool().unwrap(), Bool::new(false));
    assert_eq!(source.read_byte().unwrap(), Byte::new(-2));
    assert_eq!(source, &[0x01]);
    assert_eq!(source.read_byte().unwrap(), Byte::new(1));
    assert!(source.is_empty());
}

#[test]
fn empty_slice_fails_and_gives_no_value() {
    let bytes: Vec<u8> = Vec::new();
    let mut source = bytes.as_slice();
    match source.read_bool() {
        Err(error) => assert_eq!(error.kind(), ErrorKind::UnexpectedEof),
        Ok(value) => panic!("expected an error, got {:?}", value),
    }
    match source.read_byte() {
        Err(error) => assert_eq!(error.kind(), ErrorKind::UnexpectedEof),
        Ok(value) => panic!("expected an error, got {:?}", value),
    }
}

#[test]
fn vec_takes_bytes_at_its_end() {
    let mut sink: Vec<u8> = vec![0xAA];
    assert_eq!(sink.write_bool(Bool::new(true)).unwrap(), 1);
    assert_eq!(sink.write_bool(Bool::new(false)).unwrap(), 1);
    assert_eq!(sink.write_byte(Byte::new(-1)).unwrap(), 1);
    assert_eq!(sink.write_byte(Byte::new(16)).unwrap(), 1);
    assert_eq!(sink, vec![0xAA, 0x01, 0x00, 0xFF, 0x10]);
}

#[test]
fn read_error_wraps_an_io_error() {
    let error = ReadError::from(std::io::Error::from(ErrorKind::ConnectionReset));
    match error {
        ReadError::Io(inner) => assert_eq!(inner.kind(), ErrorKind::ConnectionReset),
        ReadError::TooBig => panic!("expected the i/o error"),
    }
}

#[test]
fn packet_keeps_its_parts() {
    let packet = Packet::new(VarInt::new(3), VarInt::new(0x10), vec![1u8, 2]);
    assert_eq!(packet.length().val, 3);
    assert_eq!(packet.packet_id().val, 0x10);
    assert_eq!(packet.data(), &vec![1u8, 2]);
    let (length, packet_id, data) = packet.into_parts();
    assert_eq!(length.val, 3);
    assert_eq!(packet_id.val, 0x10);
    assert_eq!(data, vec![1u8, 2]);
}
