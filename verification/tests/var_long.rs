use mc_protocol::{ReadError, VarLong, VarLongDecoder};
use std::io::ErrorKind;

#[test]
fn var_long_from_and_deref() {
    let mut val: VarLong = 1337i64.into();
    assert_eq!(1337, val.val);
    *val += 10;
    assert_eq!(1347, val.val);
    assert_eq!(*val, 1347);
    val.set(i64::MIN);
    assert_eq!(val.get(), i64::MIN);
}

#[test]
fn var_long_write_and_read() {
    let val: VarLong = 1234567890123i64.into();
    let mut buf = Vec::new();

    assert_eq!(val.write(&mut buf).unwrap(), buf.len());

    let new_val = VarLong::read(&mut buf.as_slice());

    assert!(new_val.is_ok());
    assert_eq!(val.val, new_val.unwrap().val);
}

#[test]
fn var_long_boundary_encodings() {
    assert_eq!(VarLong::new(0).write_to_vec(), vec![0x00]);
    assert_eq!(VarLong::new(127).write_to_vec(), vec![0x7F]);
    assert_eq!(VarLong::new(128).write_to_vec(), vec![0x80, 0x01]);
    assert_eq!(VarLong::new(300).write_to_vec(), vec![0xAC, 0x02]);
    assert_eq!(
        VarLong::new(2147483647).write_to_vec(),
        vec![0xFF, 0xFF, 0xFF, 0xFF, 0x07]
    );
    assert_eq!(
        VarLong::new(i64::MAX).write_to_vec(),
        vec![0xFF, 0xFF, 0xFF, 0xFF, 0xFF, 0xFF, 0xFF, 0xFF, 0x7F]
    );
    assert_eq!(
        VarLong::new(-1).write_to_vec(),
        vec![0xFF, 0xFF, 0xFF, 0xFF, 0xFF, 0xFF, 0xFF, 0xFF, 0xFF, 0x01]
    );
    assert_eq!(
        VarLong::new(-2147483648).write_to_vec(),
        vec![0x80, 0x80, 0x80, 0x80, 0xF8, 0xFF, 0xFF, 0xFF, 0xFF, 0x01]
    );
    assert_eq!(
        VarLong::new(i64::MIN).write_to_vec(),
        vec![0x80, 0x80, 0x80, 0x80, 0x80, 0x80, 0x80, 0x80, 0x80, 0x01]
    );
}

#[test]
fn var_long_length_is_between_one_and_ten() {
    assert_eq!(VarLong::new(0).write_to_vec().len(), 1);
    let samples = [
        0i64,
        127,
        128,
        34359738367,
        34359738368,
        i64::MAX,
        -1,
        i64::MIN,
    ];
    let expected = [1, 1, 2, 5, 6, 9, 10, 10];
    for (value, len) in samples.iter().zip(expected.iter()) {
        assert_eq!(VarLong::new(*value).write_to_vec().len(), *len);
    }
}

#[test]
fn var_long_round_trips() {
    let samples = [
        0i64,
        1,
        -1,
        127,
        128,
        300,
        2147483647,
        -2147483648,
        4294967296,
        1234567890123456789,
        -1234567890123456789,
        i64::MAX,
        i64::MIN,
    ];
    for value in samples.iter() {
        let bytes = VarLong::new(*value).write_to_vec();
        let mut source = bytes.as_slice();
        let back = VarLong::read(&mut source).unwrap();
        assert_eq!(back.val, *value);
        assert!(source.is_empty());
    }
}

#[test]
fn var_long_read_stops_at_the_end_of_the_number() {
    let bytes: Vec<u8> = vec![0x80, 0x01, 0xFF];
    let mut source = bytes.as_slice();
    assert_eq!(VarLong::read(&mut source).unwrap().val, 128);
    assert_eq!(source, &[0xFF]);
}

#[test]
fn var_long_of_ten_bytes_is_valid() {
    let bytes: Vec<u8> = vec![0xFF, 0xFF, 0xFF, 0xFF, 0xFF, 0xFF, 0xFF, 0xFF, 0xFF, 0x01];
    let mut source = bytes.as_slice();
    assert_eq!(VarLong::read(&mut source).unwrap().val, -1);
}

#[test]
fn var_long_drops_bits_beyond_the_width() {
    let bytes: Vec<u8> = vec![0x80, 0x80, 0x80, 0x80, 0x80, 0x80, 0x80, 0x80, 0x80, 0x7F];
    let mut source = bytes.as_slice();
    assert_eq!(VarLong::read(&mut source).unwrap().val, i64::MIN);
}

#[test]
fn var_long_of_eleven_continuing_bytes_is_too_big() {
    let bytes: Vec<u8> = vec![0x80; 11];
    let mut source = bytes.as_slice();
    assert!(matches!(VarLong::read(&mut source), Err(ReadError::TooBig)));
    assert!(source.is_empty());
}

#[test]
fn var_long_cut_off_is_an_io_error() {
    let bytes: Vec<u8> = vec![0x80; 10];
    let mut source = bytes.as_slice();
    match VarLong::read(&mut source) {
        Err(ReadError::Io(error)) => assert_eq!(error.kind(), ErrorKind::UnexpectedEof),
        other => panic!("expected an i/o error, got {:?}", other),
    }
    let empty: Vec<u8> = Vec::new();
    let mut source = empty.as_slice();
    assert!(matches!(VarLong::read(&mut source), Err(ReadError::Io(_))));
}

#[test]
fn var_long_decoder_takes_bytes_one_at_a_time() {
    let mut decoder = VarLongDecoder::new();
    for _ in 0..9 {
        assert!(matches!(decoder.push(0xFF), Ok(None)));
    }
    match decoder.push(0x01) {
        Ok(Some(value)) => assert_eq!(value.val, -1),
        other => panic!("expected a value, got {:?}", other),
    }
    for _ in 0..10 {
        assert!(matches!(decoder.push(0x80), Ok(None)));
    }
    assert!(matches!(decoder.push(0x00), Err(ReadError::TooBig)));
    match decoder.push(0x05) {
        Ok(Some(value)) => assert_eq!(value.val, 5),
        other => panic!("expected a value, got {:?}", other),
    }
}
