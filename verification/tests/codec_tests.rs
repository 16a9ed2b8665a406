use iota_ledger::codec::{pack_to_vec, ByteReader, Error, Packable, PackableObject, Unpackable};

fn round_trip_bytes<T: Packable>(value: &T) -> Vec<u8> {
    pack_to_vec(value).expect("packing must succeed")
}

#[test]
fn unit_packs_to_nothing() {
    let bytes = round_trip_bytes(&());
    assert_eq!(bytes, Vec::<u8>::new());
    assert_eq!(().packed_len(), 0);
    let mut r = ByteReader::new(Vec::new());
    let v: () = <()>::unpack(&mut r).unwrap();
    assert_eq!(v, ());
}

#[test]
fn u8_round_trip() {
    for x in [0u8, 1, 0x7f, 0x80, 0xff] {
        let bytes = round_trip_bytes(&x);
        assert_eq!(bytes, vec![x]);
        let mut r = ByteReader::new(bytes);
        assert_eq!(u8::unpack(&mut r).unwrap(), x);
    }
}

#[test]
fn i8_round_trip() {
    for x in [i8::MIN, -1, 0, 1, i8::MAX] {
        let bytes = round_trip_bytes(&x);
        let mut r = ByteReader::new(bytes);
        assert_eq!(i8::unpack(&mut r).unwrap(), x);
    }
}

#[test]
fn u16_round_trip_little_endian() {
    let bytes = round_trip_bytes(&0x1234u16);
    assert_eq!(bytes, vec![0x34, 0x12]);
    for x in [0u16, 1, 0x00ff, 0xff00, u16::MAX] {
        let mut r = ByteReader::new(round_trip_bytes(&x));
        assert_eq!(u16::unpack(&mut r).unwrap(), x);
    }
}

#[test]
fn i16_round_trip() {
    for x in [i16::MIN, -2, 0, 7, i16::MAX] {
        let mut r = ByteReader::new(round_trip_bytes(&x));
        assert_eq!(i16::unpack(&mut r).unwrap(), x);
    }
}

#[test]
fn u32_round_trip_little_endian() {
    let bytes = round_trip_bytes(&0xdeadbeefu32);
    assert_eq!(bytes, vec![0xef, 0xbe, 0xad, 0xde]);
    for x in [0u32, 1, 0xffff, u32::MAX] {
        let mut r = ByteReader::new(round_trip_bytes(&x));
        assert_eq!(u32::unpack(&mut r).unwrap(), x);
    }
}

#[test]
fn i32_round_trip() {
    for x in [i32::MIN, -1, 0, 42, i32::MAX] {
        let mut r = ByteReader::new(round_trip_bytes(&x));
        assert_eq!(i32::unpack(&mut r).unwrap(), x);
    }
}

#[test]
fn u64_round_trip() {
    for x in [0u64, 1, 0xdead_beef_cafe_f00d, u64::MAX] {
        let bytes = round_trip_bytes(&x);
        assert_eq!(bytes.len(), 8);
        let mut r = ByteReader::new(bytes);
        assert_eq!(u64::unpack(&mut r).unwrap(), x);
    }
}

#[test]
fn i64_round_trip() {
    for x in [i64::MIN, -5, 0, 5, i64::MAX] {
        let mut r = ByteReader::new(round_trip_bytes(&x));
        assert_eq!(i64::unpack(&mut r).unwrap(), x);
    }
}

#[test]
fn u128_round_trip() {
    for x in [0u128, 1, u64::MAX as u128 + 1, u128::MAX] {
        let bytes = round_trip_bytes(&x);
        assert_eq!(bytes.len(), 16);
        let mut r = ByteReader::new(bytes);
        assert_eq!(u128::unpack(&mut r).unwrap(), x);
    }
}

#[test]
fn i128_round_trip() {
    for x in [i128::MIN, -1, 0, 1, i128::MAX] {
        let mut r = ByteReader::new(round_trip_bytes(&x));
        assert_eq!(i128::unpack(&mut r).unwrap(), x);
    }
}

#[test]
fn short_read_is_io_error() {
    let mut r = ByteReader::new(vec![0x01]);
    assert_eq!(u32::unpack(&mut r), Err(Error::Io));
    let mut r = ByteReader::new(Vec::new());
    assert_eq!(u8::unpack(&mut r), Err(Error::Io));
}

#[test]
fn string_round_trip() {
    for s in ["", "IOTA", "hello world", "héllo ☃"] {
        let value = s.to_string();
        let bytes = round_trip_bytes(&value);
        assert_eq!(bytes[0] as usize, s.as_bytes().len());
        assert_eq!(&bytes[1..], s.as_bytes());
        assert_eq!(value.packed_len(), bytes.len());
        let mut r = ByteReader::new(bytes);
        assert_eq!(String::unpack(&mut r).unwrap(), value);
    }
}

#[test]
fn string_round_trip_at_length_limit() {
    let s = "a".repeat(255);
    let bytes = round_trip_bytes(&s);
    assert_eq!(bytes.len(), 256);
    let mut r = ByteReader::new(bytes);
    assert_eq!(String::unpack(&mut r).unwrap(), s);
}

#[test]
fn overlong_string_fails_with_string_too_long() {
    let s = "a".repeat(256);
    assert_eq!(pack_to_vec(&s), Err(Error::StringTooLong));
    // multi-byte characters count by their encoded bytes
    let snowmen = "☃".repeat(86); // 258 bytes
    assert_eq!(pack_to_vec(&snowmen), Err(Error::StringTooLong));
}

#[test]
fn invalid_utf8_fails_decoding() {
    let mut data = vec![2u8, 0xff, 0xfe];
    let mut r = ByteReader::new(std::mem::take(&mut data));
    assert_eq!(String::unpack(&mut r), Err(Error::InvalidUtf8String));
}

#[test]
fn string_with_truncated_body_is_io_error() {
    let data = vec![5u8, b'a', b'b'];
    let mut r = ByteReader::new(data);
    assert_eq!(String::unpack(&mut r), Err(Error::Io));
}

#[test]
fn unpack_leaves_cursor_after_encoding() {
    let mut bytes = round_trip_bytes(&0x0102u16);
    bytes.extend_from_slice(&[9, 9, 9]);
    let mut r = ByteReader::new(bytes);
    assert_eq!(u16::unpack(&mut r).unwrap(), 0x0102);
    assert_eq!(r.remaining_len(), 3);
}

#[test]
fn pack_as_vec_matches_pack() {
    let value = 0xabcdu16;
    assert_eq!(value.pack_as_vec().unwrap(), pack_to_vec(&value).unwrap());
}
