use vector_state::{size_32, size_64, DecodeError, Varint, VarintDecoder};

fn encoded<T: Varint>(x: T) -> Vec<u8> {
    let mut v = Vec::new();
    x.serialize(&mut v);
    v
}

#[test]
fn size_32_thresholds() {
    assert_eq!(size_32(0), 1);
    assert_eq!(size_32(127), 1);
    assert_eq!(size_32(128), 2);
    assert_eq!(size_32(16383), 2);
    assert_eq!(size_32(16384), 3);
    assert_eq!(size_32(2097151), 3);
    assert_eq!(size_32(2097152), 4);
    assert_eq!(size_32(268435455), 4);
    assert_eq!(size_32(268435456), 5);
    assert_eq!(size_32(i32::MAX), 5);
    assert_eq!(size_32(-1), 5);
    assert_eq!(size_32(i32::MIN), 5);
}

#[test]
fn size_64_thresholds() {
    assert_eq!(size_64(0), 1);
    assert_eq!(size_64(127), 1);
    assert_eq!(size_64(128), 2);
    assert_eq!(size_64((1 << 14) - 1), 2);
    assert_eq!(size_64(1 << 14), 3);
    assert_eq!(size_64(1 << 21), 4);
    assert_eq!(size_64(1 << 28), 5);
    assert_eq!(size_64((1 << 35) - 1), 5);
    assert_eq!(size_64(1 << 35), 6);
    assert_eq!(size_64(1 << 42), 7);
    assert_eq!(size_64(1 << 49), 8);
    assert_eq!(size_64((1 << 56) - 1), 8);
    assert_eq!(size_64(1 << 56), 9);
    assert_eq!(size_64(i64::MAX), 9);
    assert_eq!(size_64(-1), 10);
    assert_eq!(size_64(i64::MIN), 10);
}

#[test]
fn unsigned_encodings() {
    assert_eq!(encoded(0u8), vec![0x00]);
    assert_eq!(encoded(1u8), vec![0x01]);
    assert_eq!(encoded(127u8), vec![0x7f]);
    assert_eq!(encoded(128u8), vec![0x80, 0x01]);
    assert_eq!(encoded(255u8), vec![0xff, 0x01]);
    assert_eq!(encoded(300u16), vec![0xac, 0x02]);
    assert_eq!(encoded(u16::MAX), vec![0xff, 0xff, 0x03]);
    assert_eq!(encoded(150u32), vec![0x96, 0x01]);
    assert_eq!(encoded(u32::MAX), vec![0xff, 0xff, 0xff, 0xff, 0x0f]);
    assert_eq!(encoded(u64::MAX), vec![0xff, 0xff, 0xff, 0xff, 0xff, 0xff, 0xff, 0xff, 0xff, 0x01]);
}

#[test]
fn signed_encodings_are_zigzag() {
    assert_eq!(encoded(0i8), vec![0x00]);
    assert_eq!(encoded(-1i8), vec![0x01]);
    assert_eq!(encoded(1i8), vec![0x02]);
    assert_eq!(encoded(-2i8), vec![0x03]);
    assert_eq!(encoded(127i8), vec![0xfe, 0x01]);
    assert_eq!(encoded(-128i8), vec![0xff, 0x01]);
    assert_eq!(encoded(100i32), vec![0xc8, 0x01]);
    assert_eq!(encoded(-64i16), vec![0x7f]);
    assert_eq!(encoded(i32::MIN), vec![0xff, 0xff, 0xff, 0xff, 0x0f]);
    assert_eq!(encoded(i64::MIN), vec![0xff, 0xff, 0xff, 0xff, 0xff, 0xff, 0xff, 0xff, 0xff, 0x01]);
}

#[test]
fn serialize_appends() {
    let mut v = vec![9u8, 9];
    300u32.serialize(&mut v);
    assert_eq!(v, vec![9, 9, 0xac, 0x02]);
}

#[test]
fn unsigned_size_is_encoded_length() {
    for x in [0u64, 1, 127, 128, 300, 1 << 20, 1 << 40, 1 << 62, u64::MAX] {
        assert_eq!(x.size() as usize, encoded(x).len());
    }
    for x in [0u32, 127, 128, u32::MAX, 1 << 31] {
        assert_eq!(x.size() as usize, encoded(x).len());
    }
    assert_eq!(200u8.size(), 2);
    assert_eq!(u16::MAX.size(), 3);
}

#[test]
fn signed_size_counts_twos_complement_bits() {
    // The size of a signed value is that of its bits read unsigned, not
    // that of its zigzag encoding.
    assert_eq!((-1i8).size(), 2);
    assert_eq!(encoded(-1i8).len(), 1);
    assert_eq!((-1i32).size(), 5);
    assert_eq!((-1i64).size(), 10);
    assert_eq!(5i32.size(), 1);
    assert_eq!(64i8.size(), 1);
    assert_eq!(encoded(64i8).len(), 2);
}

#[test]
fn unsigned_roundtrip() {
    for x in [0u8, 1, 127, 128, 255] {
        let mut v = encoded(x);
        let n = v.len();
        v.extend_from_slice(&[0x80, 0x05]);
        assert_eq!(u8::deserialize(&v), Ok((x, n)));
    }
    for x in [0u16, 300, u16::MAX] {
        assert_eq!(u16::deserialize(&encoded(x)), Ok((x, encoded(x).len())));
    }
    for x in [0u32, 150, 1 << 31, u32::MAX] {
        assert_eq!(u32::deserialize(&encoded(x)), Ok((x, encoded(x).len())));
    }
    for x in [0u64, 150, 1 << 63, u64::MAX] {
        assert_eq!(u64::deserialize(&encoded(x)), Ok((x, encoded(x).len())));
    }
}

#[test]
fn signed_roundtrip_in_range() {
    for x in [0i8, 1, -1, 63, -64] {
        assert_eq!(i8::deserialize(&encoded(x)), Ok((x, encoded(x).len())));
    }
    for x in [0i16, 300, -300, 16383, -16384] {
        assert_eq!(i16::deserialize(&encoded(x)), Ok((x, encoded(x).len())));
    }
    for x in [0i32, 100, -100, (1 << 30) - 1, -(1 << 30)] {
        assert_eq!(i32::deserialize(&encoded(x)), Ok((x, encoded(x).len())));
    }
    for x in [0i64, 1 << 40, -(1 << 40), (1 << 62) - 1, -(1 << 62)] {
        assert_eq!(i64::deserialize(&encoded(x)), Ok((x, encoded(x).len())));
    }
}

#[test]
fn signed_outside_half_range_does_not_come_back() {
    // The signed reader shifts the raw bits as a signed number.
    assert_eq!(i8::deserialize(&encoded(127i8)), Ok((-1, 2)));
    assert_eq!(i8::deserialize(&encoded(64i8)), Ok((-64, 2)));
    assert_eq!(i8::deserialize(&encoded(-128i8)), Ok((0, 2)));
    assert_eq!(i32::deserialize(&encoded(i32::MAX)), Ok((-1, 5)));
}

#[test]
fn decode_wraps_to_width() {
    // Two bytes for a u8: the second group lands at bit 7.
    assert_eq!(u8::deserialize(&[0xff, 0x7f]), Ok((0xff, 2)));
    assert_eq!(u8::deserialize(&[0x80, 0x02]), Ok((0, 2)));
    // The tenth byte of a u64 contributes only its lowest bit.
    let bytes = [0x80, 0x80, 0x80, 0x80, 0x80, 0x80, 0x80, 0x80, 0x80, 0x7f];
    assert_eq!(u64::deserialize(&bytes), Ok((1 << 63, 10)));
}

#[test]
fn decode_stops_at_first_clear_high_bit() {
    assert_eq!(u32::deserialize(&[0x01, 0xff, 0xff]), Ok((1, 1)));
    assert_eq!(u32::deserialize(&[0x81, 0x00]), Ok((1, 2)));
}

#[test]
fn decode_end_of_input() {
    assert_eq!(u32::deserialize(&[]), Err(DecodeError::UnexpectedEof));
    assert_eq!(u32::deserialize(&[0x80, 0x80]), Err(DecodeError::UnexpectedEof));
    assert_eq!(u8::deserialize(&[0x80, 0x80]), Err(DecodeError::UnexpectedEof));
    assert_eq!(i64::deserialize(&[0xff; 10]), Err(DecodeError::UnexpectedEof));
}

#[test]
fn decoder_fed_byte_by_byte() {
    let mut d = VarintDecoder::new(32);
    assert!(d.can_feed());
    assert_eq!(d.feed(0xac), None);
    assert!(d.can_feed());
    assert_eq!(d.feed(0x02), Some(300));
    assert_eq!(u32::from_raw(300), 300);
    assert_eq!(i32::from_raw(3), -2);
}

#[test]
fn decoder_refuses_past_width() {
    let mut d = u8::decoder();
    assert_eq!(d.feed(0x80), None);
    assert!(d.can_feed());
    assert_eq!(d.feed(0x80), None);
    assert!(!d.can_feed());
    let mut d = u64::decoder();
    for _ in 0..9 {
        assert_eq!(d.feed(0xff), None);
    }
    assert!(d.can_feed());
    assert_eq!(d.feed(0xff), None);
    assert!(!d.can_feed());
}
