use dwarf_x86::varint::decode_signed;
use dwarf_x86::varint::decode_unsigned;
use dwarf_x86::varint::encode_signed;
use dwarf_x86::varint::encode_unsigned;

#[test]
fn unsigned_round_trip_samples() {
    for n in [0u64, 1, 63, 64, 127, 128, 300, 624485, 1 << 56, u64::MAX] {
        let e = encode_unsigned(n);
        let (v, used) = decode_unsigned(&e).expect("encoding must decode");
        assert_eq!(v, n);
        assert_eq!(used, e.len());
        assert!(e.len() <= 10);
    }
}

#[test]
fn signed_round_trip_samples() {
    for n in [0i64, 1, -1, 63, -64, 64, -65, 127, -128, -123456, i64::MIN, i64::MAX] {
        let e = encode_signed(n);
        let (v, used) = decode_signed(&e).expect("encoding must decode");
        assert_eq!(v, n);
        assert_eq!(used, e.len());
        assert!(e.len() <= 10);
    }
}

#[test]
fn unsigned_known_encodings() {
    assert_eq!(encode_unsigned(0), vec![0x00]);
    assert_eq!(encode_unsigned(127), vec![0x7f]);
    assert_eq!(encode_unsigned(128), vec![0x80, 0x01]);
    assert_eq!(encode_unsigned(624485), vec![0xe5, 0x8e, 0x26]);
}

#[test]
fn signed_known_encodings() {
    assert_eq!(encode_signed(0), vec![0x00]);
    assert_eq!(encode_signed(-1), vec![0x7f]);
    assert_eq!(encode_signed(63), vec![0x3f]);
    assert_eq!(encode_signed(-64), vec![0x40]);
    assert_eq!(encode_signed(64), vec![0xc0, 0x00]);
    assert_eq!(encode_signed(-123456), vec![0xc0, 0xbb, 0x78]);
}

#[test]
fn unsigned_decode_failures() {
    assert!(decode_unsigned(&[]).is_none());
    // the buffer ends while the continuation bit is still set
    assert!(decode_unsigned(&[0x80]).is_none());
    assert!(decode_unsigned(&[0xff, 0xff]).is_none());
    // the encoding runs past ten bytes
    assert!(decode_unsigned(&[0x80; 11]).is_none());
    assert!(decode_unsigned(&[0x80, 0x80, 0x80, 0x80, 0x80, 0x80, 0x80, 0x80, 0x80, 0x80, 0x00])
        .is_none());
    // the value does not fit in sixty-four bits
    assert!(decode_unsigned(&[0xff, 0xff, 0xff, 0xff, 0xff, 0xff, 0xff, 0xff, 0xff, 0x02])
        .is_none());
}

#[test]
fn unsigned_decode_boundaries() {
    // the largest value: nine full chunks and a final bit
    assert_eq!(
        decode_unsigned(&[0xff, 0xff, 0xff, 0xff, 0xff, 0xff, 0xff, 0xff, 0xff, 0x01]),
        Some((u64::MAX, 10))
    );
    // zero padded to exactly ten bytes still decodes
    assert_eq!(
        decode_unsigned(&[0x80, 0x80, 0x80, 0x80, 0x80, 0x80, 0x80, 0x80, 0x80, 0x00]),
        Some((0, 10))
    );
    // trailing bytes beyond the encoding are ignored
    assert_eq!(decode_unsigned(&[0x07, 0xff]), Some((7, 1)));
}

#[test]
fn signed_decode_failures() {
    assert!(decode_signed(&[]).is_none());
    assert!(decode_signed(&[0x80]).is_none());
    assert!(decode_signed(&[0x80; 11]).is_none());
    // out of the sixty-four-bit signed range on either side
    assert!(decode_signed(&[0xff, 0xff, 0xff, 0xff, 0xff, 0xff, 0xff, 0xff, 0xff, 0x01])
        .is_none());
    assert!(decode_signed(&[0x80, 0x80, 0x80, 0x80, 0x80, 0x80, 0x80, 0x80, 0x80, 0x40])
        .is_none());
}

#[test]
fn signed_decode_boundaries() {
    assert_eq!(decode_signed(&[0x7f]), Some((-1, 1)));
    assert_eq!(decode_signed(&[0x3f]), Some((63, 1)));
    assert_eq!(decode_signed(&[0x40]), Some((-64, 1)));
    // the extremes of the sixty-four-bit signed range
    assert_eq!(
        decode_signed(&[0x80, 0x80, 0x80, 0x80, 0x80, 0x80, 0x80, 0x80, 0x80, 0x7f]),
        Some((i64::MIN, 10))
    );
    assert_eq!(
        decode_signed(&[0xff, 0xff, 0xff, 0xff, 0xff, 0xff, 0xff, 0xff, 0xff, 0x00]),
        Some((i64::MAX, 10))
    );
    assert_eq!(decode_signed(&[0x02, 0x99]), Some((2, 1)));
}
