use dtp::varint::decode_varint;
use dtp::varint::encode_varint;
use dtp::varint::VARINT_MAX;

fn round_trip(v: u64, expected_len: usize) {
    let mut out: Vec<u8> = Vec::new();
    encode_varint(v, &mut out);
    assert_eq!(out.len(), expected_len);
    let r = decode_varint(&out, 0);
    assert_eq!(r, Some((v, expected_len)));
}

#[test]
fn varint_round_trip_one_byte() {
    round_trip(0, 1);
    round_trip(1, 1);
    round_trip(0x3F, 1);
}

#[test]
fn varint_round_trip_two_bytes() {
    round_trip(0x40, 2);
    round_trip(0x1234, 2);
    round_trip(0x3FFF, 2);
}

#[test]
fn varint_round_trip_four_bytes() {
    round_trip(0x4000, 4);
    round_trip(0x1234_5678 & 0x3FFF_FFFF, 4);
    round_trip(0x3FFF_FFFF, 4);
}

#[test]
fn varint_round_trip_eight_bytes() {
    round_trip(0x4000_0000, 8);
    round_trip(0x0123_4567_89AB_CDEF & VARINT_MAX, 8);
    round_trip(VARINT_MAX, 8);
}

#[test]
fn varint_known_encoding() {
    // RFC example: 37 in one byte, 15293 in two bytes.
    let mut out: Vec<u8> = Vec::new();
    encode_varint(37, &mut out);
    assert_eq!(out, vec![0x25]);
    let mut out2: Vec<u8> = Vec::new();
    encode_varint(15293, &mut out2);
    assert_eq!(out2, vec![0x7B, 0xBD]);
}

#[test]
fn varint_decode_truncated() {
    // A two-byte encoding cut to one byte cannot be read.
    let mut out: Vec<u8> = Vec::new();
    encode_varint(0x1234, &mut out);
    assert_eq!(decode_varint(&out[..1], 0), None);
    assert_eq!(decode_varint(&[], 0), None);
}

#[test]
fn varint_decode_at_offset() {
    let mut out: Vec<u8> = Vec::new();
    out.push(0xFF);
    encode_varint(300, &mut out);
    let r = decode_varint(&out, 1);
    assert_eq!(r, Some((300, 2)));
}
