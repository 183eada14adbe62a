use dtp::DtpError;
use dtp::frame::parse_frame;
use dtp::frame::ParseResult;
use dtp::frame::StreamFrame;
use dtp::frame::StreamFrameType;

fn wire_round_trip(f: StreamFrame) {
    let mut out: Vec<u8> = Vec::new();
    let n = f.to_bytes(&mut out);
    assert_eq!(n, out.len());
    match parse_frame(&out) {
        ParseResult::Done(g, c) => {
            assert_eq!(c, n);
            assert_eq!(g, f);
        },
        _ => panic!("expected a complete frame"),
    }
}

#[test]
fn frame_round_trip_dtp_config() {
    wire_round_trip(StreamFrame::DtpConfig { cfg_len: 0 });
    wire_round_trip(StreamFrame::DtpConfig { cfg_len: 3 });
    wire_round_trip(StreamFrame::DtpConfig { cfg_len: 70000 });
}

#[test]
fn frame_round_trip_block_info() {
    wire_round_trip(StreamFrame::BlockInfo { id: 0, size: 100, priority: 1, deadline: 10 });
    wire_round_trip(StreamFrame::BlockInfo {
        id: 123456,
        size: 0x3FFF_FFFF,
        priority: 0,
        deadline: 0x4000_0000,
    });
}

#[test]
fn frame_round_trip_block_data() {
    wire_round_trip(StreamFrame::BlockData { id: 7, data: vec![] });
    wire_round_trip(StreamFrame::BlockData { id: 7, data: vec![1, 2, 3, 4, 5] });
    wire_round_trip(StreamFrame::BlockData { id: 0x5000, data: vec![0xAB; 1000] });
}

#[test]
fn frame_round_trip_with_trailing_bytes() {
    let f = StreamFrame::BlockInfo { id: 2, size: 50, priority: 2, deadline: 5 };
    let mut out: Vec<u8> = Vec::new();
    let n = f.to_bytes(&mut out);
    out.extend_from_slice(&[9, 9, 9]);
    match parse_frame(&out) {
        ParseResult::Done(g, c) => {
            assert_eq!(c, n);
            assert_eq!(g, f);
        },
        _ => panic!("expected a complete frame"),
    }
}

#[test]
fn decode_unknown_frame_type_is_invalid() {
    // Kind 0x7 does not exist: invalid whatever the payload holds.
    assert_eq!(
        StreamFrame::from_bytes(0x7, 3, &[1, 2, 3]),
        Err(DtpError::InvalidFrame)
    );
    assert_eq!(StreamFrame::from_bytes(0x7, 0, &[]), Err(DtpError::InvalidFrame));
    let bytes = vec![0x07, 0x02, 0xAA, 0xBB];
    match parse_frame(&bytes) {
        ParseResult::Invalid => {},
        _ => panic!("expected an invalid frame"),
    }
}

#[test]
fn decode_reserved_frame_type_is_invalid() {
    assert_eq!(StreamFrame::from_bytes(0x0, 1, &[5]), Err(DtpError::InvalidFrame));
}

#[test]
fn decode_malformed_block_info_is_invalid() {
    // A block-info payload must hold exactly four integers.
    assert_eq!(StreamFrame::from_bytes(0x2, 3, &[1, 2, 3]), Err(DtpError::InvalidFrame));
    // Trailing garbage after the four integers is refused too.
    assert_eq!(
        StreamFrame::from_bytes(0x2, 5, &[1, 2, 3, 4, 5]),
        Err(DtpError::InvalidFrame)
    );
    assert_eq!(
        StreamFrame::from_bytes(0x2, 4, &[1, 2, 3, 4]),
        Ok(StreamFrame::BlockInfo { id: 1, size: 2, priority: 3, deadline: 4 })
    );
}

#[test]
fn parse_incomplete_frame_waits() {
    let f = StreamFrame::BlockData { id: 1, data: vec![1, 2, 3, 4] };
    let mut out: Vec<u8> = Vec::new();
    let n = f.to_bytes(&mut out);
    for cut in 0..n {
        match parse_frame(&out[..cut]) {
            ParseResult::Incomplete => {},
            _ => panic!("a cut frame must be incomplete"),
        }
    }
}

#[test]
fn encoding_is_type_length_payload() {
    let mut a: Vec<u8> = Vec::new();
    StreamFrame::DtpConfig { cfg_len: 3 }.to_bytes(&mut a);
    assert_eq!(a, vec![0x01, 0x01, 0x03]);

    let mut b: Vec<u8> = Vec::new();
    StreamFrame::BlockInfo { id: 1, size: 2, priority: 3, deadline: 4 }.to_bytes(&mut b);
    assert_eq!(b, vec![0x02, 0x04, 0x01, 0x02, 0x03, 0x04]);

    let mut c: Vec<u8> = Vec::new();
    StreamFrame::BlockData { id: 7, data: vec![0xAB] }.to_bytes(&mut c);
    assert_eq!(c, vec![0x03, 0x02, 0x07, 0xAB]);

    // The length prefix counts encoded bytes, not fields: a two-byte
    // integer widens the payload.
    let mut d: Vec<u8> = Vec::new();
    StreamFrame::DtpConfig { cfg_len: 0x40 }.to_bytes(&mut d);
    assert_eq!(d, vec![0x01, 0x02, 0x40, 0x40]);
}

#[test]
fn frame_type_wire_values() {
    assert_eq!(StreamFrameType::NONE.wire_value(), 0x0);
    assert_eq!(StreamFrameType::DTP_CONFIG.wire_value(), 0x1);
    assert_eq!(StreamFrameType::BLOCK_INFO.wire_value(), 0x2);
    assert_eq!(StreamFrameType::BLOCK_DATA.wire_value(), 0x3);
    assert_eq!(StreamFrameType::from_wire(0x2), Some(StreamFrameType::BLOCK_INFO));
    assert_eq!(StreamFrameType::from_wire(0x9), None);
}
