use dtp::DtpError;
use dtp::frame::StreamFrame;
use dtp::recv::Receiver;

fn encode(f: &StreamFrame) -> Vec<u8> {
    let mut out: Vec<u8> = Vec::new();
    f.to_bytes(&mut out);
    out
}

#[test]
fn receiver_reassembles_a_block() {
    let mut r = Receiver::new();
    let mut bytes = encode(&StreamFrame::BlockInfo { id: 1, size: 5, priority: 0, deadline: 9 });
    bytes.extend(encode(&StreamFrame::BlockData { id: 1, data: vec![10, 20] }));
    bytes.extend(encode(&StreamFrame::BlockData { id: 1, data: vec![30, 40, 50] }));
    let done = r.feed(&bytes).unwrap();
    assert_eq!(done.len(), 1);
    assert_eq!(done[0].info.id, 1);
    assert_eq!(done[0].info.size, 5);
    assert_eq!(done[0].info.deadline, 9);
    assert_eq!(done[0].data, vec![10, 20, 30, 40, 50]);
    assert_eq!(r.pending.len(), 0);
    assert_eq!(r.buf.len(), 0);
}

#[test]
fn receiver_buffers_partial_frames() {
    let mut r = Receiver::new();
    let mut bytes = encode(&StreamFrame::BlockInfo { id: 2, size: 3, priority: 0, deadline: 0 });
    bytes.extend(encode(&StreamFrame::BlockData { id: 2, data: vec![7, 8, 9] }));
    let cut = bytes.len() - 2;

    let first = r.feed(&bytes[..cut]).unwrap();
    assert_eq!(first.len(), 0);
    assert!(r.buf.len() > 0);

    let second = r.feed(&bytes[cut..]).unwrap();
    assert_eq!(second.len(), 1);
    assert_eq!(second[0].data, vec![7, 8, 9]);
    assert_eq!(r.buf.len(), 0);
}

#[test]
fn receiver_handles_interleaved_blocks() {
    let mut r = Receiver::new();
    let mut bytes = encode(&StreamFrame::BlockInfo { id: 0, size: 2, priority: 0, deadline: 0 });
    bytes.extend(encode(&StreamFrame::BlockInfo { id: 1, size: 1, priority: 0, deadline: 0 }));
    bytes.extend(encode(&StreamFrame::BlockData { id: 1, data: vec![5] }));
    bytes.extend(encode(&StreamFrame::BlockData { id: 0, data: vec![1, 2] }));
    let done = r.feed(&bytes).unwrap();
    assert_eq!(done.len(), 2);
    assert_eq!(done[0].info.id, 1);
    assert_eq!(done[1].info.id, 0);
}

#[test]
fn receiver_completes_zero_sized_block_at_once() {
    let mut r = Receiver::new();
    let bytes = encode(&StreamFrame::BlockInfo { id: 4, size: 0, priority: 0, deadline: 0 });
    let done = r.feed(&bytes).unwrap();
    assert_eq!(done.len(), 1);
    assert_eq!(done[0].info.id, 4);
    assert_eq!(done[0].data.len(), 0);
    assert_eq!(r.pending.len(), 0);
}

#[test]
fn receiver_records_announced_config_count() {
    let mut r = Receiver::new();
    let bytes = encode(&StreamFrame::DtpConfig { cfg_len: 3 });
    let done = r.feed(&bytes).unwrap();
    assert_eq!(done.len(), 0);
    assert_eq!(r.expected_cfgs, Some(3));
    // A second configuration frame is out of protocol order.
    let again = encode(&StreamFrame::DtpConfig { cfg_len: 4 });
    assert_eq!(r.feed(&again), Err(DtpError::UnexpectedFrame));
}

#[test]
fn receiver_rejects_data_for_unknown_block() {
    let mut r = Receiver::new();
    let bytes = encode(&StreamFrame::BlockData { id: 9, data: vec![1] });
    assert_eq!(r.feed(&bytes), Err(DtpError::UnexpectedFrame));
}

#[test]
fn receiver_rejects_duplicate_block_info() {
    let mut r = Receiver::new();
    let mut bytes = encode(&StreamFrame::BlockInfo { id: 3, size: 4, priority: 0, deadline: 0 });
    bytes.extend(encode(&StreamFrame::BlockInfo { id: 3, size: 4, priority: 0, deadline: 0 }));
    assert_eq!(r.feed(&bytes), Err(DtpError::UnexpectedFrame));
}

#[test]
fn receiver_rejects_overrun_data() {
    let mut r = Receiver::new();
    let mut bytes = encode(&StreamFrame::BlockInfo { id: 5, size: 2, priority: 0, deadline: 0 });
    bytes.extend(encode(&StreamFrame::BlockData { id: 5, data: vec![1, 2, 3] }));
    assert_eq!(r.feed(&bytes), Err(DtpError::InvalidFrame));
}

#[test]
fn receiver_stops_at_invalid_frame() {
    let mut r = Receiver::new();
    let mut bytes = encode(&StreamFrame::BlockInfo { id: 6, size: 1, priority: 0, deadline: 0 });
    bytes.extend_from_slice(&[0x07, 0x01, 0xFF]);
    assert_eq!(r.feed(&bytes), Err(DtpError::InvalidFrame));
    // The block announced before the bad frame was still processed.
    assert_eq!(r.pending.len(), 1);
}
