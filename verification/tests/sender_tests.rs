use dtp::block::BlockInfo;
use dtp::sender::apply_write;
use dtp::sender::next_write;
use dtp::sender::SenderBlock;
use dtp::sender::SenderDeque;

fn block(id: usize, size: usize) -> SenderBlock {
    let mut b = SenderBlock::new(BlockInfo { id, size, priority: 1, deadline: 10 });
    b.data = vec![id as u8; size];
    b
}

#[test]
fn sender_block_progress() {
    let mut b = block(1, 10);
    assert!(!b.has_begun_sending());
    assert!(!b.is_send_complete());
    assert_eq!(b.remain_bytes(), 10);
    b.begin_sending();
    assert!(b.has_begun_sending());
    b.send_bytes(4);
    assert_eq!(b.sent_size, 4);
    assert_eq!(b.remain_bytes(), 6);
    b.send_bytes(6);
    assert!(b.is_send_complete());
    assert_eq!(b.remain_bytes(), 0);
}

#[test]
fn queue_is_first_in_first_out() {
    let mut q = SenderDeque::new();
    q.push_block(block(0, 4));
    q.push_block(block(1, 4));
    assert_eq!(q.len(), 2);
    assert_eq!(q.next_block_to_send().unwrap().info.id, 0);
    let removed = q.remove_block().unwrap();
    assert_eq!(removed.info.id, 0);
    assert_eq!(q.next_block_to_send().unwrap().info.id, 1);
}

#[test]
fn drain_never_touches_later_blocks() {
    // Two queued blocks; the transport accepts only part of the head.
    let mut q = SenderDeque::new();
    q.push_block(block(0, 8));
    q.push_block(block(1, 8));

    let req = next_write(&mut q).unwrap();
    assert_eq!(req.id, 0);
    assert_eq!(req.offset, 0);
    assert_eq!(req.len, 8);
    let done = apply_write(&mut q, 5);
    assert!(!done);

    // The head advanced; the block behind it is exactly as it was.
    assert_eq!(q.len(), 2);
    assert_eq!(q.queue[0].sent_size, 5);
    assert_eq!(q.queue[1].sent_size, 0);
    assert!(!q.queue[1].has_begun);
}

#[test]
fn drain_resumes_at_exact_offset() {
    // A would-block suspension: the next request starts exactly where
    // the previous accepted write ended.
    let mut q = SenderDeque::new();
    q.push_block(block(3, 10));

    let r1 = next_write(&mut q).unwrap();
    assert_eq!(r1.offset, 0);
    assert!(!apply_write(&mut q, 4));

    // Suspend (transport reported would-block), then resume.
    let r2 = next_write(&mut q).unwrap();
    assert_eq!(r2.id, 3);
    assert_eq!(r2.offset, 4);
    assert_eq!(r2.len, 6);
    assert!(!apply_write(&mut q, 2));

    let r3 = next_write(&mut q).unwrap();
    assert_eq!(r3.offset, 6);
    assert_eq!(r3.len, 4);
    assert!(apply_write(&mut q, 4));
    assert_eq!(q.len(), 0);
}

#[test]
fn block_popped_only_when_complete() {
    let mut q = SenderDeque::new();
    q.push_block(block(0, 3));
    q.push_block(block(1, 2));

    let _ = next_write(&mut q).unwrap();
    assert!(!apply_write(&mut q, 2));
    assert_eq!(q.len(), 2);
    assert!(apply_write(&mut q, 1));
    assert_eq!(q.len(), 1);
    assert_eq!(q.next_block_to_send().unwrap().info.id, 1);

    let req = next_write(&mut q).unwrap();
    assert_eq!(req.id, 1);
    assert!(apply_write(&mut q, 2));
    assert_eq!(q.len(), 0);
    assert!(next_write(&mut q).is_none());
}
