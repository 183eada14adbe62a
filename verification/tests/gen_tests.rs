use dtp::DtpError;
use dtp::gen::validate_cfgs;
use dtp::gen::BlockConfig;
use dtp::gen::BlockGenerator;
use dtp::sender::SenderDeque;

fn cfg(block_size: usize, priority: usize, deadline: usize, gap_micros: u64) -> BlockConfig {
    BlockConfig { block_size, priority, deadline, send_time_gap_micros: gap_micros }
}

#[test]
fn zero_gaps_generate_in_one_call() {
    // Descriptors with effectively-zero gaps collapse into one call:
    // blocks 0 and 1 come at once, then the real one-second gap is
    // returned; the next call produces the last block and finishes.
    let mut g = BlockGenerator::default();
    g.load_cfgs(vec![
        cfg(100, 1, 10, 0),
        cfg(50, 2, 5, 0),
        cfg(10, 1, 1, 1_000_000),
    ]);
    let mut q = SenderDeque::new();

    let r1 = g.generate_once(&mut q);
    assert_eq!(r1, Some(1_000_000));
    assert_eq!(q.len(), 2);
    assert_eq!(q.queue[0].info.id, 0);
    assert_eq!(q.queue[0].info.size, 100);
    assert_eq!(q.queue[0].data.len(), 100);
    assert_eq!(q.queue[1].info.id, 1);
    assert_eq!(q.queue[1].info.size, 50);

    let r2 = g.generate_once(&mut q);
    assert_eq!(r2, None);
    assert_eq!(q.len(), 3);
    assert_eq!(q.queue[2].info.id, 2);
    assert_eq!(q.queue[2].info.size, 10);
}

#[test]
fn deadline_comes_from_its_own_field() {
    let mut g = BlockGenerator::default();
    g.load_cfgs(vec![cfg(4, 1, 10, 0)]);
    let mut q = SenderDeque::new();
    assert_eq!(g.generate_once(&mut q), None);
    assert_eq!(q.queue[0].info.priority, 1);
    assert_eq!(q.queue[0].info.deadline, 10);
}

#[test]
fn generator_produces_every_id_once() {
    // With real gaps, one block per call; ids strictly increase and
    // `None` comes exactly after the last descriptor.
    let mut g = BlockGenerator::default();
    g.load_cfgs(vec![
        cfg(1, 0, 0, 5),
        cfg(2, 0, 0, 5),
        cfg(3, 0, 0, 5),
        cfg(4, 0, 0, 5),
    ]);
    let mut q = SenderDeque::new();
    assert_eq!(g.generate_once(&mut q), Some(5));
    assert_eq!(g.generate_once(&mut q), Some(5));
    assert_eq!(g.generate_once(&mut q), Some(5));
    assert_eq!(g.generate_once(&mut q), None);
    assert_eq!(q.len(), 4);
    for (i, b) in q.queue.iter().enumerate() {
        assert_eq!(b.info.id, i);
        assert_eq!(b.info.size, i + 1);
        assert_eq!(b.data.len(), i + 1);
        assert_eq!(b.sent_size, 0);
        assert!(!b.has_begun);
    }
    // Once complete, further calls change nothing.
    assert_eq!(g.generate_once(&mut q), None);
    assert_eq!(q.len(), 4);
}

#[test]
fn first_time_gap_of_empty_sequence() {
    let g = BlockGenerator::default();
    assert_eq!(g.first_time_gap(), None);
}

#[test]
fn first_time_gap_reads_first_descriptor() {
    let mut g = BlockGenerator::default();
    g.load_cfgs(vec![cfg(1, 0, 0, 2_000_000), cfg(1, 0, 0, 7)]);
    assert_eq!(g.first_time_gap(), Some(2_000_000));
}

#[test]
fn empty_descriptor_sequence_is_refused() {
    let none: Vec<BlockConfig> = Vec::new();
    assert_eq!(validate_cfgs(&none), Err(DtpError::ConfigEmpty));
    assert_eq!(validate_cfgs(&vec![cfg(1, 0, 0, 0)]), Ok(()));
}

#[test]
fn empty_generator_returns_none_without_blocks() {
    let mut g = BlockGenerator::default();
    let mut q = SenderDeque::new();
    assert_eq!(g.generate_once(&mut q), None);
    assert_eq!(q.len(), 0);
}
