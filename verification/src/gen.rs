use crate::DtpError;
use crate::block::BlockInfo;
use crate::sender::SenderBlock;
use crate::sender::SenderDeque;
use vstd::prelude::*;

verus! {

/// A send gap at or under this many microseconds counts as zero: the
/// next block is generated in the same call instead of arming a timer
/// whose granularity could not honour it.
pub const GAP_EPSILON_MICROS: u64 = 1;

/// One block-generation descriptor: the size, priority and deadline of
/// the block to produce, and how long to wait before producing the next
/// one, in microseconds.
#[derive(Debug, Clone, Copy, PartialEq, Eq, Structural)]
pub struct BlockConfig {
    pub block_size: usize,
    pub priority: usize,
    pub deadline: usize,
    pub send_time_gap_micros: u64,
}

/// Relies on rand::fill, which fills the whole buffer with random
/// bytes: nothing is promised of the contents, only the length.
#[verifier::external_body]
fn random_payload(n: usize) -> (r: Vec<u8>)
    ensures
        r@.len() == n,
{
    let mut buf = vec![0u8; n];
    rand::fill(&mut buf[..]);
    buf
}

/// The metadata the generator assigns to the block of descriptor `j`:
/// the id is the descriptor's position, every other field comes from
/// the descriptor itself.
pub open spec fn info_for(cfgs: Seq<BlockConfig>, j: int) -> BlockInfo {
    BlockInfo {
        id: j as usize,
        size: cfgs[j].block_size,
        priority: cfgs[j].priority,
        deadline: cfgs[j].deadline,
    }
}

/// In the queue `q`, where generation appended its blocks starting at
/// position `qbase` with descriptor `jbase`, the entry for descriptor
/// `j` is a fresh block carrying the metadata of descriptor `j` and a
/// payload of exactly the announced size.
pub open spec fn generated_at(
    cfgs: Seq<BlockConfig>,
    q: Seq<SenderBlock>,
    qbase: int,
    jbase: int,
    j: int,
) -> bool {
    let b = q[qbase + (j - jbase)];
    &&& b.info == info_for(cfgs, j)
    &&& b.sent_size == 0
    &&& !b.has_begun
    &&& b.data@.len() == cfgs[j].block_size
}

/// What one `generate_once` call does to the cursor and the queue: the
/// cursor moves forward (strictly, unless generation was already
/// complete), the queue keeps its old blocks and gains one fresh block
/// per descriptor passed.
pub open spec fn generate_call(
    cfgs: Seq<BlockConfig>,
    pre_next: int,
    pre_q: Seq<SenderBlock>,
    post_next: int,
    post_q: Seq<SenderBlock>,
) -> bool {
    &&& 0 <= pre_next <= cfgs.len()
    &&& pre_next <= post_next <= cfgs.len()
    &&& (pre_next == cfgs.len() ==> post_next == pre_next)
    &&& (pre_next < cfgs.len() ==> pre_next < post_next)
    &&& post_q.len() == pre_q.len() + (post_next - pre_next)
    &&& (forall|i: int| 0 <= i < pre_q.len() ==> post_q[i] == pre_q[i])
    &&& (forall|j: int|
        pre_next <= j < post_next ==> #[trigger] generated_at(
            cfgs,
            post_q,
            pre_q.len() as int,
            pre_next,
            j,
        ))
}

/// Produces blocks from an ordered descriptor sequence on a timer-driven
/// schedule, appending them to a sender queue.
#[derive(Debug)]
pub struct BlockGenerator {
    pub cfgs: Vec<BlockConfig>,
    pub next_index_to_generate: usize,
}

impl Default for BlockGenerator {
    /// A generator with no descriptors loaded.
    fn default() -> (g: BlockGenerator)
        ensures
            g.cfgs@ == Seq::<BlockConfig>::empty(),
            g.next_index_to_generate == 0,
    {
        BlockGenerator { cfgs: Vec::new(), next_index_to_generate: 0 }
    }
}

impl BlockGenerator {
    /// The cursor never passes the end of the descriptor sequence.
    pub open spec fn wf(self) -> bool {
        self.next_index_to_generate <= self.cfgs@.len()
    }

    /// Loads the descriptor sequence; the cursor is left where it was.
    pub fn load_cfgs(&mut self, cfgs: Vec<BlockConfig>)
        ensures
            final(self).cfgs == cfgs,
            final(self).next_index_to_generate == old(self).next_index_to_generate,
    {
        self.cfgs = cfgs;
    }

    /// The delay before the very first generation call: the first
    /// descriptor's gap, or `None` when there are no descriptors.
    pub fn first_time_gap(&self) -> (r: Option<u64>)
        ensures
            self.cfgs@.len() == 0 ==> r is None,
            self.cfgs@.len() > 0 ==> r == Some(self.cfgs@[0].send_time_gap_micros),
    {
        if self.cfgs.len() == 0 {
            None
        } else {
            Some(self.cfgs[0].send_time_gap_micros)
        }
    }

    /// Generates the block of the descriptor at the cursor, and of every
    /// following descriptor whose gap is effectively zero, appending each
    /// to `sender_queue`.  Returns the delay before the next call should
    /// come, or `None` when every descriptor has been generated — after
    /// which further calls change nothing and keep returning `None`.
    pub fn generate_once(&mut self, sender_queue: &mut SenderDeque) -> (r: Option<u64>)
        requires
            old(self).wf(),
            old(sender_queue).wf(),
        ensures
            final(self).cfgs@ == old(self).cfgs@,
            final(self).wf(),
            final(sender_queue).wf(),
            generate_call(
                old(self).cfgs@,
                old(self).next_index_to_generate as int,
                old(sender_queue)@,
                final(self).next_index_to_generate as int,
                final(sender_queue)@,
            ),
            r is None <==> final(self).next_index_to_generate == old(self).cfgs@.len(),
            r matches Some(g) ==> {
                &&& final(self).next_index_to_generate < old(self).cfgs@.len()
                &&& g == old(self).cfgs@[final(self).next_index_to_generate as int].send_time_gap_micros
                &&& g > GAP_EPSILON_MICROS
            },
            forall|j: int|
                old(self).next_index_to_generate < j < final(self).next_index_to_generate
                    ==> (#[trigger] old(self).cfgs@[j]).send_time_gap_micros <= GAP_EPSILON_MICROS,
    {
        let ghost cfgs0 = self.cfgs@;
        let ghost pre_next = self.next_index_to_generate as int;
        let ghost pre_q = sender_queue@;
        if self.next_index_to_generate >= self.cfgs.len() {
            return None;
        }
        loop
            invariant
                cfgs0 == old(self).cfgs@,
                pre_next == old(self).next_index_to_generate as int,
                pre_q == old(sender_queue)@,
                self.cfgs@ == cfgs0,
                cfgs0.len() <= usize::MAX,
                self.next_index_to_generate < cfgs0.len(),
                pre_next <= self.next_index_to_generate,
                sender_queue.wf(),
                sender_queue@.len() == pre_q.len() + (self.next_index_to_generate - pre_next),
                forall|i: int| 0 <= i < pre_q.len() ==> sender_queue@[i] == pre_q[i],
                forall|j: int|
                    pre_next <= j < self.next_index_to_generate ==> #[trigger] generated_at(
                        cfgs0,
                        sender_queue@,
                        pre_q.len() as int,
                        pre_next,
                        j,
                    ),
                forall|j: int|
                    pre_next < j <= self.next_index_to_generate ==> (#[trigger] cfgs0[j]).send_time_gap_micros
                        <= GAP_EPSILON_MICROS,
            decreases cfgs0.len() - self.next_index_to_generate,
        {
            let idx = self.next_index_to_generate;
            let cfg = self.cfgs[idx];
            let mut sender_block = SenderBlock::new(
                BlockInfo {
                    id: idx,
                    size: cfg.block_size,
                    priority: cfg.priority,
                    deadline: cfg.deadline,
                },
            );
            sender_block.data = random_payload(cfg.block_size);
            let ghost prev_q = sender_queue@;
            sender_queue.push_block(sender_block);
            self.next_index_to_generate = idx + 1;
            proof {
                assert(generated_at(cfgs0, sender_queue@, pre_q.len() as int, pre_next, idx as int));
                assert forall|j: int|
                    pre_next <= j < self.next_index_to_generate implies #[trigger] generated_at(
                    cfgs0,
                    sender_queue@,
                    pre_q.len() as int,
                    pre_next,
                    j,
                ) by {
                    if j < idx {
                        assert(generated_at(cfgs0, prev_q, pre_q.len() as int, pre_next, j));
                        assert(sender_queue@[pre_q.len() + (j - pre_next)] == prev_q[pre_q.len() + (
                        j - pre_next)]);
                    }
                }
            }

            if self.next_index_to_generate >= self.cfgs.len() {
                return None;
            }
            let next_cfg = self.cfgs[self.next_index_to_generate];
            if next_cfg.send_time_gap_micros > GAP_EPSILON_MICROS {
                return Some(next_cfg.send_time_gap_micros);
            }
        }
    }
}

/// Checks the descriptor sequence at session startup: an empty sequence
/// is refused with `ConfigEmpty` before any timer is armed.
pub fn validate_cfgs(cfgs: &Vec<BlockConfig>) -> (r: Result<(), DtpError>)
    ensures
        r is Ok <==> cfgs@.len() > 0,
        r is Err ==> r == Err::<(), DtpError>(DtpError::ConfigEmpty),
{
    if cfgs.len() == 0 {
        Err(DtpError::ConfigEmpty)
    } else {
        Ok(())
    }
}

/// A run of the generator that started from cursor zero and an empty
/// queue: the queue holds exactly one block per descriptor already
/// passed, in order, the block of descriptor `j` carrying id `j`.
pub open spec fn run_state_ok(cfgs: Seq<BlockConfig>, next: int, q: Seq<SenderBlock>) -> bool {
    &&& 0 <= next <= cfgs.len()
    &&& q.len() == next
    &&& (forall|j: int| 0 <= j < next ==> #[trigger] generated_at(cfgs, q, 0, 0, j))
}

/// Each call keeps a run well formed and, until generation is complete,
/// strictly shrinks the number of descriptors left: so after at most
/// `cfgs.len()` calls the cursor reaches the end, `generate_once`
/// returns `None`, and the queue holds exactly `cfgs.len()` blocks whose
/// ids are `0, 1, ...` in arrival order, each id exactly once.
pub proof fn lemma_run_invariant(
    cfgs: Seq<BlockConfig>,
    pre_next: int,
    pre_q: Seq<SenderBlock>,
    post_next: int,
    post_q: Seq<SenderBlock>,
)
    requires
        run_state_ok(cfgs, pre_next, pre_q),
        generate_call(cfgs, pre_next, pre_q, post_next, post_q),
    ensures
        run_state_ok(cfgs, post_next, post_q),
        pre_next < cfgs.len() ==> cfgs.len() - post_next < cfgs.len() - pre_next,
        post_next == cfgs.len() ==> post_q.len() == cfgs.len() && (forall|j: int|
            0 <= j < cfgs.len() ==> (#[trigger] post_q[j]).info == info_for(cfgs, j)),
{
    assert forall|j: int| 0 <= j < post_next implies #[trigger] generated_at(
        cfgs,
        post_q,
        0,
        0,
        j,
    ) by {
        if j < pre_next {
            assert(generated_at(cfgs, pre_q, 0, 0, j));
            assert(post_q[j] == pre_q[j]);
        } else {
            assert(generated_at(cfgs, post_q, pre_q.len() as int, pre_next, j));
        }
    }
    if post_next == cfgs.len() {
        assert forall|j: int| 0 <= j < cfgs.len() implies (#[trigger] post_q[j]).info == info_for(
            cfgs,
            j,
        ) by {
            assert(generated_at(cfgs, post_q, 0, 0, j));
        }
    }
}

} // verus!
