use crate::block::BlockInfo;
use vstd::prelude::*;

verus! {

/// One block awaiting transmission: its metadata, its payload, how many
/// bytes the transport has accepted so far, and whether transmission of
/// it has begun.
#[derive(Debug, Clone)]
pub struct SenderBlock {
    pub info: BlockInfo,
    pub data: Vec<u8>,
    pub sent_size: usize,
    pub has_begun: bool,
}

impl SenderBlock {
    /// The payload matches the announced size and progress never passes
    /// the end.
    pub open spec fn wf(self) -> bool {
        &&& self.data@.len() == self.info.size
        &&& self.sent_size <= self.info.size
    }

    /// A block is fully sent when progress reaches the announced size.
    pub open spec fn spec_is_complete(self) -> bool {
        self.sent_size == self.info.size
    }

    /// The bytes handed to the transport so far: the payload prefix up to
    /// `sent_size`.
    pub open spec fn sent_prefix(self) -> Seq<u8> {
        self.data@.take(self.sent_size as int)
    }

    /// `self` is the same block as `from` with at least as much progress:
    /// identity and payload unchanged, `sent_size` not decreased.
    pub open spec fn advanced_from(self, from: SenderBlock) -> bool {
        &&& self.info == from.info
        &&& self.data@ == from.data@
        &&& self.sent_size >= from.sent_size
    }

    /// A fresh block: no payload attached yet, no progress.
    pub fn new(info: BlockInfo) -> (b: SenderBlock)
        ensures
            b.info == info,
            b.data@ == Seq::<u8>::empty(),
            b.sent_size == 0,
            !b.has_begun,
    {
        SenderBlock { info, data: Vec::new(), sent_size: 0, has_begun: false }
    }

    /// Whether transmission of this block has begun.
    pub fn has_begun_sending(&self) -> (r: bool)
        ensures
            r == self.has_begun,
    {
        self.has_begun
    }

    /// Marks the begin of transmission: the single observable point where
    /// sending of this block starts.
    pub fn begin_sending(&mut self)
        ensures
            final(self).has_begun,
            final(self).info == old(self).info,
            final(self).data == old(self).data,
            final(self).sent_size == old(self).sent_size,
    {
        self.has_begun = true;
    }

    /// Whether the whole payload has been accepted by the transport.
    pub fn is_send_complete(&self) -> (r: bool)
        ensures
            r == self.spec_is_complete(),
    {
        self.info.size == self.sent_size
    }

    /// Records that the transport accepted `bytes` more bytes.  Progress
    /// grows by exactly `bytes` and never passes the announced size; the
    /// newly sent bytes are the payload slice starting exactly at the old
    /// offset — nothing repeated, nothing skipped.
    pub fn send_bytes(&mut self, bytes: usize)
        requires
            old(self).wf(),
            old(self).sent_size + bytes <= old(self).info.size,
        ensures
            final(self).info == old(self).info,
            final(self).data == old(self).data,
            final(self).has_begun == old(self).has_begun,
            final(self).sent_size == old(self).sent_size + bytes,
            final(self).wf(),
            final(self).sent_prefix() == old(self).sent_prefix() + old(self).data@.subrange(
                old(self).sent_size as int,
                old(self).sent_size + bytes,
            ),
    {
        self.sent_size = self.sent_size + bytes;
        assert(self.sent_prefix() =~= old(self).sent_prefix() + old(self).data@.subrange(
            old(self).sent_size as int,
            old(self).sent_size + bytes,
        ));
    }

    /// How many payload bytes are still to send.
    pub fn remain_bytes(&self) -> (r: usize)
        requires
            self.sent_size <= self.info.size,
        ensures
            r == self.info.size - self.sent_size,
    {
        self.info.size - self.sent_size
    }
}

/// The queue of blocks awaiting transmission for one destination.
/// Insertion is always at the tail and removal always at the head:
/// blocks leave in strict arrival order, whatever their priority or
/// deadline say.
#[derive(Debug)]
pub struct SenderDeque {
    pub queue: Vec<SenderBlock>,
}

impl View for SenderDeque {
    type V = Seq<SenderBlock>;

    open spec fn view(&self) -> Seq<SenderBlock> {
        self.queue@
    }
}

impl Default for SenderDeque {
    /// An empty queue.
    fn default() -> (q: SenderDeque)
        ensures
            q@ == Seq::<SenderBlock>::empty(),
    {
        SenderDeque { queue: Vec::new() }
    }
}

impl SenderDeque {
    /// Every queued block is well formed.
    pub open spec fn wf(self) -> bool {
        forall|i: int| 0 <= i < self@.len() ==> (#[trigger] self@[i]).wf()
    }

    /// An empty queue.
    pub fn new() -> (q: SenderDeque)
        ensures
            q@ == Seq::<SenderBlock>::empty(),
            q.wf(),
    {
        SenderDeque { queue: Vec::new() }
    }

    /// How many blocks are waiting.
    pub fn len(&self) -> (n: usize)
        ensures
            n == self@.len(),
    {
        self.queue.len()
    }

    /// Appends a block at the tail.
    pub fn push_block(&mut self, b: SenderBlock)
        ensures
            final(self)@ == old(self)@.push(b),
    {
        self.queue.push(b);
    }

    /// The block at the head, next in line to be sent.
    pub fn next_block_to_send(&self) -> (r: Option<&SenderBlock>)
        ensures
            match r {
                Some(b) => self@.len() > 0 && *b == self@[0],
                None => self@.len() == 0,
            },
    {
        if self.queue.len() == 0 {
            None
        } else {
            Some(&self.queue[0])
        }
    }

    /// Exclusive access to the block at the head.
    pub fn next_block_to_send_mut(&mut self) -> (r: Option<&mut SenderBlock>)
        ensures
            old(self)@.len() == 0 ==> r is None && final(self)@ == old(self)@,
            old(self)@.len() > 0 ==> (r matches Some(b) && *b == old(self)@[0] && final(self)@
                == old(self)@.update(0, *final(b))),
    {
        if self.queue.len() == 0 {
            None
        } else {
            Some(&mut self.queue[0])
        }
    }

    /// Removes and returns the block at the head.
    pub fn remove_block(&mut self) -> (r: Option<SenderBlock>)
        ensures
            old(self)@.len() == 0 ==> r is None && final(self)@ == old(self)@,
            old(self)@.len() > 0 ==> r == Some(old(self)@[0]) && final(self)@ == old(self)@.skip(
                1,
            ),
    {
        if self.queue.len() == 0 {
            None
        } else {
            let b = self.queue.remove(0);
            assert(self.queue@ =~= old(self)@.skip(1));
            Some(b)
        }
    }
}

/// What the sender asks the transport to write next: the stream to write
/// to (the head block's id), the offset transmission resumes from, and
/// how many bytes are still to send.
#[derive(Debug, Clone, Copy, PartialEq, Eq, Structural)]
pub struct WriteRequest {
    pub id: usize,
    pub offset: usize,
    pub len: usize,
}

/// `post` is a queue that the sender may have produced from `pre`: some
/// prefix of completed blocks removed, the new head advanced but
/// otherwise the same block, and every block behind the head untouched.
pub open spec fn drained_to_by(pre: Seq<SenderBlock>, post: Seq<SenderBlock>, k: int) -> bool {
    &&& 0 <= k <= pre.len()
    &&& post.len() == pre.len() - k
    &&& (post.len() > 0 ==> post[0].advanced_from(pre[k]))
    &&& (forall|i: int| 1 <= i < post.len() ==> #[trigger] post[i] == pre[k + i])
}

/// The sender can have turned `pre` into `post`, for some number of
/// removed head blocks.
pub open spec fn drained_to(pre: Seq<SenderBlock>, post: Seq<SenderBlock>) -> bool {
    exists|k: int| #[trigger] drained_to_by(pre, post, k)
}

/// Computes the next write for the head block and marks it begun.
/// Returns `None`, changing nothing, when the queue is empty.  The
/// request's offset is exactly the head's current progress: a drain
/// re-invoked after a suspension resumes where it stopped.
pub fn next_write(q: &mut SenderDeque) -> (r: Option<WriteRequest>)
    requires
        old(q).wf(),
    ensures
        final(q).wf(),
        old(q)@.len() == 0 ==> r is None && final(q)@ == old(q)@,
        old(q)@.len() > 0 ==> ({
            let b0 = old(q)@[0];
            &&& r == Some(
                (WriteRequest {
                    id: b0.info.id,
                    offset: b0.sent_size,
                    len: (b0.info.size - b0.sent_size) as usize,
                }),
            )
            &&& final(q)@ == old(q)@.update(0, (SenderBlock { has_begun: true, ..b0 }))
        }),
        drained_to(old(q)@, final(q)@),
{
    match q.next_block_to_send_mut() {
        None => {
            proof {
                assert(drained_to_by(old(q)@, q@, 0));
            }
            None
        },
        Some(b) => {
            let id = b.info.id;
            let offset = b.sent_size;
            let len = b.remain_bytes();
            if !b.has_begun_sending() {
                b.begin_sending();
            }
            proof {
                assert(q@ =~= old(q)@.update(0, (SenderBlock { has_begun: true, ..old(q)@[0] })));
                assert(q@[0].advanced_from(old(q)@[0]));
                assert(drained_to_by(old(q)@, q@, 0));
            }
            Some(WriteRequest { id, offset, len })
        },
    }
}

/// Records the transport's answer to the last write request: it accepted
/// `accepted` bytes of the head block.  Progress advances by exactly
/// that count; the head is removed if and only if it is now complete.
/// Returns whether it was removed.
pub fn apply_write(q: &mut SenderDeque, accepted: usize) -> (done: bool)
    requires
        old(q).wf(),
        old(q)@.len() > 0,
        accepted <= old(q)@[0].info.size - old(q)@[0].sent_size,
    ensures
        final(q).wf(),
        ({
            let b0 = old(q)@[0];
            if b0.sent_size + accepted == b0.info.size {
                done && final(q)@ == old(q)@.skip(1)
            } else {
                !done && final(q)@ == old(q)@.update(
                    0,
                    (SenderBlock { sent_size: (b0.sent_size + accepted) as usize, ..b0 }),
                )
            }
        }),
        drained_to(old(q)@, final(q)@),
{
    let ghost pre = q@;
    let complete: bool;
    match q.next_block_to_send_mut() {
        Some(b) => {
            b.send_bytes(accepted);
            complete = b.is_send_complete();
        },
        None => {
            complete = false;
        },
    }
    assert(q@ =~= pre.update(
        0,
        (SenderBlock { sent_size: (pre[0].sent_size + accepted) as usize, ..pre[0] }),
    ));
    if complete {
        let _ = q.remove_block();
        proof {
            assert(q@ =~= pre.skip(1));
            if q@.len() > 0 {
                assert(q@[0].advanced_from(pre[1]));
            }
            assert(drained_to_by(pre, q@, 1));
        }
        true
    } else {
        proof {
            assert(q@[0].advanced_from(pre[0]));
            assert(drained_to_by(pre, q@, 0));
        }
        false
    }
}

/// Draining composes: whatever a sequence of sender steps does, the
/// result still relates to the starting queue as one drain.  With
/// `lemma_fifo_order` this extends the head-of-queue ordering guarantee
/// to arbitrarily many steps.
pub proof fn lemma_drained_to_trans(a: Seq<SenderBlock>, b: Seq<SenderBlock>, c: Seq<SenderBlock>)
    requires
        drained_to(a, b),
        drained_to(b, c),
    ensures
        drained_to(a, c),
{
    let k1 = choose|k: int| #[trigger] drained_to_by(a, b, k);
    let k2 = choose|k: int| #[trigger] drained_to_by(b, c, k);
    let k = k1 + k2;
    assert(c.len() == a.len() - k);
    if c.len() > 0 {
        if k2 == 0 {
            assert(c[0].advanced_from(b[0]));
            assert(b[0].advanced_from(a[k1]));
        } else {
            assert(b[k2] == a[k1 + k2]);
        }
        assert(c[0].advanced_from(a[k]));
    }
    assert(forall|i: int| 1 <= i < c.len() ==> #[trigger] c[i] == a[k + i]) by {
        assert forall|i: int| 1 <= i < c.len() implies #[trigger] c[i] == a[k + i] by {
            assert(c[i] == b[k2 + i]);
            assert(b[k2 + i] == a[k1 + k2 + i]);
        }
    }
    assert(drained_to_by(a, c, k));
}

/// First-in first-out: as long as the original head block has not been
/// removed — the queue is still full length — not one byte of any later
/// block has been sent; every block behind the head is exactly as it
/// was.
pub proof fn lemma_fifo_order(pre: Seq<SenderBlock>, post: Seq<SenderBlock>)
    requires
        drained_to(pre, post),
        post.len() == pre.len(),
    ensures
        post.len() > 0 ==> post[0].advanced_from(pre[0]),
        forall|i: int| 1 <= i < post.len() ==> #[trigger] post[i] == pre[i],
{
    let k = choose|k: int| #[trigger] drained_to_by(pre, post, k);
    assert(k == 0);
}

/// Resuming after a suspension duplicates and skips nothing: the bytes
/// sent by two successive accepted writes are one contiguous slice of
/// the payload, picked up at the exact offset where the first write
/// ended.
pub proof fn lemma_resume_contiguous(b: SenderBlock, n1: int, n2: int)
    requires
        b.wf(),
        0 <= n1,
        0 <= n2,
        b.sent_size + n1 + n2 <= b.info.size,
    ensures
        b.data@.subrange(b.sent_size as int, b.sent_size + n1) + b.data@.subrange(
            b.sent_size + n1,
            b.sent_size + n1 + n2,
        ) == b.data@.subrange(b.sent_size as int, b.sent_size + n1 + n2),
{
    assert(b.data@.subrange(b.sent_size as int, b.sent_size + n1) + b.data@.subrange(
        b.sent_size + n1,
        b.sent_size + n1 + n2,
    ) =~= b.data@.subrange(b.sent_size as int, b.sent_size + n1 + n2));
}

} // verus!
