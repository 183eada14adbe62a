use crate::DtpError;
use crate::block::BlockInfo;
use crate::frame::Block;
use crate::frame::FrameModel;
use crate::frame::ParseResult;
use crate::frame::StreamFrame;
use crate::frame::WireParse;
use crate::frame::parse_frame;
use crate::frame::wire_parse;
use vstd::prelude::*;
use vstd::slice::slice_subrange;
use vstd::slice::slice_to_vec;

verus! {

/// A reassembled (or partially reassembled) block as the specification
/// sees it: its announced metadata and the bytes received so far.
pub struct BlockSnap {
    pub info: BlockInfo,
    pub data: Seq<u8>,
}

impl View for Block {
    type V = BlockSnap;

    open spec fn view(&self) -> BlockSnap {
        BlockSnap { info: self.info, data: self.data@ }
    }
}

/// The pending blocks as the specification sees them.
pub open spec fn blocks_view(s: Seq<Block>) -> Seq<BlockSnap> {
    Seq::new(s.len(), |i: int| s[i]@)
}

/// Position of the first pending block with the given id, or -1.
pub open spec fn find_first(s: Seq<BlockSnap>, id: int) -> int
    decreases s.len(),
{
    if s.len() == 0 {
        -1
    } else if s[0].info.id == id {
        0
    } else {
        let r = find_first(s.skip(1), id);
        if r == -1 {
            -1
        } else {
            r + 1
        }
    }
}

/// A position whose entry has the id, with no earlier one, is the first.
pub proof fn lemma_find_first_at(s: Seq<BlockSnap>, id: int, i: int)
    requires
        0 <= i < s.len(),
        s[i].info.id == id,
        forall|k: int| 0 <= k < i ==> (#[trigger] s[k]).info.id != id,
    ensures
        find_first(s, id) == i,
    decreases i,
{
    if i > 0 {
        lemma_find_first_at(s.skip(1), id, i - 1);
    }
}

/// When no entry has the id, there is no first position.
pub proof fn lemma_find_first_none(s: Seq<BlockSnap>, id: int)
    requires
        forall|k: int| 0 <= k < s.len() ==> (#[trigger] s[k]).info.id != id,
    ensures
        find_first(s, id) == -1,
    decreases s.len(),
{
    if s.len() > 0 {
        lemma_find_first_none(s.skip(1), id);
    }
}

/// The receiver's reassembly state as the specification sees it: the
/// blocks announced but not yet fully received, and the descriptor
/// count announced by the session's configuration frame, if it came.
pub struct RecvModel {
    pub pending: Seq<BlockSnap>,
    pub expected_cfgs: Option<u64>,
}

/// What one frame does to the reassembly state: a configuration frame
/// announces the descriptor count once; a block-info frame announces a
/// block, complete at once when its size is zero; a block-data frame
/// extends its block's bytes, completing it when they reach the
/// announced size.  A frame out of protocol order fails with
/// `UnexpectedFrame`; one whose numbers cannot be represented, or that
/// overruns the announced size, fails with `InvalidFrame`.
pub open spec fn recv_step(m: RecvModel, f: FrameModel) -> Result<
    (RecvModel, Option<BlockSnap>),
    DtpError,
> {
    match f {
        FrameModel::DtpConfig { cfg_len } => {
            if m.expected_cfgs is Some {
                Err(DtpError::UnexpectedFrame)
            } else {
                Ok((RecvModel { pending: m.pending, expected_cfgs: Some(cfg_len) }, None))
            }
        },
        FrameModel::BlockInfo { id, size, priority, deadline } => {
            if id > usize::MAX || size > usize::MAX || priority > usize::MAX || deadline
                > usize::MAX {
                Err(DtpError::InvalidFrame)
            } else if find_first(m.pending, id as int) != -1 {
                Err(DtpError::UnexpectedFrame)
            } else {
                let info = BlockInfo {
                    id: id as usize,
                    size: size as usize,
                    priority: priority as usize,
                    deadline: deadline as usize,
                };
                let snap = BlockSnap { info, data: Seq::empty() };
                if size == 0 {
                    Ok((m, Some(snap)))
                } else {
                    Ok(
                        (
                            RecvModel {
                                pending: m.pending.push(snap),
                                expected_cfgs: m.expected_cfgs,
                            },
                            None,
                        ),
                    )
                }
            }
        },
        FrameModel::BlockData { id, data } => {
            if id > usize::MAX {
                Err(DtpError::UnexpectedFrame)
            } else {
                let i = find_first(m.pending, id as int);
                if i == -1 {
                    Err(DtpError::UnexpectedFrame)
                } else {
                    let b = m.pending[i];
                    let nd = b.data + data;
                    if nd.len() > b.info.size {
                        Err(DtpError::InvalidFrame)
                    } else if nd.len() == b.info.size {
                        Ok(
                            (
                                RecvModel {
                                    pending: m.pending.remove(i),
                                    expected_cfgs: m.expected_cfgs,
                                },
                                Some(BlockSnap { info: b.info, data: nd }),
                            ),
                        )
                    } else {
                        Ok(
                            (
                                RecvModel {
                                    pending: m.pending.update(
                                        i,
                                        BlockSnap { info: b.info, data: nd },
                                    ),
                                    expected_cfgs: m.expected_cfgs,
                                },
                                None,
                            ),
                        )
                    }
                }
            }
        },
    }
}

/// What feeding a byte stream does, frame by frame: the state and the
/// unconsumed tail after the last whole frame, the blocks completed on
/// the way in order, and the error that stopped consumption, if one
/// did.  An error leaves the stream positioned at the offending frame.
pub struct FeedResult {
    pub model: RecvModel,
    pub leftover: Seq<u8>,
    pub produced: Seq<BlockSnap>,
    pub error: Option<DtpError>,
}

/// Folds `recv_step` over the whole frames at the head of `s`.
pub open spec fn feed_spec(m: RecvModel, s: Seq<u8>) -> FeedResult
    decreases s.len(),
{
    match wire_parse(s) {
        WireParse::Incomplete => FeedResult { model: m, leftover: s, produced: Seq::empty(), error: None },
        WireParse::Invalid => FeedResult {
            model: m,
            leftover: s,
            produced: Seq::empty(),
            error: Some(DtpError::InvalidFrame),
        },
        WireParse::Done { frame, consumed } => {
            if 1 <= consumed <= s.len() {
                match recv_step(m, frame) {
                    Err(e) => FeedResult {
                        model: m,
                        leftover: s,
                        produced: Seq::empty(),
                        error: Some(e),
                    },
                    Ok((m2, opt)) => {
                        let rest = feed_spec(m2, s.skip(consumed));
                        let head: Seq<BlockSnap> = match opt {
                            None => Seq::empty(),
                            Some(b) => seq![b],
                        };
                        FeedResult {
                            model: rest.model,
                            leftover: rest.leftover,
                            produced: head + rest.produced,
                            error: rest.error,
                        }
                    },
                }
            } else {
                FeedResult { model: m, leftover: s, produced: Seq::empty(), error: None }
            }
        },
    }
}

/// Reassembles blocks from the bytes of a transport stream: buffers
/// partial frames, decodes whole ones, and accumulates each block's
/// data until it reaches the announced size.
#[derive(Debug)]
pub struct Receiver {
    pub buf: Vec<u8>,
    pub pending: Vec<Block>,
    pub expected_cfgs: Option<u64>,
}

impl Receiver {
    /// The reassembly state this receiver holds.
    pub open spec fn model(self) -> RecvModel {
        RecvModel { pending: blocks_view(self.pending@), expected_cfgs: self.expected_cfgs }
    }

    /// Pending blocks have unique ids and each is strictly short of its
    /// announced size: a completed block never stays pending.
    pub open spec fn wf(self) -> bool {
        &&& (forall|i: int, j: int|
            0 <= i < j < self.pending@.len() ==> (#[trigger] self.pending@[i]).info.id != (
            #[trigger] self.pending@[j]).info.id)
        &&& (forall|i: int|
            0 <= i < self.pending@.len() ==> (#[trigger] self.pending@[i]).data@.len()
                < self.pending@[i].info.size)
    }

    /// A receiver with nothing buffered and nothing pending.
    pub fn new() -> (r: Receiver)
        ensures
            r.buf@ == Seq::<u8>::empty(),
            r.model().pending == Seq::<BlockSnap>::empty(),
            r.model().expected_cfgs is None,
            r.wf(),
    {
        let r = Receiver { buf: Vec::new(), pending: Vec::new(), expected_cfgs: None };
        proof {
            assert(blocks_view(r.pending@) =~= Seq::<BlockSnap>::empty());
        }
        r
    }

    /// The position of the pending block with this id, if any.
    fn find_pending(&self, id: usize) -> (r: Option<usize>)
        ensures
            match r {
                Some(i) => {
                    &&& i < self.pending@.len()
                    &&& self.pending@[i as int].info.id == id
                    &&& forall|k: int|
                        0 <= k < i ==> (#[trigger] self.pending@[k]).info.id != id
                },
                None => forall|k: int|
                    0 <= k < self.pending@.len() ==> (#[trigger] self.pending@[k]).info.id != id,
            },
    {
        let n = self.pending.len();
        let mut i: usize = 0;
        while i < n
            invariant
                n == self.pending@.len(),
                0 <= i <= n,
                forall|k: int| 0 <= k < i ==> (#[trigger] self.pending@[k]).info.id != id,
            decreases n - i,
        {
            if self.pending[i].info.id == id {
                return Some(i);
            }
            i = i + 1;
        }
        None
    }

    /// Applies one decoded frame to the reassembly state; returns the
    /// block it completed, if any.  The buffered bytes are untouched.
    pub fn process_frame(&mut self, f: StreamFrame) -> (r: Result<Option<Block>, DtpError>)
        requires
            old(self).wf(),
        ensures
            final(self).wf(),
            final(self).buf == old(self).buf,
            ({
                let step = recv_step(old(self).model(), f@);
                let post = final(self).model();
                match r {
                    Err(e) => step == Err::<(RecvModel, Option<BlockSnap>), DtpError>(e) && post
                        == old(self).model(),
                    Ok(opt) => {
                        &&& step matches Ok((m2, opt_s))
                        &&& post == m2
                        &&& (match opt {
                            None => opt_s is None,
                            Some(b) => opt_s == Some(b@),
                        })
                    },
                }
            }),
    {
        let ghost m0 = self.model();
        match f {
            StreamFrame::DtpConfig { cfg_len } => {
                if self.expected_cfgs.is_some() {
                    Err(DtpError::UnexpectedFrame)
                } else {
                    self.expected_cfgs = Some(cfg_len);
                    Ok(None)
                }
            },
            StreamFrame::BlockInfo { id, size, priority, deadline } => {
                if id > usize::MAX as u64 || size > usize::MAX as u64 || priority
                    > usize::MAX as u64 || deadline > usize::MAX as u64 {
                    return Err(DtpError::InvalidFrame);
                }
                let idu: usize = id as usize;
                match self.find_pending(idu) {
                    Some(i) => {
                        proof {
                            lemma_find_first_at(m0.pending, idu as int, i as int);
                        }
                        Err(DtpError::UnexpectedFrame)
                    },
                    None => {
                        proof {
                            lemma_find_first_none(m0.pending, idu as int);
                        }
                        let info = BlockInfo {
                            id: idu,
                            size: size as usize,
                            priority: priority as usize,
                            deadline: deadline as usize,
                        };
                        let blk = Block::new(info);
                        if size == 0 {
                            Ok(Some(blk))
                        } else {
                            self.pending.push(blk);
                            proof {
                                assert(blocks_view(self.pending@) =~= m0.pending.push(blk@));
                            }
                            Ok(None)
                        }
                    },
                }
            },
            StreamFrame::BlockData { id, data } => {
                if id > usize::MAX as u64 {
                    return Err(DtpError::UnexpectedFrame);
                }
                let idu: usize = id as usize;
                let i = match self.find_pending(idu) {
                    None => {
                        proof {
                            lemma_find_first_none(m0.pending, idu as int);
                        }
                        return Err(DtpError::UnexpectedFrame);
                    },
                    Some(i) => i,
                };
                proof {
                    lemma_find_first_at(m0.pending, idu as int, i as int);
                }
                let have = self.pending[i].data.len();
                let size = self.pending[i].info.size;
                let mut data = data;
                if data.len() > size - have {
                    return Err(DtpError::InvalidFrame);
                }
                let ghost dat = data@;
                let ghost pre = self.pending@;
                let blk = &mut self.pending[i];
                blk.data.append(&mut data);
                if self.pending[i].data.len() == size {
                    let done = self.pending.remove(i);
                    proof {
                        assert(blocks_view(self.pending@) =~= m0.pending.remove(i as int));
                        assert forall|a: int, b: int|
                            0 <= a < b < self.pending@.len() implies (
                        #[trigger] self.pending@[a]).info.id != (
                        #[trigger] self.pending@[b]).info.id by {
                            let a0: int = if a < i { a } else { a + 1 };
                            let b0: int = if b < i { b } else { b + 1 };
                            assert(self.pending@[a] == pre[a0] && self.pending@[b] == pre[b0]);
                        }
                    }
                    Ok(Some(done))
                } else {
                    proof {
                        assert(blocks_view(self.pending@) =~= m0.pending.update(
                            i as int,
                            BlockSnap {
                                info: m0.pending[i as int].info,
                                data: m0.pending[i as int].data + dat,
                            },
                        ));
                    }
                    Ok(None)
                }
            },
        }
    }

    /// Buffers `bytes` after what is already held, decodes every whole
    /// frame, and returns the blocks completed, in order.  A partial
    /// frame at the tail stays buffered for the next call; an invalid
    /// frame or a protocol-order error stops consumption at the
    /// offending frame and is returned.
    pub fn feed(&mut self, bytes: &[u8]) -> (r: Result<Vec<Block>, DtpError>)
        requires
            old(self).wf(),
        ensures
            final(self).wf(),
            ({
                let fr = feed_spec(old(self).model(), old(self).buf@ + bytes@);
                &&& final(self).model() == fr.model
                &&& final(self).buf@ == fr.leftover
                &&& (match r {
                    Ok(v) => fr.error is None && blocks_view(v@) == fr.produced,
                    Err(e) => fr.error == Some(e),
                })
            }),
    {
        let ghost s0 = old(self).buf@ + bytes@;
        let mut tail = slice_to_vec(bytes);
        self.buf.append(&mut tail);
        let mut out: Vec<Block> = Vec::new();
        proof {
            assert(blocks_view(out@) =~= Seq::<BlockSnap>::empty());
            assert(blocks_view(out@) + feed_spec(self.model(), self.buf@).produced =~= feed_spec(
                self.model(),
                self.buf@,
            ).produced);
        }
        loop
            invariant
                self.wf(),
                s0 == old(self).buf@ + bytes@,
                ({
                    let fr0 = feed_spec(old(self).model(), s0);
                    let frn = feed_spec(self.model(), self.buf@);
                    &&& fr0.model == frn.model
                    &&& fr0.leftover == frn.leftover
                    &&& fr0.error == frn.error
                    &&& fr0.produced == blocks_view(out@) + frn.produced
                }),
            decreases self.buf@.len(),
        {
            let ghost m_pre = self.model();
            let ghost buf_pre = self.buf@;
            match parse_frame(self.buf.as_slice()) {
                ParseResult::Incomplete => {
                    proof {
                        assert(blocks_view(out@) + Seq::<BlockSnap>::empty() =~= blocks_view(
                            out@,
                        ));
                    }
                    return Ok(out);
                },
                ParseResult::Invalid => {
                    proof {
                        assert(blocks_view(out@) + Seq::<BlockSnap>::empty() =~= blocks_view(
                            out@,
                        ));
                    }
                    return Err(DtpError::InvalidFrame);
                },
                ParseResult::Done(f, c) => {
                    match self.process_frame(f) {
                        Err(e) => {
                            proof {
                                assert(blocks_view(out@) + Seq::<BlockSnap>::empty()
                                    =~= blocks_view(out@));
                            }
                            return Err(e);
                        },
                        Ok(opt) => {
                            let blen = self.buf.len();
                            let rest = slice_to_vec(slice_subrange(self.buf.as_slice(), c, blen));
                            self.buf = rest;
                            proof {
                                assert(self.buf@ =~= buf_pre.skip(c as int));
                            }
                            match opt {
                                Some(b) => {
                                    let ghost out_pre = out@;
                                    let ghost bsnap = b@;
                                    out.push(b);
                                    proof {
                                        assert(blocks_view(out@) =~= blocks_view(out_pre).push(
                                            bsnap,
                                        ));
                                        assert(blocks_view(out_pre) + (seq![bsnap] + feed_spec(
                                            self.model(),
                                            self.buf@,
                                        ).produced) =~= blocks_view(out@) + feed_spec(
                                            self.model(),
                                            self.buf@,
                                        ).produced);
                                    }
                                },
                                None => {
                                    proof {
                                        assert(blocks_view(out@) + (Seq::<BlockSnap>::empty()
                                            + feed_spec(self.model(), self.buf@).produced)
                                            =~= blocks_view(out@) + feed_spec(
                                            self.model(),
                                            self.buf@,
                                        ).produced);
                                    }
                                },
                            }
                        },
                    }
                },
            }
        }
    }
}

} // verus!
