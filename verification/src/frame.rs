use crate::DtpError;
use crate::block::BlockInfo;
use crate::varint::VARINT_MAX;
use crate::varint::decode_varint;
use crate::varint::encode_varint;
use crate::varint::lemma_varint_bytes_len;
use crate::varint::lemma_varint_round_trip;
use crate::varint::varint_bytes;
use crate::varint::varint_len;
use crate::varint::varint_parse;
use vstd::prelude::*;
use vstd::slice::slice_subrange;
use vstd::slice::slice_to_vec;

verus! {

/// Wire identifiers of the stream frame kinds.
#[allow(non_camel_case_types)]
#[derive(Debug, Clone, Copy, PartialEq, Eq, Structural)]
pub enum StreamFrameType {
    NONE,
    DTP_CONFIG,
    BLOCK_INFO,
    BLOCK_DATA,
}

impl StreamFrameType {
    /// The value this kind takes on the wire.
    pub open spec fn spec_wire_value(self) -> u64 {
        match self {
            StreamFrameType::NONE => 0x0,
            StreamFrameType::DTP_CONFIG => 0x1,
            StreamFrameType::BLOCK_INFO => 0x2,
            StreamFrameType::BLOCK_DATA => 0x3,
        }
    }

    /// Returns the value this kind takes on the wire.
    pub fn wire_value(self) -> (v: u64)
        ensures
            v == self.spec_wire_value(),
    {
        match self {
            StreamFrameType::NONE => 0x0,
            StreamFrameType::DTP_CONFIG => 0x1,
            StreamFrameType::BLOCK_INFO => 0x2,
            StreamFrameType::BLOCK_DATA => 0x3,
        }
    }

    /// Maps a wire value back to the frame kind; `None` for any value no
    /// kind takes.
    pub fn from_wire(v: u64) -> (r: Option<StreamFrameType>)
        ensures
            match r {
                Some(t) => t.spec_wire_value() == v,
                None => v > 0x3,
            },
    {
        if v == 0x0 {
            Some(StreamFrameType::NONE)
        } else if v == 0x1 {
            Some(StreamFrameType::DTP_CONFIG)
        } else if v == 0x2 {
            Some(StreamFrameType::BLOCK_INFO)
        } else if v == 0x3 {
            Some(StreamFrameType::BLOCK_DATA)
        } else {
            None
        }
    }
}

/// The three wire frame variants.  `DtpConfig` announces how many block
/// descriptors the session will carry; each block travels as one
/// `BlockInfo` frame followed by `BlockData` frames whose payloads
/// concatenate to exactly `size` bytes.
#[derive(Debug, Clone, PartialEq, Eq)]
pub enum StreamFrame {
    DtpConfig { cfg_len: u64 },
    BlockInfo { id: u64, size: u64, priority: u64, deadline: u64 },
    BlockData { id: u64, data: Vec<u8> },
}

/// Mathematical model of a frame: the same three variants with the data
/// payload as a byte sequence.
pub enum FrameModel {
    DtpConfig { cfg_len: u64 },
    BlockInfo { id: u64, size: u64, priority: u64, deadline: u64 },
    BlockData { id: u64, data: Seq<u8> },
}

impl View for StreamFrame {
    type V = FrameModel;

    open spec fn view(&self) -> FrameModel {
        match self {
            StreamFrame::DtpConfig { cfg_len } => FrameModel::DtpConfig { cfg_len: *cfg_len },
            StreamFrame::BlockInfo { id, size, priority, deadline } => FrameModel::BlockInfo {
                id: *id,
                size: *size,
                priority: *priority,
                deadline: *deadline,
            },
            StreamFrame::BlockData { id, data } => FrameModel::BlockData {
                id: *id,
                data: data@,
            },
        }
    }
}

impl FrameModel {
    /// A frame is encodable when every field fits a variable-length
    /// integer, the data payload included.
    pub open spec fn wf(self) -> bool {
        match self {
            FrameModel::DtpConfig { cfg_len } => cfg_len <= VARINT_MAX,
            FrameModel::BlockInfo { id, size, priority, deadline } => id <= VARINT_MAX && size
                <= VARINT_MAX && priority <= VARINT_MAX && deadline <= VARINT_MAX,
            FrameModel::BlockData { id, data } => id <= VARINT_MAX && varint_len(id) + data.len()
                <= VARINT_MAX,
        }
    }

    /// The wire value of this frame's kind.
    pub open spec fn type_value(self) -> u64 {
        match self {
            FrameModel::DtpConfig { .. } => 0x1,
            FrameModel::BlockInfo { .. } => 0x2,
            FrameModel::BlockData { .. } => 0x3,
        }
    }

    /// The payload this frame carries after its type and length prefix.
    pub open spec fn payload_bytes(self) -> Seq<u8> {
        match self {
            FrameModel::DtpConfig { cfg_len } => varint_bytes(cfg_len),
            FrameModel::BlockInfo { id, size, priority, deadline } => varint_bytes(id)
                + varint_bytes(size) + varint_bytes(priority) + varint_bytes(deadline),
            FrameModel::BlockData { id, data } => varint_bytes(id) + data,
        }
    }

    /// The full wire encoding: type, payload length, payload.
    pub open spec fn wire_bytes(self) -> Seq<u8> {
        varint_bytes(self.type_value()) + varint_bytes(self.payload_bytes().len() as u64)
            + self.payload_bytes()
    }
}

/// Reads one frame payload of kind `ft` from exactly the bytes `p`; `None`
/// when the kind is unrecognized or the payload is malformed.
pub open spec fn payload_parse(ft: int, p: Seq<u8>) -> Option<FrameModel> {
    if ft == 0x1 {
        match varint_parse(p) {
            Some((v, c)) => if c == p.len() {
                Some(FrameModel::DtpConfig { cfg_len: v as u64 })
            } else {
                None
            },
            None => None,
        }
    } else if ft == 0x2 {
        match varint_parse(p) {
            Some((id, c1)) => match varint_parse(p.skip(c1)) {
                Some((size, c2)) => match varint_parse(p.skip(c1 + c2)) {
                    Some((priority, c3)) => match varint_parse(p.skip(c1 + c2 + c3)) {
                        Some((deadline, c4)) => if c1 + c2 + c3 + c4 == p.len() {
                            Some(
                                FrameModel::BlockInfo {
                                    id: id as u64,
                                    size: size as u64,
                                    priority: priority as u64,
                                    deadline: deadline as u64,
                                },
                            )
                        } else {
                            None
                        },
                        None => None,
                    },
                    None => None,
                },
                None => None,
            },
            None => None,
        }
    } else if ft == 0x3 {
        match varint_parse(p) {
            Some((id, c)) => Some(FrameModel::BlockData { id: id as u64, data: p.skip(c) }),
            None => None,
        }
    } else {
        None
    }
}

/// Outcome of reading one frame from the head of a byte stream.
pub enum WireParse {
    /// The stream ends before the frame does; more bytes are needed.
    Incomplete,
    /// The type value is unrecognized or the payload is malformed.
    Invalid,
    /// One whole frame, and how many bytes of the stream it took.
    Done { frame: FrameModel, consumed: int },
}

/// Reads one frame from the head of `s`: its type, its payload length,
/// then its payload.  An unrecognized type is invalid as soon as the type
/// value itself is readable, whatever follows it.
pub open spec fn wire_parse(s: Seq<u8>) -> WireParse {
    match varint_parse(s) {
        None => WireParse::Incomplete,
        Some((ft, c1)) => if ft != 0x1 && ft != 0x2 && ft != 0x3 {
            WireParse::Invalid
        } else {
            match varint_parse(s.skip(c1)) {
                None => WireParse::Incomplete,
                Some((pl, c2)) => if s.len() < c1 + c2 + pl {
                    WireParse::Incomplete
                } else {
                    match payload_parse(ft, s.subrange(c1 + c2, c1 + c2 + pl)) {
                        None => WireParse::Invalid,
                        Some(m) => WireParse::Done { frame: m, consumed: c1 + c2 + pl },
                    }
                },
            }
        },
    }
}

/// Reads one variable-length integer at `pos` from the first `limit`
/// bytes of `bytes`, refusing an encoding that crosses the limit.
fn decode_varint_within(bytes: &[u8], pos: usize, limit: usize) -> (r: Option<(u64, usize)>)
    requires
        pos <= limit <= bytes@.len(),
    ensures
        ({
            let p = bytes@.take(limit as int).skip(pos as int);
            match r {
                None => varint_parse(p) is None,
                Some((v, c)) => {
                    &&& varint_parse(p) == Some((v as int, c as int))
                    &&& 1 <= c <= 8
                    &&& pos + c <= limit
                    &&& v <= VARINT_MAX
                },
            }
        }),
{
    let ghost s = bytes@.skip(pos as int);
    let ghost p = bytes@.take(limit as int).skip(pos as int);
    proof {
        assert(p =~= s.take(limit - pos));
    }
    match decode_varint(bytes, pos) {
        None => {
            proof {
                if s.len() > 0 && p.len() > 0 {
                    assert(p[0] == s[0]);
                }
            }
            None
        },
        Some((v, c)) => {
            if c <= limit - pos {
                proof {
                    assert(p[0] == s[0]);
                    assert(p.take(c as int) =~= s.take(c as int));
                }
                Some((v, c))
            } else {
                proof {
                    if p.len() > 0 {
                        assert(p[0] == s[0]);
                    }
                }
                None
            }
        },
    }
}

impl StreamFrame {
    /// Decodes one frame payload of kind `frame_type` from the first
    /// `payload_length` bytes of `bytes`.  Fails with `InvalidFrame`, and
    /// only then, when the kind is unrecognized or the payload malformed.
    pub fn from_bytes(frame_type: u64, payload_length: u64, bytes: &[u8]) -> (r: Result<
        StreamFrame,
        DtpError,
    >)
        requires
            payload_length <= bytes@.len(),
            payload_length <= VARINT_MAX,
        ensures
            ({
                let p = bytes@.take(payload_length as int);
                match r {
                    Ok(f) => payload_parse(frame_type as int, p) == Some(f@) && f@.wf(),
                    Err(e) => payload_parse(frame_type as int, p) is None && e
                        == DtpError::InvalidFrame,
                }
            }),
{
        let blen: usize = bytes.len();
        assert(payload_length <= blen);
        let pl: usize = payload_length as usize;
        assert(pl == payload_length);
        let ghost p = bytes@.take(payload_length as int);
        match StreamFrameType::from_wire(frame_type) {
            Some(StreamFrameType::DTP_CONFIG) => {
                match decode_varint_within(bytes, 0, pl) {
                    Some((v, c)) => {
                        proof {
                            assert(p.skip(0) =~= p);
                        }
                        if c == pl {
                            Ok(StreamFrame::DtpConfig { cfg_len: v })
                        } else {
                            Err(DtpError::InvalidFrame)
                        }
                    },
                    None => {
                        proof {
                            assert(p.skip(0) =~= p);
                        }
                        Err(DtpError::InvalidFrame)
                    },
                }
            },
            Some(StreamFrameType::BLOCK_INFO) => {
                proof {
                    assert(p.skip(0) =~= p);
                }
                let r1 = decode_varint_within(bytes, 0, pl);
                if r1.is_none() {
                    return Err(DtpError::InvalidFrame);
                }
                let (id, c1) = r1.unwrap();
                let r2 = decode_varint_within(bytes, c1, pl);
                if r2.is_none() {
                    return Err(DtpError::InvalidFrame);
                }
                let (size, c2) = r2.unwrap();
                let r3 = decode_varint_within(bytes, c1 + c2, pl);
                if r3.is_none() {
                    return Err(DtpError::InvalidFrame);
                }
                let (priority, c3) = r3.unwrap();
                let r4 = decode_varint_within(bytes, c1 + c2 + c3, pl);
                if r4.is_none() {
                    return Err(DtpError::InvalidFrame);
                }
                let (deadline, c4) = r4.unwrap();
                if c1 + c2 + c3 + c4 == pl {
                    Ok(StreamFrame::BlockInfo { id, size, priority, deadline })
                } else {
                    Err(DtpError::InvalidFrame)
                }
            },
            Some(StreamFrameType::BLOCK_DATA) => {
                match decode_varint_within(bytes, 0, pl) {
                    Some((id, c)) => {
                        proof {
                            assert(p.skip(0) =~= p);
                        }
                        let data = slice_to_vec(slice_subrange(bytes, c, pl));
                        proof {
                            assert(data@ =~= p.skip(c as int));
                            crate::varint::lemma_varint_parse_bounds(p);
                        }
                        Ok(StreamFrame::BlockData { id, data })
                    },
                    None => {
                        proof {
                            assert(p.skip(0) =~= p);
                        }
                        Err(DtpError::InvalidFrame)
                    },
                }
            },
            _ => Err(DtpError::InvalidFrame),
        }
    }

    /// Appends this frame's wire encoding (type, payload length, payload)
    /// to `out`; returns how many bytes were written.
    pub fn to_bytes(&self, out: &mut Vec<u8>) -> (n: usize)
        requires
            self@.wf(),
        ensures
            final(out)@ == old(out)@ + self@.wire_bytes(),
            n == self@.wire_bytes().len(),
    {
        let before = out.len();
        let mut payload: Vec<u8> = Vec::new();
        let ft: u64;
        match self {
            StreamFrame::DtpConfig { cfg_len } => {
                ft = 0x1;
                encode_varint(*cfg_len, &mut payload);
            },
            StreamFrame::BlockInfo { id, size, priority, deadline } => {
                ft = 0x2;
                encode_varint(*id, &mut payload);
                encode_varint(*size, &mut payload);
                encode_varint(*priority, &mut payload);
                encode_varint(*deadline, &mut payload);
            },
            StreamFrame::BlockData { id, data } => {
                ft = 0x3;
                encode_varint(*id, &mut payload);
                let mut tail = slice_to_vec(data.as_slice());
                payload.append(&mut tail);
            },
        }
        proof {
            match self@ {
                FrameModel::DtpConfig { cfg_len } => lemma_varint_bytes_len(cfg_len),
                FrameModel::BlockInfo { id, size, priority, deadline } => {
                    lemma_varint_bytes_len(id);
                    lemma_varint_bytes_len(size);
                    lemma_varint_bytes_len(priority);
                    lemma_varint_bytes_len(deadline);
                },
                FrameModel::BlockData { id, data } => lemma_varint_bytes_len(id),
            }
        }
        assert(payload@ =~= self@.payload_bytes());
        encode_varint(ft, out);
        encode_varint(payload.len() as u64, out);
        out.append(&mut payload);
        assert(out@ =~= old(out)@ + self@.wire_bytes());
        out.len() - before
    }
}

/// Outcome of reading one frame from the head of a byte buffer.
pub enum ParseResult {
    Incomplete,
    Invalid,
    Done(StreamFrame, usize),
}

/// Reads one frame from the head of `bytes`: `Incomplete` when the buffer
/// ends before the frame does, `Invalid` for an unrecognized type or a
/// malformed payload, otherwise the frame and the bytes it consumed.
pub fn parse_frame(bytes: &[u8]) -> (r: ParseResult)
    ensures
        match r {
            ParseResult::Incomplete => wire_parse(bytes@) is Incomplete,
            ParseResult::Invalid => wire_parse(bytes@) is Invalid,
            ParseResult::Done(f, c) => {
                &&& wire_parse(bytes@) matches WireParse::Done { frame, consumed } && frame == f@
                    && consumed == c
                &&& f@.wf()
                &&& 1 <= c <= bytes@.len()
            },
        },
{
    let ghost s = bytes@;
    proof {
        assert(s.skip(0) =~= s);
    }
    let blen: usize = bytes.len();
    match decode_varint(bytes, 0) {
        None => ParseResult::Incomplete,
        Some((ft, c1)) => {
            if ft != 0x1 && ft != 0x2 && ft != 0x3 {
                return ParseResult::Invalid;
            }
            match decode_varint(bytes, c1) {
                None => ParseResult::Incomplete,
                Some((pl, c2)) => {
                    let start = c1 + c2;
                    if pl > (blen - start) as u64 {
                        return ParseResult::Incomplete;
                    }
                    let plu: usize = pl as usize;
                    assert(plu == pl);
                    let payload = slice_subrange(bytes, start, start + plu);
                    let ghost sub = s.subrange(start as int, start + pl);
                    proof {
                        assert(payload@.take(pl as int) =~= sub);
                    }
                    match StreamFrame::from_bytes(ft, pl, payload) {
                        Ok(f) => ParseResult::Done(f, start + plu),
                        Err(_) => ParseResult::Invalid,
                    }
                },
            }
        },
    }
}

/// The payload of a well-formed frame parses back to the frame itself
/// when read as its own kind.
#[verifier::rlimit(100)]
pub proof fn lemma_payload_round_trip(m: FrameModel)
    requires
        m.wf(),
    ensures
        payload_parse(m.type_value() as int, m.payload_bytes()) == Some(m),
{
    let p = m.payload_bytes();
    match m {
        FrameModel::DtpConfig { cfg_len } => {
            lemma_varint_bytes_len(cfg_len);
            lemma_varint_round_trip(cfg_len, Seq::<u8>::empty());
            assert(p =~= varint_bytes(cfg_len) + Seq::<u8>::empty());
        },
        FrameModel::BlockInfo { id, size, priority, deadline } => {
            let b1 = varint_bytes(id);
            let b2 = varint_bytes(size);
            let b3 = varint_bytes(priority);
            let b4 = varint_bytes(deadline);
            lemma_varint_bytes_len(id);
            lemma_varint_bytes_len(size);
            lemma_varint_bytes_len(priority);
            lemma_varint_bytes_len(deadline);
            lemma_varint_round_trip(id, b2 + b3 + b4);
            assert(p =~= b1 + (b2 + b3 + b4));
            lemma_varint_round_trip(size, b3 + b4);
            assert(p.skip(b1.len() as int) =~= b2 + (b3 + b4));
            lemma_varint_round_trip(priority, b4);
            assert(p.skip(b1.len() + b2.len() as int) =~= b3 + b4);
            lemma_varint_round_trip(deadline, Seq::<u8>::empty());
            assert(p.skip(b1.len() + b2.len() + b3.len() as int) =~= b4 + Seq::<u8>::empty());
            assert(p.skip(b1.len() + b2.len() + b3.len() as int) =~= b4);
        },
        FrameModel::BlockData { id, data } => {
            lemma_varint_bytes_len(id);
            lemma_varint_round_trip(id, data);
            assert(p =~= varint_bytes(id) + data);
            assert(p.skip(varint_len(id)) =~= data);
        },
    }
}

/// Round trip: the wire encoding of a well-formed frame, whatever bytes
/// follow it, reads back as exactly that frame, consuming exactly its
/// own length.
#[verifier::rlimit(100)]
pub proof fn lemma_frame_round_trip(m: FrameModel, rest: Seq<u8>)
    requires
        m.wf(),
    ensures
        wire_parse(m.wire_bytes() + rest) == (WireParse::Done {
            frame: m,
            consumed: m.wire_bytes().len() as int,
        }),
{
    let tv = m.type_value();
    let payload = m.payload_bytes();
    match m {
        FrameModel::DtpConfig { cfg_len } => {
            lemma_varint_bytes_len(cfg_len);
        },
        FrameModel::BlockInfo { id, size, priority, deadline } => {
            lemma_varint_bytes_len(id);
            lemma_varint_bytes_len(size);
            lemma_varint_bytes_len(priority);
            lemma_varint_bytes_len(deadline);
        },
        FrameModel::BlockData { id, data } => {
            lemma_varint_bytes_len(id);
        },
    }
    assert(payload.len() <= VARINT_MAX);
    let plen = payload.len() as u64;
    let bt = varint_bytes(tv);
    let bl = varint_bytes(plen);
    let s = m.wire_bytes() + rest;
    lemma_varint_bytes_len(tv);
    lemma_varint_bytes_len(plen);
    lemma_varint_round_trip(tv, bl + payload + rest);
    assert(s =~= bt + (bl + payload + rest));
    lemma_varint_round_trip(plen, payload + rest);
    assert(s.skip(bt.len() as int) =~= bl + (payload + rest));
    assert(s.len() >= bt.len() + bl.len() + payload.len());
    assert(s.subrange(bt.len() + bl.len() as int, bt.len() + bl.len() + payload.len() as int) =~= payload);
    lemma_payload_round_trip(m);
}

/// A block as it is reassembled by the receiver: its announced metadata
/// and the payload bytes accumulated so far.
#[derive(Debug, Clone, PartialEq, Eq)]
pub struct Block {
    pub info: BlockInfo,
    pub data: Vec<u8>,
}

impl Block {
    /// The accumulated payload never exceeds the announced size.
    pub open spec fn wf(self) -> bool {
        self.data@.len() <= self.info.size
    }

    /// A block is fully received when the accumulated payload reaches the
    /// announced size.
    pub open spec fn spec_is_complete(self) -> bool {
        self.data@.len() == self.info.size
    }

    /// A fresh block with no payload received yet.
    pub fn new(info: BlockInfo) -> (b: Block)
        ensures
            b.info == info,
            b.data@ == Seq::<u8>::empty(),
            b.wf(),
    {
        Block { info, data: Vec::new() }
    }

    /// Appends one received chunk to the payload.
    pub fn append_data(&mut self, chunk: &[u8])
        requires
            old(self).data@.len() + chunk@.len() <= old(self).info.size,
        ensures
            final(self).info == old(self).info,
            final(self).data@ == old(self).data@ + chunk@,
            final(self).wf(),
    {
        let mut tail = slice_to_vec(chunk);
        self.data.append(&mut tail);
    }

    /// Whether the whole payload has been received.
    pub fn is_complete(&self) -> (r: bool)
        ensures
            r == self.spec_is_complete(),
    {
        self.data.len() == self.info.size
    }
}

} // verus!
