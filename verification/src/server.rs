use crate::bytes_eq;
use vstd::prelude::*;
use vstd::slice::slice_subrange;
use vstd::slice::slice_to_vec;

verus! {

/// Length of the connection identifiers this server mints: derived ids
/// are truncated to it, and the id a client echoes back must have it.
pub const MAX_CONN_ID_LEN: usize = 20;

/// Idle duration, in seconds, that the shared timer falls back to when
/// no connection reports a next timeout.
pub const IDLE_TIMEOUT_SECS: u64 = 5;

/// The static marker that opens every validation token.
pub open spec fn token_prefix() -> Seq<u8> {
    seq![0x71u8, 0x75u8, 0x69u8, 0x63u8, 0x68u8, 0x65u8]
}

/// The token minted for a client at address `addr` (as raw address
/// octets) that chose the destination connection id `dcid`: the static
/// marker, the address, then the id.
pub open spec fn token_bytes(addr: Seq<u8>, dcid: Seq<u8>) -> Seq<u8> {
    token_prefix() + addr + dcid
}

/// What validating `token` against `addr` yields: the embedded
/// connection id when the marker and the address bind, nothing
/// otherwise.
pub open spec fn spec_validate_token(addr: Seq<u8>, token: Seq<u8>) -> Option<Seq<u8>> {
    if token.len() >= 6 + addr.len() as int && token.take(6) == token_prefix() && token.subrange(
        6,
        6 + addr.len() as int,
    ) == addr {
        Some(token.skip(6 + addr.len() as int))
    } else {
        None
    }
}

/// Mints a stateless-retry token binding the client's address octets and
/// its chosen destination connection id.  The scheme is a plaintext
/// address binding, not a cryptographic one.
pub fn mint_token(addr: &[u8], dcid: &[u8]) -> (r: Vec<u8>)
    ensures
        r@ == token_bytes(addr@, dcid@),
{
    let mut token: Vec<u8> = Vec::new();
    token.push(0x71);
    token.push(0x75);
    token.push(0x69);
    token.push(0x63);
    token.push(0x68);
    token.push(0x65);
    let mut a = slice_to_vec(addr);
    token.append(&mut a);
    let mut d = slice_to_vec(dcid);
    token.append(&mut d);
    assert(token@ =~= token_bytes(addr@, dcid@));
    token
}

/// Validates a stateless-retry token against the client's address
/// octets; returns the embedded original destination connection id, or
/// `None` exactly when the marker or the address does not bind.
pub fn validate_token(addr: &[u8], token: &[u8]) -> (r: Option<Vec<u8>>)
    ensures
        match r {
            Some(v) => spec_validate_token(addr@, token@) == Some(v@),
            None => spec_validate_token(addr@, token@) is None,
        },
{
    if token.len() < 6 {
        return None;
    }
    let alen = addr.len();
    if token.len() - 6 < alen {
        return None;
    }
    let prefix = slice_subrange(token, 0, 6);
    let mut marker: Vec<u8> = Vec::new();
    marker.push(0x71);
    marker.push(0x75);
    marker.push(0x69);
    marker.push(0x63);
    marker.push(0x68);
    marker.push(0x65);
    assert(marker@ =~= token_prefix());
    if !bytes_eq(prefix, marker.as_slice()) {
        proof {
            assert(token@.take(6) =~= prefix@);
        }
        return None;
    }
    let mid = slice_subrange(token, 6, 6 + alen);
    if !bytes_eq(mid, addr) {
        proof {
            assert(token@.subrange(6, 6 + addr@.len() as int) =~= mid@);
        }
        return None;
    }
    let rest = slice_to_vec(slice_subrange(token, 6 + alen, token.len()));
    proof {
        assert(token@.take(6) =~= prefix@);
        assert(token@.subrange(6, 6 + addr@.len() as int) =~= mid@);
        assert(rest@ =~= token@.skip(6 + addr@.len() as int));
    }
    Some(rest)
}

/// Round trip: a token minted for an address validates at that address
/// and yields back exactly the connection id it was minted for.
pub proof fn lemma_token_round_trip(addr: Seq<u8>, dcid: Seq<u8>)
    ensures
        spec_validate_token(addr, token_bytes(addr, dcid)) == Some(dcid),
{
    let t = token_bytes(addr, dcid);
    assert(t.take(6) =~= token_prefix());
    assert(t.subrange(6, 6 + addr.len() as int) =~= addr);
    assert(t.skip(6 + addr.len() as int) =~= dcid);
}

/// What the server reads off an incoming packet's header before it
/// decides about a connection attempt: the packet kind, whether the
/// declared protocol version is one the transport supports, the
/// destination connection id, and the validation token if one came.
#[derive(Debug, Clone)]
pub struct HeaderInfo {
    pub is_initial: bool,
    pub version_supported: bool,
    pub dcid: Vec<u8>,
    pub token: Option<Vec<u8>>,
}

/// The server's decision about a packet that matches no existing
/// connection.
#[derive(Debug, Clone, PartialEq, Eq)]
pub enum AdmissionDecision {
    /// Not an Initial packet: dropped without reply.
    NotInitial,
    /// Unsupported version: reply with a version negotiation packet.
    NegotiateVersion,
    /// No token yet: reply with a retry packet carrying this token.
    Retry { token: Vec<u8> },
    /// The token does not bind to the sender: dropped without reply.
    InvalidToken,
    /// The echoed connection id has the wrong length: dropped.
    InvalidConnId,
    /// Admitted: create the connection under the client's destination
    /// id, with this original destination id.
    Accept { odcid: Vec<u8> },
}

impl AdmissionDecision {
    /// The error a rejecting decision reports: a rejected packet is
    /// dropped with `AdmissionRejected`.  A negotiation or retry reply,
    /// and an accept, are not errors.
    pub fn rejection_error(&self) -> (r: Option<crate::DtpError>)
        ensures
            (self is NotInitial || self is InvalidToken || self is InvalidConnId) ==> r == Some(
                crate::DtpError::AdmissionRejected,
            ),
            !(self is NotInitial || self is InvalidToken || self is InvalidConnId) ==> r is None,
    {
        match self {
            AdmissionDecision::NotInitial => Some(crate::DtpError::AdmissionRejected),
            AdmissionDecision::InvalidToken => Some(crate::DtpError::AdmissionRejected),
            AdmissionDecision::InvalidConnId => Some(crate::DtpError::AdmissionRejected),
            _ => None,
        }
    }
}

/// Whether an Initial packet carries no token at all.
pub open spec fn token_absent(token: Option<Vec<u8>>) -> bool {
    match token {
        None => true,
        Some(t) => t@.len() == 0,
    }
}

/// Decides a new-connection attempt, exactly as the admission rules
/// order them: require an Initial packet; negotiate an unsupported
/// version; answer a tokenless attempt with a retry token binding the
/// sender's address; drop an attempt whose token does not validate or
/// whose echoed connection id has the wrong length; admit the rest.
pub fn admit_new_connection(hdr: &HeaderInfo, src_addr: &[u8]) -> (d: AdmissionDecision)
    ensures
        !hdr.is_initial ==> d == AdmissionDecision::NotInitial,
        hdr.is_initial && !hdr.version_supported ==> d == AdmissionDecision::NegotiateVersion,
        hdr.is_initial && hdr.version_supported && token_absent(hdr.token) ==> (d matches
            AdmissionDecision::Retry { token } && token@ == token_bytes(src_addr@, hdr.dcid@)),
        hdr.is_initial && hdr.version_supported && !token_absent(hdr.token) ==> ({
            let t = hdr.token.unwrap();
            match spec_validate_token(src_addr@, t@) {
                None => d == AdmissionDecision::InvalidToken,
                Some(o) => if hdr.dcid@.len() != MAX_CONN_ID_LEN {
                    d == AdmissionDecision::InvalidConnId
                } else {
                    d matches AdmissionDecision::Accept { odcid } && odcid@ == o
                },
            }
        }),
{
    if !hdr.is_initial {
        return AdmissionDecision::NotInitial;
    }
    if !hdr.version_supported {
        return AdmissionDecision::NegotiateVersion;
    }
    let token = match &hdr.token {
        None => {
            return AdmissionDecision::Retry { token: mint_token(src_addr, hdr.dcid.as_slice()) };
        },
        Some(t) => t,
    };
    if token.len() == 0 {
        return AdmissionDecision::Retry { token: mint_token(src_addr, hdr.dcid.as_slice()) };
    }
    match validate_token(src_addr, token.as_slice()) {
        None => AdmissionDecision::InvalidToken,
        Some(odcid) => {
            if hdr.dcid.len() != MAX_CONN_ID_LEN {
                AdmissionDecision::InvalidConnId
            } else {
                AdmissionDecision::Accept { odcid }
            }
        },
    }
}

/// The earliest of the timeouts that are reported at all; `None` when
/// none is.
fn min_timeout(timeouts: &Vec<Option<u64>>) -> (r: Option<u64>)
    ensures
        r is None <==> (forall|i: int| 0 <= i < timeouts@.len() ==> timeouts@[i] is None),
        r matches Some(b) ==> (exists|i: int| 0 <= i < timeouts@.len() && timeouts@[i] == Some(b))
            && (forall|i: int|
            0 <= i < timeouts@.len() ==> (#[trigger] timeouts@[i] matches Some(v) ==> b <= v)),
{
    let mut best: Option<u64> = None;
    let n = timeouts.len();
    let mut i: usize = 0;
    while i < n
        invariant
            n == timeouts@.len(),
            0 <= i <= n,
            best is None ==> forall|k: int| 0 <= k < i ==> timeouts@[k] is None,
            best matches Some(b) ==> (exists|k: int| 0 <= k < i && timeouts@[k] == Some(b)),
            best matches Some(b) ==> forall|k: int|
                0 <= k < i ==> (#[trigger] timeouts@[k] matches Some(v) ==> b <= v),
        decreases n - i,
    {
        match timeouts[i] {
            Some(t) => {
                best = match best {
                    None => Some(t),
                    Some(b) => if t < b {
                        Some(t)
                    } else {
                        Some(b)
                    },
                };
            },
            None => {},
        }
        i = i + 1;
    }
    best
}

/// The single shared timer is re-armed to the earliest of the live
/// connections' next timeouts, or to `fallback` when none reports one:
/// no connection's deadline is missed.
pub fn coalesce_timer(timeouts: &Vec<Option<u64>>, fallback: u64) -> (r: u64)
    ensures
        (forall|i: int| 0 <= i < timeouts@.len() ==> timeouts@[i] is None) ==> r == fallback,
        (exists|i: int| 0 <= i < timeouts@.len() && timeouts@[i] is Some) ==> (exists|i: int|
            0 <= i < timeouts@.len() && timeouts@[i] == Some(r)),
        forall|i: int|
            0 <= i < timeouts@.len() ==> (#[trigger] timeouts@[i] matches Some(v) ==> r <= v),
{
    match min_timeout(timeouts) {
        Some(b) => b,
        None => fallback,
    }
}

/// Pending write state for one outbound stream: the response body and
/// how much of it the transport has accepted so far.
#[derive(Debug, Clone)]
pub struct PartialResponse {
    pub body: Vec<u8>,
    pub written: usize,
}

impl PartialResponse {
    /// Progress never passes the end of the body.
    pub open spec fn wf(self) -> bool {
        self.written <= self.body@.len()
    }
}

/// Per-peer server state: the connection identifier it is stored under
/// and the pending write state of each of its streams.  The transport
/// handle itself lives beside this, with the event loop.
#[derive(Debug)]
pub struct Connection {
    pub key: Vec<u8>,
    pub partial_responses: Vec<(u64, PartialResponse)>,
}

/// Whether some entry of `s` is for stream `id`.
pub open spec fn has_stream(s: Seq<(u64, PartialResponse)>, id: u64) -> bool {
    exists|i: int| 0 <= i < s.len() && (#[trigger] s[i]).0 == id
}

impl Connection {
    /// Stream keys are unique and every pending response is well formed.
    pub open spec fn wf(self) -> bool {
        &&& (forall|i: int, j: int|
            0 <= i < j < self.partial_responses@.len() ==> (#[trigger] self.partial_responses@[i]).0
                != (#[trigger] self.partial_responses@[j]).0)
        &&& (forall|i: int|
            0 <= i < self.partial_responses@.len() ==> (#[trigger] self.partial_responses@[i]).1.wf())
    }

    /// A fresh connection under `key`, with no pending responses.
    pub fn new(key: Vec<u8>) -> (c: Connection)
        ensures
            c.key == key,
            c.partial_responses@ == Seq::<(u64, PartialResponse)>::empty(),
            c.wf(),
    {
        Connection { key, partial_responses: Vec::new() }
    }

    /// The position of the pending response for stream `id`, if any.
    pub fn find_response(&self, id: u64) -> (r: Option<usize>)
        ensures
            match r {
                Some(i) => i < self.partial_responses@.len() && self.partial_responses@[i as int].0
                    == id,
                None => !has_stream(self.partial_responses@, id),
            },
    {
        let n = self.partial_responses.len();
        let mut i: usize = 0;
        while i < n
            invariant
                n == self.partial_responses@.len(),
                0 <= i <= n,
                forall|k: int| 0 <= k < i ==> (#[trigger] self.partial_responses@[k]).0 != id,
            decreases n - i,
        {
            if self.partial_responses[i].0 == id {
                return Some(i);
            }
            i = i + 1;
        }
        None
    }

    /// Stores the pending write state for stream `id`; nothing of it may
    /// be stored yet.
    pub fn insert_response(&mut self, id: u64, resp: PartialResponse)
        requires
            old(self).wf(),
            !has_stream(old(self).partial_responses@, id),
            resp.wf(),
        ensures
            final(self).key == old(self).key,
            final(self).partial_responses@ == old(self).partial_responses@.push((id, resp)),
            final(self).wf(),
    {
        self.partial_responses.push((id, resp));
    }

    /// Records that the transport accepted `accepted` more bytes of the
    /// pending response for stream `id`.  Returns `None` when no response
    /// is pending for that stream (and changes nothing); otherwise
    /// whether the response is now fully written and was removed.
    pub fn record_write(&mut self, id: u64, accepted: usize) -> (r: Option<bool>)
        requires
            old(self).wf(),
            forall|i: int|
                0 <= i < old(self).partial_responses@.len() && (#[trigger] old(self).partial_responses@[i]).0
                    == id ==> old(self).partial_responses@[i].1.written + accepted <= old(
                    self,
                ).partial_responses@[i].1.body@.len(),
        ensures
            final(self).key == old(self).key,
            final(self).wf(),
            ({
                let pre = old(self).partial_responses@;
                let post = final(self).partial_responses@;
                match r {
                    None => !has_stream(pre, id) && post == pre,
                    Some(done) => exists|i: int|
                        {
                            &&& 0 <= i < pre.len()
                            &&& (#[trigger] pre[i]).0 == id
                            &&& ({
                                let entry = pre[i];
                                let moved = entry.1.written + accepted;
                                if moved == entry.1.body@.len() {
                                    done && post == pre.remove(i)
                                } else {
                                    !done && post == pre.update(
                                        i,
                                        (
                                            id,
                                            (PartialResponse {
                                                body: entry.1.body,
                                                written: moved as usize,
                                            }),
                                        ),
                                    )
                                }
                            })
                        },
                }
            }),
    {
        let idx = match self.find_response(id) {
            None => {
                return None;
            },
            Some(i) => i,
        };
        let ghost pre = self.partial_responses@;
        assert(pre[idx as int].1.written + accepted <= pre[idx as int].1.body@.len());
        let entry = &mut self.partial_responses[idx];
        let cap = entry.1.body.len();
        entry.1.written = entry.1.written + accepted;
        let done = entry.1.written == cap;
        let ghost mid = self.partial_responses@;
        if done {
            let _ = self.partial_responses.remove(idx);
            proof {
                let post = self.partial_responses@;
                assert(post =~= pre.remove(idx as int));
                assert forall|i: int, j: int| 0 <= i < j < post.len() implies (
                #[trigger] post[i]).0 != (#[trigger] post[j]).0 by {
                    let i0: int = if i < idx { i } else { i + 1 };
                    let j0: int = if j < idx { j } else { j + 1 };
                    assert(post[i] == pre[i0] && post[j] == pre[j0]);
                }
            }
            Some(true)
        } else {
            proof {
                let post = self.partial_responses@;
                assert(post =~= pre.update(
                    idx as int,
                    (
                        id,
                        (PartialResponse {
                            body: pre[idx as int].1.body,
                            written: (pre[idx as int].1.written + accepted) as usize,
                        }),
                    ),
                ));
            }
            Some(false)
        }
    }
}

/// The connections the server currently serves, looked up by connection
/// identifier.
#[derive(Debug)]
pub struct ConnectionTable {
    pub conns: Vec<Connection>,
}

/// Whether some connection of `s` is stored under `key`.
pub open spec fn has_conn(s: Seq<Connection>, key: Seq<u8>) -> bool {
    exists|i: int| 0 <= i < s.len() && (#[trigger] s[i]).key@ == key
}

/// The connections that survive garbage collection: those whose flag
/// says they are not closed, in their original order.
pub open spec fn gc_result(s: Seq<Connection>, closed: Seq<bool>) -> Seq<Connection>
    decreases s.len(),
{
    if s.len() == 0 {
        Seq::empty()
    } else if closed[0] {
        gc_result(s.skip(1), closed.skip(1))
    } else {
        seq![s[0]] + gc_result(s.skip(1), closed.skip(1))
    }
}

/// Appending one connection and its flag extends the collection result
/// by that connection exactly when its flag is clear.
proof fn lemma_gc_snoc(s: Seq<Connection>, closed: Seq<bool>, c: Connection, b: bool)
    requires
        s.len() == closed.len(),
    ensures
        gc_result(s.push(c), closed.push(b)) == gc_result(s, closed) + if b {
            Seq::<Connection>::empty()
        } else {
            seq![c]
        },
    decreases s.len(),
{
    if s.len() == 0 {
        assert(s.push(c).skip(1) =~= Seq::<Connection>::empty());
        assert(gc_result(s.push(c).skip(1), closed.push(b).skip(1))
            =~= Seq::<Connection>::empty());
        assert(gc_result(s.push(c), closed.push(b)) =~= gc_result(s, closed) + if b {
            Seq::<Connection>::empty()
        } else {
            seq![c]
        });
    } else {
        assert(s.push(c).skip(1) =~= s.skip(1).push(c));
        assert(closed.push(b).skip(1) =~= closed.skip(1).push(b));
        lemma_gc_snoc(s.skip(1), closed.skip(1), c, b);
        assert(gc_result(s.push(c), closed.push(b)) =~= gc_result(s, closed) + if b {
            Seq::<Connection>::empty()
        } else {
            seq![c]
        });
    }
}

impl ConnectionTable {
    /// A table with no connections.
    pub fn new() -> (t: ConnectionTable)
        ensures
            t.conns@ == Seq::<Connection>::empty(),
    {
        ConnectionTable { conns: Vec::new() }
    }

    /// How many connections are live.
    pub fn len(&self) -> (n: usize)
        ensures
            n == self.conns@.len(),
    {
        self.conns.len()
    }

    /// The position of the connection stored under the packet's raw
    /// destination id or under the derived id, if either is known.
    pub fn find(&self, dcid: &[u8], derived: &[u8]) -> (r: Option<usize>)
        ensures
            match r {
                Some(i) => i < self.conns@.len() && (self.conns@[i as int].key@ == dcid@
                    || self.conns@[i as int].key@ == derived@),
                None => !has_conn(self.conns@, dcid@) && !has_conn(self.conns@, derived@),
            },
    {
        let n = self.conns.len();
        let mut i: usize = 0;
        while i < n
            invariant
                n == self.conns@.len(),
                0 <= i <= n,
                forall|k: int|
                    0 <= k < i ==> (#[trigger] self.conns@[k]).key@ != dcid@ && self.conns@[k].key@
                        != derived@,
            decreases n - i,
        {
            let key = self.conns[i].key.as_slice();
            if bytes_eq(key, dcid) || bytes_eq(key, derived) {
                return Some(i);
            }
            i = i + 1;
        }
        None
    }

    /// Admits a connection: stores it under its key, which must not be
    /// taken.
    pub fn insert(&mut self, c: Connection)
        requires
            !has_conn(old(self).conns@, c.key@),
        ensures
            final(self).conns@ == old(self).conns@.push(c),
    {
        self.conns.push(c);
    }

    /// Exclusive access to the connection at position `i`.
    pub fn get_mut(&mut self, i: usize) -> (r: &mut Connection)
        requires
            i < old(self).conns@.len(),
        ensures
            *r == old(self).conns@[i as int],
            final(self).conns@ == old(self).conns@.update(i as int, *final(r)),
    {
        &mut self.conns[i]
    }

    /// Removes every connection whose transport reports it closed:
    /// `closed[i]` answers for the connection at position `i`.  The
    /// survivors keep their order.
    pub fn collect_garbage(&mut self, closed: &Vec<bool>)
        requires
            closed@.len() == old(self).conns@.len(),
        ensures
            final(self).conns@ == gc_result(old(self).conns@, closed@),
    {
        let ghost pre = self.conns@;
        let mut kept: Vec<Connection> = Vec::new();
        let n = self.conns.len();
        let mut i: usize = 0;
        while i < n
            invariant
                n == pre.len(),
                closed@.len() == pre.len(),
                0 <= i <= n,
                self.conns@ == pre.skip(i as int),
                kept@ == gc_result(pre.take(i as int), closed@.take(i as int)),
            decreases n - i,
        {
            proof {
                assert(pre.take(i + 1) =~= pre.take(i as int).push(pre[i as int]));
                assert(closed@.take(i + 1) =~= closed@.take(i as int).push(closed@[i as int]));
                lemma_gc_snoc(
                    pre.take(i as int),
                    closed@.take(i as int),
                    pre[i as int],
                    closed@[i as int],
                );
            }
            let c = self.conns.remove(0);
            proof {
                assert(c == pre[i as int]);
                assert(self.conns@ =~= pre.skip(i + 1));
            }
            if !closed[i] {
                kept.push(c);
                assert(kept@ =~= gc_result(pre.take(i + 1), closed@.take(i + 1)));
            } else {
                assert(kept@ =~= gc_result(pre.take(i + 1), closed@.take(i + 1)));
            }
            i = i + 1;
        }
        proof {
            assert(pre.take(n as int) =~= pre);
            assert(closed@.take(n as int) =~= closed@);
        }
        self.conns = kept;
    }
}

/// What the event loop should do with the shared timer after the
/// timeout callback has run on every connection.
#[derive(Debug, Clone, Copy, PartialEq, Eq, Structural)]
pub enum ServerTimerAction {
    /// Fire again after this many milliseconds.
    Rearm(u64),
    /// Leave the timer unarmed; connections remain.
    Disarm,
    /// No connections and nothing pending: the loop may stop.
    Stop,
}

/// Decides the shared timer after a timeout tick: re-arm to the
/// earliest next timeout any connection reports; with none reported,
/// leave the timer unarmed, or stop the loop outright when no
/// connection remains.
pub fn server_timeout_rearm(timeouts: &Vec<Option<u64>>, any_conns: bool) -> (a: ServerTimerAction)
    ensures
        (forall|i: int| 0 <= i < timeouts@.len() ==> timeouts@[i] is None) ==> a == (if any_conns {
            ServerTimerAction::Disarm
        } else {
            ServerTimerAction::Stop
        }),
        (exists|i: int| 0 <= i < timeouts@.len() && timeouts@[i] is Some) ==> (a matches
            ServerTimerAction::Rearm(r) && (exists|i: int|
            0 <= i < timeouts@.len() && timeouts@[i] == Some(r)) && (forall|i: int|
            0 <= i < timeouts@.len() ==> (#[trigger] timeouts@[i] matches Some(v) ==> r <= v))),
{
    match min_timeout(timeouts) {
        Some(b) => ServerTimerAction::Rearm(b),
        None => if any_conns {
            ServerTimerAction::Disarm
        } else {
            ServerTimerAction::Stop
        },
    }
}

/// The HMAC-SHA256 tag of `data` under the key bytes `key`: a
/// deterministic function of the two byte strings alone.
pub uninterp spec fn hmac_of(key: Seq<u8>, data: Seq<u8>) -> Seq<u8>;

/// Relies on ring::hmac::sign with an HMAC-SHA256 key built by
/// ring::hmac::Key::new from the key bytes: the tag depends on the key
/// and data bytes alone, and SHA-256 tags are 32 bytes long.  The input
/// bounds keep clear of the digest's own input limit.
#[verifier::external_body]
fn hmac_tag(key: &[u8], data: &[u8]) -> (r: Vec<u8>)
    requires
        key@.len() < 0x1000_0000_0000_0000,
        data@.len() < 0x1000_0000_0000_0000,
    ensures
        r@ == hmac_of(key@, data@),
        r@.len() == 32,
{
    let k = ring::hmac::Key::new(ring::hmac::HMAC_SHA256, key);
    ring::hmac::sign(&k, data).as_ref().to_vec()
}

/// Derives the server-chosen connection id for a packet: the keyed hash
/// of the client's destination id, truncated to `MAX_CONN_ID_LEN`
/// bytes.  The key bytes are drawn once per server at startup.
pub fn derive_conn_id(key: &[u8], dcid: &[u8]) -> (r: Vec<u8>)
    requires
        key@.len() < 0x1000_0000_0000_0000,
        dcid@.len() < 0x1000_0000_0000_0000,
    ensures
        r@ == hmac_of(key@, dcid@).take(MAX_CONN_ID_LEN as int),
        r@.len() == MAX_CONN_ID_LEN,
{
    let tag = hmac_tag(key, dcid);
    let id = slice_to_vec(slice_subrange(tag.as_slice(), 0, MAX_CONN_ID_LEN));
    proof {
        assert(id@ =~= hmac_of(key@, dcid@).take(MAX_CONN_ID_LEN as int));
    }
    id
}

} // verus!
