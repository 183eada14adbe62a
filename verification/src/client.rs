use vstd::prelude::*;

verus! {

/// The lifecycle of one outbound connection.
#[derive(Debug, Clone, Copy, PartialEq, Eq, Structural)]
pub enum ClientPhase {
    Idle,
    Connecting,
    Established,
    Closed,
}

/// What the event loop should do with the session's timer after a step.
#[derive(Debug, Clone, Copy, PartialEq, Eq, Structural)]
pub enum TimerAction {
    /// Fire again after this many milliseconds.
    Rearm(u64),
    /// Do not re-arm; the session is over.
    Stop,
}

/// One outbound connection's lifecycle: idle until the initial timer
/// fires, then connecting, established once the transport reports so —
/// at which point exactly one application request is sent — and closed
/// when the response ends or the transport closes.  The event loop
/// performs the transport work; this machine makes every decision.
#[derive(Debug, Clone, Copy, PartialEq, Eq, Structural)]
pub struct ClientSession {
    pub phase: ClientPhase,
    pub req_sent: bool,
}

impl ClientSession {
    /// A session that has not started connecting yet.
    pub fn new() -> (s: ClientSession)
        ensures
            s.phase == ClientPhase::Idle,
            !s.req_sent,
    {
        ClientSession { phase: ClientPhase::Idle, req_sent: false }
    }

    /// The initial timer fired: the connection object is created and the
    /// first handshake packet goes out now.
    pub fn start_connecting(&mut self)
        requires
            old(self).phase == ClientPhase::Idle,
        ensures
            final(self).phase == ClientPhase::Connecting,
            final(self).req_sent == old(self).req_sent,
    {
        self.phase = ClientPhase::Connecting;
    }

    /// A receive event was processed; `established` and `closed` are
    /// what the transport now reports.  Returns whether to send the
    /// application request — true at most once per session: the first
    /// time the connection reports established.
    pub fn on_receive(&mut self, established: bool, closed: bool) -> (send_request: bool)
        ensures
            final(self).req_sent == (old(self).req_sent || send_request),
            closed ==> final(self).phase == ClientPhase::Closed && !send_request,
            !closed && established && !old(self).req_sent ==> final(self).phase
                == ClientPhase::Established && send_request,
            !closed && established && old(self).req_sent ==> final(self).phase
                == ClientPhase::Established && !send_request,
            !closed && !established ==> *final(self) == *old(self) && !send_request,
            old(self).req_sent ==> !send_request,
    {
        if closed {
            self.phase = ClientPhase::Closed;
            return false;
        }
        if established {
            self.phase = ClientPhase::Established;
            if !self.req_sent {
                self.req_sent = true;
                return true;
            }
        }
        false
    }

    /// The server signalled end-of-stream on the expected response
    /// stream: the session is over.
    pub fn on_response_end(&mut self)
        ensures
            final(self).phase == ClientPhase::Closed,
            final(self).req_sent == old(self).req_sent,
    {
        self.phase = ClientPhase::Closed;
    }

    /// The session's timer fired and the transport's timeout handler
    /// ran; `closed` and `next_timeout` are what the transport now
    /// reports.  A closed connection ends the session and stops the
    /// timer; otherwise the timer follows the transport's next timeout,
    /// stopping when it reports none.
    pub fn on_timeout(&mut self, closed: bool, next_timeout: Option<u64>) -> (a: TimerAction)
        ensures
            final(self).req_sent == old(self).req_sent,
            closed ==> final(self).phase == ClientPhase::Closed && a == TimerAction::Stop,
            !closed ==> final(self).phase == old(self).phase && (match next_timeout {
                Some(d) => a == TimerAction::Rearm(d),
                None => a == TimerAction::Stop,
            }),
    {
        if closed {
            self.phase = ClientPhase::Closed;
            return TimerAction::Stop;
        }
        match next_timeout {
            Some(d) => TimerAction::Rearm(d),
            None => TimerAction::Stop,
        }
    }

    /// Whether the event loop should keep running for this session.
    pub fn is_active(&self) -> (r: bool)
        ensures
            r == (self.phase != ClientPhase::Closed),
    {
        match self.phase {
            ClientPhase::Closed => false,
            _ => true,
        }
    }
}

} // verus!
