use dtp::client::ClientPhase;
use dtp::client::ClientSession;
use dtp::client::TimerAction;

#[test]
fn session_walks_its_lifecycle() {
    let mut s = ClientSession::new();
    assert_eq!(s.phase, ClientPhase::Idle);
    assert!(s.is_active());

    s.start_connecting();
    assert_eq!(s.phase, ClientPhase::Connecting);

    // Not yet established: nothing to send.
    assert!(!s.on_receive(false, false));
    assert_eq!(s.phase, ClientPhase::Connecting);

    // Established: the one application request goes out.
    assert!(s.on_receive(true, false));
    assert_eq!(s.phase, ClientPhase::Established);

    s.on_response_end();
    assert_eq!(s.phase, ClientPhase::Closed);
    assert!(!s.is_active());
}

#[test]
fn request_is_sent_exactly_once() {
    let mut s = ClientSession::new();
    s.start_connecting();
    let mut sends = 0;
    for _ in 0..5 {
        if s.on_receive(true, false) {
            sends += 1;
        }
    }
    assert_eq!(sends, 1);
    assert!(s.req_sent);
}

#[test]
fn closed_transport_ends_the_session() {
    let mut s = ClientSession::new();
    s.start_connecting();
    assert!(!s.on_receive(true, true));
    assert_eq!(s.phase, ClientPhase::Closed);
}

#[test]
fn timeout_follows_the_transport() {
    let mut s = ClientSession::new();
    s.start_connecting();
    assert_eq!(s.on_timeout(false, Some(250)), TimerAction::Rearm(250));
    assert_eq!(s.phase, ClientPhase::Connecting);
    assert_eq!(s.on_timeout(false, None), TimerAction::Stop);
    assert_eq!(s.on_timeout(true, Some(250)), TimerAction::Stop);
    assert_eq!(s.phase, ClientPhase::Closed);
}
