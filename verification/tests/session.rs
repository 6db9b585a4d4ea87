use glove_core::interboard::session::{
    Session, SessionAction, SessionEvent, SessionPhase, CONN_INTERVAL, SLAVE_LATENCY,
};

#[test]
fn session_opens_after_connect_and_discover() {
    let mut s = Session::new();
    assert_eq!(s.phase(), SessionPhase::Connecting);
    assert_eq!(s.step(SessionEvent::Connected(true)), SessionAction::Discover);
    assert_eq!(s.step(SessionEvent::Discovered(true)), SessionAction::Run);
    assert_eq!(s.phase(), SessionPhase::Open);
}

#[test]
fn session_starts_over_on_any_failure() {
    let mut s = Session::new();
    for _ in 0..5 {
        assert_eq!(s.step(SessionEvent::Connected(false)), SessionAction::Connect);
    }
    assert_eq!(s.step(SessionEvent::Connected(true)), SessionAction::Discover);
    assert_eq!(s.step(SessionEvent::Discovered(false)), SessionAction::Connect);
    assert_eq!(s.step(SessionEvent::Connected(true)), SessionAction::Discover);
    assert_eq!(s.step(SessionEvent::Discovered(true)), SessionAction::Run);
    assert_eq!(s.step(SessionEvent::Closed), SessionAction::Connect);
    assert_eq!(s.phase(), SessionPhase::Connecting);
}

#[test]
fn stray_events_change_nothing() {
    let mut s = Session::new();
    assert_eq!(s.step(SessionEvent::Closed), SessionAction::Connect);
    assert_eq!(s.step(SessionEvent::Discovered(true)), SessionAction::Connect);
    assert_eq!(s.phase(), SessionPhase::Connecting);
    assert_eq!((CONN_INTERVAL, SLAVE_LATENCY), (6, 30));
}
