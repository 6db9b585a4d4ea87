//! Keeping the link between the halves up.
//!
//! The central looks for the other half, connects, discovers its service
//! and then runs the connection until it ends. Whatever goes wrong, it
//! starts over at once; the radio paces the attempts.

use vstd::prelude::*;

verus! {

/// Connection interval of the link, in units of 1.25 ms, lowest and highest.
pub const CONN_INTERVAL: u16 = 6;

/// Connection events the peripheral may skip while it has nothing to send.
pub const SLAVE_LATENCY: u16 = 30;

/// Where the central stands.
#[derive(Clone, Copy, Debug, PartialEq, Eq, Structural)]
pub enum SessionPhase {
    /// It scans for the other half.
    Connecting,
    /// It is connected and looks for the service of the other half.
    Discovering,
    /// The connection runs.
    Open,
}

/// What happened since the last step.
#[derive(Clone, Copy, Debug, PartialEq, Eq, Structural)]
pub enum SessionEvent {
    /// The connection attempt ended, with success or not.
    Connected(bool),
    /// The discovery ended, with success or not.
    Discovered(bool),
    /// The connection ended.
    Closed,
}

/// What the driver of the session has to do next.
#[derive(Clone, Copy, Debug, PartialEq, Eq, Structural)]
pub enum SessionAction {
    /// Scan for the other half and connect to it.
    Connect,
    /// Discover the service of the other half.
    Discover,
    /// Run the connection: receive, and send what is queued.
    Run,
}

/// The phase after an event.
pub open spec fn session_phase(phase: SessionPhase, event: SessionEvent) -> SessionPhase {
    match (phase, event) {
        (SessionPhase::Connecting, SessionEvent::Connected(true)) => SessionPhase::Discovering,
        (SessionPhase::Discovering, SessionEvent::Discovered(true)) => SessionPhase::Open,
        (SessionPhase::Discovering, SessionEvent::Discovered(false)) => SessionPhase::Connecting,
        (SessionPhase::Discovering, SessionEvent::Closed) => SessionPhase::Connecting,
        (SessionPhase::Open, SessionEvent::Closed) => SessionPhase::Connecting,
        _ => phase,
    }
}

/// The action that keeps a phase going.
pub open spec fn session_action(phase: SessionPhase) -> SessionAction {
    match phase {
        SessionPhase::Connecting => SessionAction::Connect,
        SessionPhase::Discovering => SessionAction::Discover,
        SessionPhase::Open => SessionAction::Run,
    }
}

/// The session of the central.
#[derive(Clone, Copy, Debug)]
pub struct Session {
    phase: SessionPhase,
}

impl View for Session {
    type V = SessionPhase;

    closed spec fn view(&self) -> SessionPhase {
        self.phase
    }
}

impl Session {
    /// A session that has yet to connect. The first thing to do is to
    /// connect.
    pub fn new() -> (r: Self)
        ensures
            r@ == SessionPhase::Connecting,
    {
        Session { phase: SessionPhase::Connecting }
    }

    /// Where the session stands.
    pub fn phase(&self) -> (r: SessionPhase)
        ensures
            r == self@,
    {
        self.phase
    }

    /// Takes one event and says what to do next.
    pub fn step(&mut self, event: SessionEvent) -> (action: SessionAction)
        ensures
            final(self)@ == session_phase(old(self)@, event),
            action == session_action(final(self)@),
    {
        let next = match (self.phase, event) {
            (SessionPhase::Connecting, SessionEvent::Connected(ok)) => if ok {
                SessionPhase::Discovering
            } else {
                SessionPhase::Connecting
            },
            (SessionPhase::Discovering, SessionEvent::Discovered(ok)) => if ok {
                SessionPhase::Open
            } else {
                SessionPhase::Connecting
            },
            (SessionPhase::Discovering, SessionEvent::Closed) => SessionPhase::Connecting,
            (SessionPhase::Open, SessionEvent::Closed) => SessionPhase::Connecting,
            (phase, _) => phase,
        };
        self.phase = next;
        match next {
            SessionPhase::Connecting => SessionAction::Connect,
            SessionPhase::Discovering => SessionAction::Discover,
            SessionPhase::Open => SessionAction::Run,
        }
    }
}

/// The central never gives up: a failure or the end of a connection leads
/// straight back to connecting, and no event leaves it with nothing to do.
pub proof fn lemma_session_reconnects(phase: SessionPhase, event: SessionEvent)
    ensures
        event == SessionEvent::Connected(false) || event == SessionEvent::Discovered(false)
            || event == SessionEvent::Closed ==> session_phase(phase, event)
            == SessionPhase::Connecting || session_phase(phase, event) == phase,
        phase == SessionPhase::Open && event == SessionEvent::Closed ==> session_action(
            session_phase(phase, event),
        ) == SessionAction::Connect,
        phase == SessionPhase::Connecting && event == SessionEvent::Connected(false)
            ==> session_action(session_phase(phase, event)) == SessionAction::Connect,
{
}

} // verus!
