//! Sending queued messages to the other half, with retries.
//!
//! A message is tried up to twenty times. After each failure the sender
//! backs off a little longer. A message that fails twenty times is dropped,
//! so that a peer that is gone cannot stall the queue.

use vstd::prelude::*;

verus! {

/// Tries one message gets at most.
pub const MAX_ATTEMPTS: u8 = 20;

/// Microseconds of the first back-off.
pub const BACKOFF_BASE_MICROS: u64 = 100;

/// Microseconds each further back-off adds.
pub const BACKOFF_STEP_MICROS: u64 = 500;

/// The back-off after failed try number `attempt`, counted from zero.
pub open spec fn backoff(attempt: nat) -> nat {
    100 + attempt * 500
}

/// The back-off of the first `n` failed tries together.
pub open spec fn total_backoff(n: nat) -> nat
    decreases n,
{
    if n == 0 {
        0
    } else {
        total_backoff((n - 1) as nat) + backoff((n - 1) as nat)
    }
}

/// The microseconds to wait after failed try number `attempt`.
pub fn backoff_micros(attempt: u8) -> (r: u64)
    ensures
        r == backoff(attempt as nat),
{
    BACKOFF_BASE_MICROS + attempt as u64 * BACKOFF_STEP_MICROS
}

/// What the sender is doing.
#[derive(Clone, Copy, Debug, PartialEq, Eq, Structural)]
pub enum TransmitPhase {
    /// It waits for the next message of the queue.
    Idle,
    /// It is sending; `attempt` tries have failed before.
    Sending { attempt: u8 },
    /// It backs off after try number `attempt` failed.
    BackingOff { attempt: u8 },
}

/// What happened since the last step.
#[derive(Clone, Copy, Debug, PartialEq, Eq, Structural)]
pub enum TransmitEvent {
    /// The queue gave the next message.
    Message,
    /// The radio took the message, or refused it.
    Sent(bool),
    /// The back-off is over.
    BackoffElapsed,
}

/// What the driver of the sender has to do next.
#[derive(Clone, Copy, Debug, PartialEq, Eq, Structural)]
pub enum TransmitAction {
    /// Take the next message from the queue.
    Dequeue,
    /// Hand the current message to the radio.
    Send,
    /// Wait for so many microseconds.
    Backoff(u64),
    /// Drop the current message, then take the next from the queue.
    Drop,
    /// The event does not belong here; nothing to do.
    Ignore,
}

/// The phase after an event.
pub open spec fn transmit_phase(phase: TransmitPhase, event: TransmitEvent) -> TransmitPhase {
    match (phase, event) {
        (TransmitPhase::Idle, TransmitEvent::Message) => TransmitPhase::Sending { attempt: 0 },
        (TransmitPhase::Sending { attempt }, TransmitEvent::Sent(true)) => TransmitPhase::Idle,
        (TransmitPhase::Sending { attempt }, TransmitEvent::Sent(false)) => TransmitPhase::BackingOff {
            attempt,
        },
        (TransmitPhase::BackingOff { attempt }, TransmitEvent::BackoffElapsed) => if attempt + 1
            < MAX_ATTEMPTS {
            TransmitPhase::Sending { attempt: (attempt + 1) as u8 }
        } else {
            TransmitPhase::Idle
        },
        _ => phase,
    }
}

/// The action an event calls for.
pub open spec fn transmit_action(phase: TransmitPhase, event: TransmitEvent) -> TransmitAction {
    match (phase, event) {
        (TransmitPhase::Idle, TransmitEvent::Message) => TransmitAction::Send,
        (TransmitPhase::Sending { attempt }, TransmitEvent::Sent(true)) => TransmitAction::Dequeue,
        (TransmitPhase::Sending { attempt }, TransmitEvent::Sent(false)) => TransmitAction::Backoff(
            (BACKOFF_BASE_MICROS + (attempt as u64) * BACKOFF_STEP_MICROS) as u64,
        ),
        (TransmitPhase::BackingOff { attempt }, TransmitEvent::BackoffElapsed) => if attempt + 1
            < MAX_ATTEMPTS {
            TransmitAction::Send
        } else {
            TransmitAction::Drop
        },
        _ => TransmitAction::Ignore,
    }
}

/// The sender of one connection.
#[derive(Clone, Copy, Debug)]
pub struct Transmitter {
    phase: TransmitPhase,
}

impl View for Transmitter {
    type V = TransmitPhase;

    closed spec fn view(&self) -> TransmitPhase {
        self.phase
    }
}

impl Transmitter {
    /// A sender that waits for its first message.
    pub fn new() -> (r: Self)
        ensures
            r@ == TransmitPhase::Idle,
    {
        Transmitter { phase: TransmitPhase::Idle }
    }

    /// What the sender is doing.
    pub fn phase(&self) -> (r: TransmitPhase)
        ensures
            r == self@,
    {
        self.phase
    }

    /// Takes one event and says what to do next.
    pub fn step(&mut self, event: TransmitEvent) -> (action: TransmitAction)
        ensures
            final(self)@ == transmit_phase(old(self)@, event),
            action == transmit_action(old(self)@, event),
    {
        let (next, action) = match (self.phase, event) {
            (TransmitPhase::Idle, TransmitEvent::Message) => (
                TransmitPhase::Sending { attempt: 0 },
                TransmitAction::Send,
            ),
            (TransmitPhase::Sending { attempt }, TransmitEvent::Sent(ok)) => {
                if ok {
                    (TransmitPhase::Idle, TransmitAction::Dequeue)
                } else {
                    (
                        TransmitPhase::BackingOff { attempt },
                        TransmitAction::Backoff(backoff_micros(attempt)),
                    )
                }
            },
            (TransmitPhase::BackingOff { attempt }, TransmitEvent::BackoffElapsed) => {
                if attempt < MAX_ATTEMPTS - 1 {
                    (TransmitPhase::Sending { attempt: attempt + 1 }, TransmitAction::Send)
                } else {
                    (TransmitPhase::Idle, TransmitAction::Drop)
                }
            },
            (phase, _) => (phase, TransmitAction::Ignore),
        };
        self.phase = next;
        action
    }
}

/// The number of the try that a phase is at, if a message is under way.
pub open spec fn attempt_of(phase: TransmitPhase) -> nat {
    match phase {
        TransmitPhase::Idle => 0,
        TransmitPhase::Sending { attempt } => attempt as nat,
        TransmitPhase::BackingOff { attempt } => attempt as nat,
    }
}

/// No message is tried more than twenty times: the count of failed tries
/// stays under twenty whatever events arrive, and the step after the
/// twentieth failure drops the message.
pub proof fn lemma_attempts_are_bounded(phase: TransmitPhase, event: TransmitEvent)
    requires
        attempt_of(phase) < MAX_ATTEMPTS,
    ensures
        attempt_of(transmit_phase(phase, event)) < MAX_ATTEMPTS,
        attempt_of(transmit_phase(phase, event)) <= attempt_of(phase) + 1,
        transmit_action(phase, event) == TransmitAction::Drop ==> phase
            == (TransmitPhase::BackingOff { attempt: 19 }) && transmit_phase(phase, event)
            == TransmitPhase::Idle,
        transmit_action(phase, event) == TransmitAction::Send ==> attempt_of(
            transmit_phase(phase, event),
        ) < MAX_ATTEMPTS,
{
}

/// A peer that is gone stalls the queue for a bounded time: the back-offs
/// of one message add up to `100 n + 250 n (n - 1)` microseconds after `n`
/// failures, which is 97 milliseconds for all twenty.
pub proof fn lemma_total_backoff(n: nat)
    ensures
        total_backoff(n) == 100 * n + 250 * n * (n - 1),
        n == 20 ==> total_backoff(n) == 97_000,
    decreases n,
{
    if n > 0 {
        let m: int = n - 1;
        lemma_total_backoff(m as nat);
        assert(total_backoff(m as nat) == 100 * m + 250 * m * (m - 1));
        assert(total_backoff(n) == total_backoff(m as nat) + 100 + m * 500);
        assert(100 * m + 250 * m * (m - 1) + 100 + m * 500 == 100 * n + 250 * n * (n - 1))
            by (nonlinear_arith)
            requires
                m == n - 1,
        ;
    } else {
        assert(100 * n + 250 * n * (n - 1) == 0) by (nonlinear_arith)
            requires
                n == 0,
        ;
    }
    if n == 20 {
        assert(100 * n + 250 * n * (n - 1) == 97_000) by (nonlinear_arith)
            requires
                n == 20,
        ;
    }
}

} // verus!
