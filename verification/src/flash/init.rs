//! Bringing the store up.
//!
//! The store is mounted; a store that does not mount is formatted. Then a
//! probe key is read: it holds the discriminator of a type that never
//! changes, so a probe that reads differently means that the discriminators
//! of this firmware are not those of the firmware that wrote the store. In
//! that case, or when the probe cannot be written, the store is mounted
//! anew and wiped.

use vstd::prelude::*;

verus! {

/// What reading the probe key gave.
#[derive(Debug)]
pub enum ProbeRead {
    /// The bytes stored under the probe key.
    Found(Vec<u8>),
    /// Nothing is stored under the probe key.
    Missing,
    /// The read failed.
    Failed,
}

/// Whether the store can be kept after the probe was read: the probe is
/// missing, or it holds exactly the expected bytes.
pub open spec fn probe_accepts(expected: Seq<u8>, read: ProbeRead) -> bool {
    match read {
        ProbeRead::Found(bytes) => bytes@ == expected,
        ProbeRead::Missing => true,
        ProbeRead::Failed => false,
    }
}

/// Judges the probe that was read.
pub fn judge_probe(expected: &[u8; 16], read: &ProbeRead) -> (ok: bool)
    ensures
        ok == probe_accepts(expected@, *read),
{
    match read {
        ProbeRead::Found(bytes) => {
            if bytes.len() != 16 {
                return false;
            }
            let mut k: usize = 0;
            while k < 16
                invariant
                    k <= 16,
                    bytes@.len() == 16,
                    *read == ProbeRead::Found(*bytes),
                    forall|m: int| 0 <= m < k ==> bytes@[m] == expected@[m],
                decreases 16 - k,
            {
                if bytes[k] != expected[k] {
                    assert(bytes@[k as int] != expected@[k as int]);
                    return false;
                }
                k += 1;
            }
            assert(bytes@ =~= expected@);
            true
        },
        ProbeRead::Missing => true,
        ProbeRead::Failed => false,
    }
}

/// Where the bring-up stands.
#[derive(Clone, Copy, Debug, PartialEq, Eq, Structural)]
pub enum InitPhase {
    /// Nothing was done yet.
    Start,
    /// The first mount is under way.
    Mounting,
    /// The first mount failed; the store is being formatted.
    Recovering,
    /// The probe is being read.
    Probing,
    /// The probe is being written.
    WritingProbe,
    /// The probe write is being committed.
    Committing,
    /// The store was given up; the second mount is under way.
    Remounting,
    /// The second mount failed; the store is being formatted.
    RecoveringAgain,
    /// The store is being wiped for the first time.
    Wiping,
    /// The store is being wiped for the second time.
    WipingAgain,
    /// The store is up.
    Ready,
    /// The store could be neither mounted nor formatted.
    Failed,
}

/// What the application reports back.
#[derive(Clone, Copy, Debug, PartialEq, Eq, Structural)]
pub enum InitEvent {
    /// The bring-up begins.
    Begin,
    /// A mount ended, with success or not.
    Mounted(bool),
    /// A format ended, with success or not.
    Formatted(bool),
    /// The probe was read; the flag says whether the store can be kept.
    Probed(bool),
    /// The probe was written to a transaction, with success or not.
    ProbeWritten(bool),
    /// The transaction was committed, with success or not.
    Committed(bool),
}

/// What the application has to do next.
#[derive(Clone, Copy, Debug, PartialEq, Eq, Structural)]
pub enum InitAction {
    Mount,
    Format,
    ReadProbe,
    WriteProbe,
    Commit,
    /// The store is up: publish it.
    Done,
    /// The flash is unusable: stop.
    Panic,
    /// The event does not belong here; nothing to do.
    Ignore,
}

/// The phase after an event.
pub open spec fn init_phase(phase: InitPhase, event: InitEvent) -> InitPhase {
    match (phase, event) {
        (InitPhase::Start, InitEvent::Begin) => InitPhase::Mounting,
        (InitPhase::Mounting, InitEvent::Mounted(true)) => InitPhase::Probing,
        (InitPhase::Mounting, InitEvent::Mounted(false)) => InitPhase::Recovering,
        (InitPhase::Recovering, InitEvent::Formatted(true)) => InitPhase::Probing,
        (InitPhase::Recovering, InitEvent::Formatted(false)) => InitPhase::Failed,
        (InitPhase::Probing, InitEvent::Probed(true)) => InitPhase::WritingProbe,
        (InitPhase::Probing, InitEvent::Probed(false)) => InitPhase::Remounting,
        (InitPhase::WritingProbe, InitEvent::ProbeWritten(true)) => InitPhase::Committing,
        (InitPhase::WritingProbe, InitEvent::ProbeWritten(false)) => InitPhase::Remounting,
        (InitPhase::Committing, InitEvent::Committed(_)) => InitPhase::Ready,
        (InitPhase::Remounting, InitEvent::Mounted(true)) => InitPhase::Wiping,
        (InitPhase::Remounting, InitEvent::Mounted(false)) => InitPhase::RecoveringAgain,
        (InitPhase::RecoveringAgain, InitEvent::Formatted(true)) => InitPhase::Wiping,
        (InitPhase::RecoveringAgain, InitEvent::Formatted(false)) => InitPhase::Failed,
        (InitPhase::Wiping, InitEvent::Formatted(_)) => InitPhase::WipingAgain,
        (InitPhase::WipingAgain, InitEvent::Formatted(_)) => InitPhase::Ready,
        _ => phase,
    }
}

/// The action that a phase is entered with.
pub open spec fn entry_action(phase: InitPhase) -> InitAction {
    match phase {
        InitPhase::Start => InitAction::Ignore,
        InitPhase::Mounting | InitPhase::Remounting => InitAction::Mount,
        InitPhase::Recovering | InitPhase::RecoveringAgain | InitPhase::Wiping
        | InitPhase::WipingAgain => InitAction::Format,
        InitPhase::Probing => InitAction::ReadProbe,
        InitPhase::WritingProbe => InitAction::WriteProbe,
        InitPhase::Committing => InitAction::Commit,
        InitPhase::Ready => InitAction::Done,
        InitPhase::Failed => InitAction::Panic,
    }
}

/// The action an event calls for: that of the phase it leads to, or
/// nothing where it leads nowhere.
pub open spec fn init_action(phase: InitPhase, event: InitEvent) -> InitAction {
    if init_phase(phase, event) == phase {
        InitAction::Ignore
    } else {
        entry_action(init_phase(phase, event))
    }
}

/// The most steps that can still follow a phase.
pub open spec fn steps_ahead(phase: InitPhase) -> nat {
    match phase {
        InitPhase::Start => 9,
        InitPhase::Mounting => 8,
        InitPhase::Recovering => 7,
        InitPhase::Probing => 6,
        InitPhase::WritingProbe => 5,
        InitPhase::Remounting => 4,
        InitPhase::RecoveringAgain => 3,
        InitPhase::Wiping => 2,
        InitPhase::WipingAgain => 1,
        InitPhase::Committing => 1,
        InitPhase::Ready => 0,
        InitPhase::Failed => 0,
    }
}

/// The bring-up of the store, one step at a time.
#[derive(Clone, Copy, Debug)]
pub struct StoreInit {
    phase: InitPhase,
}

impl View for StoreInit {
    type V = InitPhase;

    closed spec fn view(&self) -> InitPhase {
        self.phase
    }
}

impl StoreInit {
    /// A bring-up that has not begun.
    pub fn new() -> (r: Self)
        ensures
            r@ == InitPhase::Start,
    {
        StoreInit { phase: InitPhase::Start }
    }

    /// The phase the bring-up is in.
    pub fn phase(&self) -> (r: InitPhase)
        ensures
            r == self@,
    {
        self.phase
    }

    /// Takes what the application reports and says what to do next.
    pub fn step(&mut self, event: InitEvent) -> (action: InitAction)
        ensures
            final(self)@ == init_phase(old(self)@, event),
            action == init_action(old(self)@, event),
    {
        let next = match (self.phase, event) {
            (InitPhase::Start, InitEvent::Begin) => InitPhase::Mounting,
            (InitPhase::Mounting, InitEvent::Mounted(ok)) => if ok {
                InitPhase::Probing
            } else {
                InitPhase::Recovering
            },
            (InitPhase::Recovering, InitEvent::Formatted(ok)) => if ok {
                InitPhase::Probing
            } else {
                InitPhase::Failed
            },
            (InitPhase::Probing, InitEvent::Probed(ok)) => if ok {
                InitPhase::WritingProbe
            } else {
                InitPhase::Remounting
            },
            (InitPhase::WritingProbe, InitEvent::ProbeWritten(ok)) => if ok {
                InitPhase::Committing
            } else {
                InitPhase::Remounting
            },
            (InitPhase::Committing, InitEvent::Committed(_)) => InitPhase::Ready,
            (InitPhase::Remounting, InitEvent::Mounted(ok)) => if ok {
                InitPhase::Wiping
            } else {
                InitPhase::RecoveringAgain
            },
            (InitPhase::RecoveringAgain, InitEvent::Formatted(ok)) => if ok {
                InitPhase::Wiping
            } else {
                InitPhase::Failed
            },
            (InitPhase::Wiping, InitEvent::Formatted(_)) => InitPhase::WipingAgain,
            (InitPhase::WipingAgain, InitEvent::Formatted(_)) => InitPhase::Ready,
            (phase, _) => phase,
        };
        let changed = !phase_eq(next, self.phase);
        self.phase = next;
        if !changed {
            return InitAction::Ignore;
        }
        match next {
            InitPhase::Start => InitAction::Ignore,
            InitPhase::Mounting | InitPhase::Remounting => InitAction::Mount,
            InitPhase::Recovering | InitPhase::RecoveringAgain | InitPhase::Wiping
            | InitPhase::WipingAgain => InitAction::Format,
            InitPhase::Probing => InitAction::ReadProbe,
            InitPhase::WritingProbe => InitAction::WriteProbe,
            InitPhase::Committing => InitAction::Commit,
            InitPhase::Ready => InitAction::Done,
            InitPhase::Failed => InitAction::Panic,
        }
    }
}

fn phase_eq(a: InitPhase, b: InitPhase) -> (r: bool)
    ensures
        r == (a == b),
{
    a == b
}

/// The bring-up ends: every step that is not ignored brings the end
/// nearer, so after at most nine of them the store is up or given up.
pub proof fn lemma_init_terminates(phase: InitPhase, event: InitEvent)
    ensures
        init_phase(phase, event) != phase ==> steps_ahead(init_phase(phase, event)) < steps_ahead(
            phase,
        ),
        steps_ahead(phase) == 0 <==> phase == InitPhase::Ready || phase == InitPhase::Failed,
        steps_ahead(phase) <= 9,
{
}

/// The store is published only when it is mounted or freshly formatted:
/// the step that says `Done` follows a commit on a kept store or the last
/// wipe, and a store that can be neither mounted nor formatted is never
/// published.
pub proof fn lemma_done_only_when_up(phase: InitPhase, event: InitEvent)
    requires
        init_action(phase, event) == InitAction::Done,
    ensures
        init_phase(phase, event) == InitPhase::Ready,
        phase == InitPhase::Committing || phase == InitPhase::WipingAgain,
{
}

} // verus!
