//! The key-event pipeline: matrix scan, chord resolution, layout.

use vstd::prelude::*;
use crate::interboard::channel::PrioritisedMessage;
use crate::keys::chord::ChordingEngine;
use crate::keys::chord::process_step;
use crate::keys::chord::tick_state;
use crate::keys::chord::timed_out;
use crate::keys::chord::presses;
use crate::keys::layout::PipelineInput;
use crate::messages::device_to_device::DeviceToDevice;
use crate::messages::distributors::KEY_PRIORITY;

pub mod scan;
pub mod chord;
pub mod layout;

verus! {

/// A press or a release at a logical keymap coordinate `(i, j)`: row first,
/// column second.
#[derive(Clone, Copy, Debug, PartialEq, Eq, Hash, Structural)]
pub enum KeyEvent {
    Press(u8, u8),
    Release(u8, u8),
}

impl KeyEvent {
    /// The coordinate the event happened at.
    pub open spec fn coord(self) -> (u8, u8) {
        match self {
            KeyEvent::Press(i, j) => (i, j),
            KeyEvent::Release(i, j) => (i, j),
        }
    }

    /// Whether the event is a press.
    pub open spec fn is_press(self) -> bool {
        self is Press
    }
}

/// How a host expects Unicode code points to be typed.
#[derive(Clone, Copy, Debug, PartialEq, Eq, Structural)]
pub enum UnicodeMode {
    Linux,
    Mac,
}

/// An action of the keymap that is not a key code.
#[derive(Clone, Copy, Debug)]
pub enum CustomEvent {
    TypeUnicode(&'static str),
}

/// The message that tells the other half of a key event.
pub open spec fn message_of(event: KeyEvent) -> DeviceToDevice {
    match event {
        KeyEvent::Press(i, j) => DeviceToDevice::KeyPress(i, j),
        KeyEvent::Release(i, j) => DeviceToDevice::KeyRelease(i, j),
    }
}

/// The key event that a message from the other half tells of, if it tells
/// of one.
pub open spec fn event_of(msg: DeviceToDevice) -> Option<KeyEvent> {
    match msg {
        DeviceToDevice::KeyPress(i, j) => Some(KeyEvent::Press(i, j)),
        DeviceToDevice::KeyRelease(i, j) => Some(KeyEvent::Release(i, j)),
        _ => None,
    }
}

/// Wraps a key event for the link. Key events go with the first priority.
pub fn send_to_other_side(event: KeyEvent) -> (r: PrioritisedMessage<DeviceToDevice>)
    ensures
        r.msg == message_of(event),
        r.priority == KEY_PRIORITY,
{
    let msg = match event {
        KeyEvent::Press(i, j) => DeviceToDevice::KeyPress(i, j),
        KeyEvent::Release(i, j) => DeviceToDevice::KeyRelease(i, j),
    };
    PrioritisedMessage { msg, priority: KEY_PRIORITY }
}

/// Unwraps a key event that came over the link. Other messages give
/// nothing.
pub fn receive_from_other_side(msg: &DeviceToDevice) -> (r: Option<KeyEvent>)
    ensures
        r == event_of(*msg),
{
    match msg {
        DeviceToDevice::KeyPress(i, j) => Some(KeyEvent::Press(*i, *j)),
        DeviceToDevice::KeyRelease(i, j) => Some(KeyEvent::Release(*i, *j)),
        _ => None,
    }
}

/// A key event survives the link: what one half wraps, the other unwraps
/// to the same event.
pub proof fn lemma_key_event_round_trip(event: KeyEvent)
    ensures
        event_of(message_of(event)) == Some(event),
{
}

/// The events that one input of the matrix passes on.
pub open spec fn matrix_events(engine: &ChordingEngine, input: PipelineInput) -> Seq<KeyEvent> {
    match input {
        PipelineInput::Key(event) => process_step(engine.table(), engine@, event).events,
        PipelineInput::Tick => {
            let keys = timed_out(engine@.pending, engine.window(), engine@.pending.len());
            presses(keys, keys.len())
        },
    }
}

/// Takes one input of the matrix through the chord engine: a raw key event
/// or the tick. Returns the key events to publish and to send to the other
/// half, in order. A trigger whose window ran out comes back as its press.
pub fn matrix_processor(engine: &mut ChordingEngine, input: PipelineInput) -> (events: Vec<KeyEvent>)
    ensures
        final(engine).table() == old(engine).table(),
        final(engine).window() == old(engine).window(),
        final(engine)@ == (match input {
            PipelineInput::Key(event) => process_step(old(engine).table(), old(engine)@, event).state,
            PipelineInput::Tick => tick_state(old(engine)@, old(engine).window()),
        }),
        events@ == matrix_events(old(engine), input),
{
    match input {
        PipelineInput::Key(event) => engine.process(event),
        PipelineInput::Tick => {
            let keys = engine.tick();
            let mut events: Vec<KeyEvent> = Vec::new();
            let mut k: usize = 0;
            while k < keys.len()
                invariant
                    k <= keys@.len(),
                    events@ == presses(keys@, k as nat),
                decreases keys@.len() - k,
            {
                let p = keys[k];
                events.push(KeyEvent::Press(p.0, p.1));
                k += 1;
            }
            events
        },
    }
}

} // verus!
