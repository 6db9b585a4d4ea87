//! The firmware-update bridge.
//!
//! A host writes update requests to a control channel and firmware bytes to
//! a packet channel. The bridge decides what goes to the update target, what
//! is notified back, and what happens after the target has answered. Once the
//! target says the image is complete, the update is marked pending with one durable
//! write, and only when that write has succeeded is the device reset.

use vstd::prelude::*;
use nrf_dfu_target::prelude::DfuRequest;

verus! {

/// Payload bytes of one write.
pub const MTU: usize = 120;

/// Bytes of one write with its three header bytes.
pub const ATT_MTU: usize = MTU + 3;

/// Milliseconds the bridge lets pending notifications drain before the
/// reset.
pub const FLUSH_MILLIS: u64 = 300;

/// A write of the host to the update service.
#[derive(Debug)]
pub enum NrfDfuServiceEvent {
    ControlWrite(Vec<u8>),
    ControlCccdWrite { notifications: bool },
    PacketWrite(Vec<u8>),
    PacketCccdWrite { notifications: bool },
}

/// What one connection has subscribed to.
#[derive(Clone, Copy, Debug, PartialEq, Eq, Structural)]
pub struct ConnectionHandle {
    pub notify_control: bool,
    pub notify_packet: bool,
}

/// The status that the update target gives for one request.
#[derive(Clone, Copy, Debug, PartialEq, Eq, Structural)]
pub enum DfuStatus {
    InProgress,
    DoneReset,
}

/// A request for the update target.
#[derive(Debug)]
pub enum DfuFrame {
    /// The bytes of a control request that decodes.
    Control(Vec<u8>),
    /// Firmware bytes to write.
    Write(Vec<u8>),
}

/// Whether the bytes decode as a control request of the update protocol:
/// a known operation code, followed by at least the bytes that the
/// operation takes. An object type is one byte, 0 to 2.
pub open spec fn dfu_request_decodes(data: Seq<u8>) -> bool {
    data.len() >= 1 && {
        let op = data[0];
        if op == 0x00 || op == 0x03 || op == 0x04 || op == 0x07 || op == 0x08 || op == 0x0A || op
            == 0x0C {
            true
        } else if op == 0x01 {
            data.len() >= 6 && data[1] <= 2
        } else if op == 0x02 {
            data.len() >= 3
        } else if op == 0x06 {
            data.len() >= 2 && data[1] <= 2
        } else if op == 0x09 || op == 0x0B {
            data.len() >= 2
        } else {
            false
        }
    }
}

/// `DfuRequest::decode`: whether the bytes decode as a request. The decoder
/// reads the operation code, then the operands of that operation, and
/// fails where a byte is missing or names no operation or object type.
#[verifier::external_body]
fn request_decodes(data: &Vec<u8>) -> (ok: bool)
    ensures
        ok == dfu_request_decodes(data@),
{
    DfuRequest::decode(data.as_slice()).is_ok()
}

/// The subscriptions after an event.
pub open spec fn subscribed(conn: ConnectionHandle, event: NrfDfuServiceEvent) -> ConnectionHandle {
    match event {
        NrfDfuServiceEvent::ControlCccdWrite { notifications } => ConnectionHandle {
            notify_control: notifications,
            notify_packet: conn.notify_packet,
        },
        NrfDfuServiceEvent::PacketCccdWrite { notifications } => ConnectionHandle {
            notify_control: conn.notify_control,
            notify_packet: notifications,
        },
        _ => conn,
    }
}

/// The request an event puts to the target, given whether its bytes decode.
pub open spec fn framed(event: NrfDfuServiceEvent, decodes: bool) -> Option<DfuFrame> {
    match event {
        NrfDfuServiceEvent::ControlWrite(data) => if decodes {
            Some(DfuFrame::Control(data))
        } else {
            None
        },
        NrfDfuServiceEvent::PacketWrite(data) => Some(DfuFrame::Write(data)),
        _ => None,
    }
}

/// The update service of one device.
#[derive(Clone, Copy, Debug)]
pub struct NrfDfuService {}

impl NrfDfuService {
    pub fn new() -> Self {
        NrfDfuService {  }
    }

    /// Handles one event whose control bytes are known to decode or not.
    /// A subscription write changes the connection and asks nothing of the
    /// target. A control write that does not decode is dropped. Everything
    /// else becomes a request.
    pub fn handle_decoded(
        &self,
        connection: &mut ConnectionHandle,
        event: NrfDfuServiceEvent,
        decodes: bool,
    ) -> (frame: Option<DfuFrame>)
        ensures
            *final(connection) == subscribed(*old(connection), event),
            frame == framed(event, decodes),
    {
        match event {
            NrfDfuServiceEvent::ControlWrite(data) => {
                if decodes {
                    Some(DfuFrame::Control(data))
                } else {
                    None
                }
            },
            NrfDfuServiceEvent::ControlCccdWrite { notifications } => {
                connection.notify_control = notifications;
                None
            },
            NrfDfuServiceEvent::PacketWrite(data) => Some(DfuFrame::Write(data)),
            NrfDfuServiceEvent::PacketCccdWrite { notifications } => {
                connection.notify_packet = notifications;
                None
            },
        }
    }

    /// Handles one event of the update service.
    pub fn handle(&self, connection: &mut ConnectionHandle, event: NrfDfuServiceEvent) -> (frame:
        Option<DfuFrame>)
        ensures
            *final(connection) == subscribed(*old(connection), event),
            frame == framed(
                event,
                match event {
                    NrfDfuServiceEvent::ControlWrite(data) => dfu_request_decodes(data@),
                    _ => false,
                },
            ),
    {
        let decodes = match &event {
            NrfDfuServiceEvent::ControlWrite(data) => request_decodes(data),
            _ => false,
        };
        self.handle_decoded(connection, event, decodes)
    }

    /// What to notify on the control channel after the target answered:
    /// the encoded response, if it could be encoded, the connection has
    /// subscribed, and it fits one write.
    pub fn process(&self, connection: &ConnectionHandle, response: Option<Vec<u8>>) -> (notify:
        Option<Vec<u8>>)
        ensures
            notify == (match response {
                Some(bytes) => if connection.notify_control && bytes@.len() <= ATT_MTU {
                    Some(bytes)
                } else {
                    None
                },
                None => None,
            }),
    {
        match response {
            Some(bytes) => {
                if connection.notify_control && bytes.len() <= ATT_MTU {
                    Some(bytes)
                } else {
                    None
                }
            },
            None => None,
        }
    }
}

/// A stretch of the flash.
#[derive(Clone, Copy, Debug, PartialEq, Eq, Structural)]
pub struct Partition {
    pub offset: u32,
    pub size: u32,
}

/// Where the staged image and the update-pending mark lie in flash.
#[derive(Clone, Copy, Debug)]
pub struct DfuConfig {
    state_start: u32,
    state_end: u32,
    dfu_start: u32,
    dfu_end: u32,
}

impl DfuConfig {
    /// No partition ends before it starts.
    pub closed spec fn wf(&self) -> bool {
        self.state_start <= self.state_end && self.dfu_start <= self.dfu_end
    }

    /// The partition of the update-pending mark.
    pub closed spec fn state_partition(&self) -> Partition {
        Partition { offset: self.state_start, size: (self.state_end - self.state_start) as u32 }
    }

    /// The partition of the staged image.
    pub closed spec fn dfu_partition(&self) -> Partition {
        Partition { offset: self.dfu_start, size: (self.dfu_end - self.dfu_start) as u32 }
    }

    /// The layout with the given bounds, unless a partition would end
    /// before it starts.
    pub fn new(state_start: u32, state_end: u32, dfu_start: u32, dfu_end: u32) -> (r: Option<Self>)
        ensures
            r is Some <==> state_start <= state_end && dfu_start <= dfu_end,
            r is Some ==> r->0.wf() && r->0.state_partition() == (Partition {
                offset: state_start,
                size: (state_end - state_start) as u32,
            }) && r->0.dfu_partition() == (Partition {
                offset: dfu_start,
                size: (dfu_end - dfu_start) as u32,
            }),
    {
        if state_start <= state_end && dfu_start <= dfu_end {
            Some(DfuConfig { state_start, state_end, dfu_start, dfu_end })
        } else {
            None
        }
    }

    /// The partition of the update-pending mark.
    pub fn state(&self) -> (r: Partition)
        requires
            self.wf(),
        ensures
            r == self.state_partition(),
    {
        Partition { offset: self.state_start, size: self.state_end - self.state_start }
    }

    /// The partition of the staged image.
    pub fn dfu(&self) -> (r: Partition)
        requires
            self.wf(),
        ensures
            r == self.dfu_partition(),
    {
        Partition { offset: self.dfu_start, size: self.dfu_end - self.dfu_start }
    }
}

/// Where one connection stands in an update.
#[derive(Clone, Copy, Debug, PartialEq, Eq, Structural)]
pub enum BridgePhase {
    /// Nothing was received yet.
    Idle,
    /// Requests are going to the target.
    Receiving,
    /// The image is complete; the durable write is under way.
    Marking,
    /// The update is marked pending; notifications drain.
    Flushing,
    /// The reset was ordered.
    Resetting,
    /// The durable write failed: the device stays up and does not reset.
    Halted,
    /// The connection is gone.
    Closed,
}

/// What happened since the last step.
#[derive(Clone, Copy, Debug, PartialEq, Eq, Structural)]
pub enum BridgeEvent {
    /// One event was handled; the target gave this status, if it was asked.
    Status(Option<DfuStatus>),
    /// The durable write came back, with success or not.
    MarkResult(bool),
    /// The time for draining is over.
    FlushElapsed,
    /// The connection went away.
    Quit,
}

/// What the driver of the bridge has to do next.
#[derive(Clone, Copy, Debug, PartialEq, Eq, Structural)]
pub enum BridgeAction {
    /// Wait for the next event of the service.
    Continue,
    /// Write the update-pending mark, durably.
    MarkUpdated,
    /// Wait for [`FLUSH_MILLIS`].
    WaitFlush,
    /// Reset the device.
    Reset,
    /// Stop for good without a reset.
    Halt,
    /// End the processing of this connection.
    Stop,
}

/// The phase after an event.
pub open spec fn bridge_phase(phase: BridgePhase, event: BridgeEvent) -> BridgePhase {
    match (phase, event) {
        (BridgePhase::Idle, BridgeEvent::Status(Some(DfuStatus::InProgress))) => BridgePhase::Receiving,
        (BridgePhase::Idle, BridgeEvent::Status(Some(DfuStatus::DoneReset))) => BridgePhase::Marking,
        (BridgePhase::Receiving, BridgeEvent::Status(Some(DfuStatus::DoneReset))) => BridgePhase::Marking,
        (BridgePhase::Idle, BridgeEvent::Quit) => BridgePhase::Closed,
        (BridgePhase::Receiving, BridgeEvent::Quit) => BridgePhase::Closed,
        (BridgePhase::Marking, BridgeEvent::MarkResult(true)) => BridgePhase::Flushing,
        (BridgePhase::Marking, BridgeEvent::MarkResult(false)) => BridgePhase::Halted,
        (BridgePhase::Flushing, BridgeEvent::FlushElapsed) => BridgePhase::Resetting,
        _ => phase,
    }
}

/// The action an event calls for.
pub open spec fn bridge_action(phase: BridgePhase, event: BridgeEvent) -> BridgeAction {
    match (phase, event) {
        (BridgePhase::Idle, BridgeEvent::Status(Some(DfuStatus::DoneReset))) => BridgeAction::MarkUpdated,
        (BridgePhase::Receiving, BridgeEvent::Status(Some(DfuStatus::DoneReset))) => BridgeAction::MarkUpdated,
        (BridgePhase::Idle, BridgeEvent::Quit) => BridgeAction::Stop,
        (BridgePhase::Receiving, BridgeEvent::Quit) => BridgeAction::Stop,
        (BridgePhase::Marking, BridgeEvent::MarkResult(true)) => BridgeAction::WaitFlush,
        (BridgePhase::Marking, BridgeEvent::MarkResult(false)) => BridgeAction::Halt,
        (BridgePhase::Flushing, BridgeEvent::FlushElapsed) => BridgeAction::Reset,
        (BridgePhase::Halted, _) => BridgeAction::Halt,
        (BridgePhase::Closed, _) => BridgeAction::Stop,
        _ => BridgeAction::Continue,
    }
}

/// The phase after a run of events.
pub open spec fn bridge_run(phase: BridgePhase, events: Seq<BridgeEvent>) -> BridgePhase
    decreases events.len(),
{
    if events.len() == 0 {
        phase
    } else {
        bridge_run(bridge_phase(phase, events[0]), events.skip(1))
    }
}

/// How often a run of events calls for `action`.
pub open spec fn action_count(phase: BridgePhase, events: Seq<BridgeEvent>, action: BridgeAction) -> nat
    decreases events.len(),
{
    if events.len() == 0 {
        0
    } else {
        action_count(bridge_phase(phase, events[0]), events.skip(1), action) + if bridge_action(
            phase,
            events[0],
        ) == action {
            1nat
        } else {
            0nat
        }
    }
}

/// The update bridge of one connection.
#[derive(Clone, Copy, Debug)]
pub struct DfuBridge {
    phase: BridgePhase,
}

impl View for DfuBridge {
    type V = BridgePhase;

    closed spec fn view(&self) -> BridgePhase {
        self.phase
    }
}

impl DfuBridge {
    /// The bridge of a fresh connection.
    pub fn new() -> (r: Self)
        ensures
            r@ == BridgePhase::Idle,
    {
        DfuBridge { phase: BridgePhase::Idle }
    }

    /// The phase the bridge is in.
    pub fn phase(&self) -> (r: BridgePhase)
        ensures
            r == self@,
    {
        self.phase
    }

    /// Takes one event and says what to do next.
    pub fn step(&mut self, event: BridgeEvent) -> (action: BridgeAction)
        ensures
            final(self)@ == bridge_phase(old(self)@, event),
            action == bridge_action(old(self)@, event),
    {
        let (next, action) = match (self.phase, event) {
            (BridgePhase::Idle, BridgeEvent::Status(Some(DfuStatus::InProgress))) => (
                BridgePhase::Receiving,
                BridgeAction::Continue,
            ),
            (BridgePhase::Idle, BridgeEvent::Status(Some(DfuStatus::DoneReset)))
            | (BridgePhase::Receiving, BridgeEvent::Status(Some(DfuStatus::DoneReset))) => (
                BridgePhase::Marking,
                BridgeAction::MarkUpdated,
            ),
            (BridgePhase::Idle, BridgeEvent::Quit) | (BridgePhase::Receiving, BridgeEvent::Quit) => (
                BridgePhase::Closed,
                BridgeAction::Stop,
            ),
            (BridgePhase::Marking, BridgeEvent::MarkResult(ok)) => {
                if ok {
                    (BridgePhase::Flushing, BridgeAction::WaitFlush)
                } else {
                    (BridgePhase::Halted, BridgeAction::Halt)
                }
            },
            (BridgePhase::Flushing, BridgeEvent::FlushElapsed) => (
                BridgePhase::Resetting,
                BridgeAction::Reset,
            ),
            (BridgePhase::Halted, _) => (BridgePhase::Halted, BridgeAction::Halt),
            (BridgePhase::Closed, _) => (BridgePhase::Closed, BridgeAction::Stop),
            (phase, _) => (phase, BridgeAction::Continue),
        };
        self.phase = next;
        action
    }
}

/// How many durable writes a phase can still lead to.
pub open spec fn marks_ahead(phase: BridgePhase) -> nat {
    match phase {
        BridgePhase::Idle | BridgePhase::Receiving => 1,
        _ => 0,
    }
}

/// How many resets a phase can still lead to.
pub open spec fn resets_ahead(phase: BridgePhase) -> nat {
    match phase {
        BridgePhase::Idle | BridgePhase::Receiving | BridgePhase::Marking | BridgePhase::Flushing => 1,
        _ => 0,
    }
}

/// Whether the run of events holds a successful durable write.
pub open spec fn mark_succeeded(events: Seq<BridgeEvent>) -> bool {
    exists|k: int| 0 <= k < events.len() && events[k] == BridgeEvent::MarkResult(true)
}

/// Whether the run of events holds the status that the image is complete.
pub open spec fn image_completed(events: Seq<BridgeEvent>) -> bool {
    exists|k: int|
        0 <= k < events.len() && events[k] == BridgeEvent::Status(Some(DfuStatus::DoneReset))
}

/// The update is marked pending at most once per connection, and the device
/// is reset at most once, whatever events arrive in whatever order.
pub proof fn lemma_mark_and_reset_at_most_once(phase: BridgePhase, events: Seq<BridgeEvent>)
    ensures
        action_count(phase, events, BridgeAction::MarkUpdated) <= marks_ahead(phase),
        action_count(phase, events, BridgeAction::Reset) <= resets_ahead(phase),
    decreases events.len(),
{
    if events.len() > 0 {
        lemma_mark_and_reset_at_most_once(bridge_phase(phase, events[0]), events.skip(1));
    }
}

/// No reset without the mark: a run of events that orders a reset holds a
/// durable write that succeeded, unless it started after that write.
pub proof fn lemma_reset_needs_mark(phase: BridgePhase, events: Seq<BridgeEvent>)
    requires
        phase != BridgePhase::Flushing,
        action_count(phase, events, BridgeAction::Reset) > 0,
    ensures
        mark_succeeded(events),
    decreases events.len(),
{
    if events.len() > 0 {
        let next = bridge_phase(phase, events[0]);
        let rest = events.skip(1);
        if next == BridgePhase::Flushing {
            assert(events[0] == BridgeEvent::MarkResult(true));
        } else {
            assert(bridge_action(phase, events[0]) != BridgeAction::Reset);
            lemma_reset_needs_mark(next, rest);
            let k = choose|k: int| 0 <= k < rest.len() && rest[k] == BridgeEvent::MarkResult(true);
            assert(events[k + 1] == rest[k]);
        }
    }
}

/// No mark without a complete image: from a fresh connection, a run of
/// events in which the target never says that the image is complete orders
/// neither the durable write nor a reset.
pub proof fn lemma_incomplete_image_never_marks(phase: BridgePhase, events: Seq<BridgeEvent>)
    requires
        phase == BridgePhase::Idle || phase == BridgePhase::Receiving || phase
            == BridgePhase::Closed,
        !image_completed(events),
    ensures
        action_count(phase, events, BridgeAction::MarkUpdated) == 0,
        action_count(phase, events, BridgeAction::Reset) == 0,
    decreases events.len(),
{
    if events.len() > 0 {
        let rest = events.skip(1);
        assert(events[0] != BridgeEvent::Status(Some(DfuStatus::DoneReset)));
        assert forall|k: int| 0 <= k < rest.len() implies rest[k] != BridgeEvent::Status(
            Some(DfuStatus::DoneReset),
        ) by {
            assert(rest[k] == events[k + 1]);
        }
        lemma_incomplete_image_never_marks(bridge_phase(phase, events[0]), rest);
    }
}

/// A complete image leads to exactly one durable write and one reset: the
/// status, the successful write and the end of the draining time, in this
/// order, order the write, the wait and the reset.
pub proof fn lemma_complete_image_resets_once(phase: BridgePhase)
    requires
        phase == BridgePhase::Idle || phase == BridgePhase::Receiving,
    ensures
        ({
            let events = seq![
                BridgeEvent::Status(Some(DfuStatus::DoneReset)),
                BridgeEvent::MarkResult(true),
                BridgeEvent::FlushElapsed,
            ];
            &&& bridge_run(phase, events) == BridgePhase::Resetting
            &&& action_count(phase, events, BridgeAction::MarkUpdated) == 1
            &&& action_count(phase, events, BridgeAction::Reset) == 1
        }),
{
    let events = seq![
        BridgeEvent::Status(Some(DfuStatus::DoneReset)),
        BridgeEvent::MarkResult(true),
        BridgeEvent::FlushElapsed,
    ];
    let e1 = events.skip(1);
    let e2 = e1.skip(1);
    let e3 = e2.skip(1);
    assert(e1[0] == BridgeEvent::MarkResult(true));
    assert(e2[0] == BridgeEvent::FlushElapsed);
    assert(e3.len() == 0);
    reveal_with_fuel(bridge_run, 5);
    reveal_with_fuel(action_count, 5);
}

} // verus!
