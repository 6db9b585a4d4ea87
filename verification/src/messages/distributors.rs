//! Where messages go: to the host, to the other half, or nowhere.

use vstd::prelude::*;
use crate::interboard::channel::OutboundQueue;
use crate::interboard::channel::PrioritisedMessage;
use crate::interboard::channel::QUEUE_CAPACITY;
use crate::messages::device_to_device::DeviceToDevice;
use crate::messages::device_to_device::DeviceToHost;
use crate::messages::device_to_device::DeviceToHostMsg;
use crate::side::KeyboardSide;
use crate::side::is_master;
use crate::side::leads;

verus! {

/// Priority of key events on the link: they go first.
pub const KEY_PRIORITY: u8 = 1;

/// Priority of host commands that are forwarded to the other half.
pub const COMMAND_PRIORITY: u8 = 2;

/// Priority of replies and of reports on their way to the host.
pub const REPORT_PRIORITY: u8 = 3;

/// Whether a report was made on this half or came in over the link.
#[derive(Clone, Copy, Debug, PartialEq, Eq, Structural)]
pub enum MessageProvenance {
    Origin,
    Forwarded,
}

/// What became of a report for the host.
#[derive(Debug)]
pub enum HostDelivery {
    /// This half leads: the report is for its own connection to the host.
    Usb(DeviceToHost),
    /// The report waits in the queue to the leading half.
    Queued,
    /// The queue to the leading half is full; the report was not taken.
    Refused,
    /// The report came over the link to a half that does not lead: neither
    /// half has a host, and the report is dropped.
    Unneeded,
}

/// What a message from the other half calls for.
#[derive(Debug)]
pub enum Reaction {
    /// Answer with this message.
    Reply(PrioritisedMessage<DeviceToDevice>),
    /// Pass the report on to the host.
    ToHost(DeviceToHost),
    /// Nothing to do here.
    Nothing,
}

/// The reaction to a message from the other half.
pub open spec fn reaction_to(msg: DeviceToDevice) -> Reaction {
    match msg {
        DeviceToDevice::Ping => Reaction::Reply(
            PrioritisedMessage { msg: DeviceToDevice::Pong, priority: REPORT_PRIORITY },
        ),
        DeviceToDevice::ForwardedToHost(report) => Reaction::ToHost(report),
        _ => Reaction::Nothing,
    }
}

/// Decides what a message from the other half calls for: a ping is
/// answered, a report for the host is passed on, the rest is for others.
pub fn from_other_side(msg: DeviceToDevice) -> (r: Reaction)
    ensures
        r == reaction_to(msg),
{
    match msg {
        DeviceToDevice::Ping => Reaction::Reply(
            PrioritisedMessage { msg: DeviceToDevice::Pong, priority: REPORT_PRIORITY },
        ),
        DeviceToDevice::ForwardedToHost(report) => Reaction::ToHost(report),
        _ => Reaction::Nothing,
    }
}

/// Routes a report for the host without waiting. The leading half gets it
/// back for its own host connection. The other half queues a report of its
/// own for the link, if the queue has room, and drops one that was
/// forwarded to it.
pub fn try_send_to_host(
    this: KeyboardSide,
    msg: DeviceToHostMsg,
    provenance: MessageProvenance,
    link: &mut OutboundQueue,
) -> (r: HostDelivery)
    requires
        old(link).wf(),
    ensures
        final(link).wf(),
        leads(this) ==> r == HostDelivery::Usb(DeviceToHost { from_side: this, msg }) && final(link)@ == old(link)@,
        !leads(this) && provenance == MessageProvenance::Forwarded ==> r is Unneeded && final(link)@ == old(link)@,
        !leads(this) && provenance == MessageProvenance::Origin ==> (if old(link)@.len()
            < QUEUE_CAPACITY {
            r is Queued && final(link)@ == old(link)@.push(
                PrioritisedMessage {
                    msg: DeviceToDevice::ForwardedToHost(DeviceToHost { from_side: this, msg }),
                    priority: REPORT_PRIORITY,
                },
            )
        } else {
            r is Refused && final(link)@ == old(link)@
        }),
{
    let report = DeviceToHost { from_side: this, msg };
    if is_master(this) {
        HostDelivery::Usb(report)
    } else {
        match provenance {
            MessageProvenance::Origin => {
                match link.try_send(DeviceToDevice::ForwardedToHost(report), REPORT_PRIORITY) {
                    Ok(_) => HostDelivery::Queued,
                    Err(_) => HostDelivery::Refused,
                }
            },
            MessageProvenance::Forwarded => HostDelivery::Unneeded,
        }
    }
}

} // verus!
