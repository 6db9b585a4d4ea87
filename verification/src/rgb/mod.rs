//! The lights under the keys: where they are, and what the halves tell
//! each other about them.

use vstd::prelude::*;
use crate::messages::device_to_device::AnimationSync;
use crate::messages::device_to_device::DeviceToDevice;

pub mod layout;

verus! {

/// A colour as it travels between the halves.
#[derive(Clone, Copy, Debug, PartialEq, Eq, Hash, Structural)]
pub struct ColorRGBWire {
    pub r: u8,
    pub g: u8,
    pub b: u8,
}

/// An order for the light runner.
#[derive(Debug)]
pub enum Command {
    SetNextAnimation(AnimationSync),
    SyncAnimation(AnimationSync),
}

/// The order that a message from the other half holds, if it holds one.
pub open spec fn command_in(msg: DeviceToDevice) -> Option<Command> {
    match msg {
        DeviceToDevice::SetAnimation(a) => Some(Command::SetNextAnimation(a)),
        DeviceToDevice::SyncAnimation(a) => Some(Command::SyncAnimation(a)),
        _ => None,
    }
}

/// Picks the orders for the light runner out of the messages from the other
/// half.
pub fn command_listener(msg: DeviceToDevice) -> (r: Option<Command>)
    ensures
        r == command_in(msg),
{
    match msg {
        DeviceToDevice::SetAnimation(a) => Some(Command::SetNextAnimation(a)),
        DeviceToDevice::SyncAnimation(a) => Some(Command::SyncAnimation(a)),
        _ => None,
    }
}

} // verus!
