//! Messages from one half of the keyboard to the other.

use vstd::prelude::*;
use crate::side::KeyboardSide;

verus! {

/// Longest log line, in bytes, that one message to the host carries.
pub const MAX_LOG_LEN: usize = 16;

/// What a half reports to the host.
#[derive(Clone, Debug, PartialEq, Eq, Hash)]
pub enum DeviceToHostMsg {
    Log { msg: Vec<u8> },
}

/// A report to the host and the half it comes from.
#[derive(Clone, Debug, PartialEq, Eq, Hash)]
pub struct DeviceToHost {
    pub from_side: KeyboardSide,
    pub msg: DeviceToHostMsg,
}

/// The state of a light animation in its wire form. The halves only carry
/// it; the animation that made it reads it.
#[derive(Clone, Debug, PartialEq, Eq, Hash)]
pub struct AnimationSync {
    pub wire: Vec<u8>,
}

/// A message from one half to the other. On the wire there is one more
/// kind, a host request that one half forwards to the other; no host
/// request exists yet, so no such message can be made.
#[derive(Clone, Debug, PartialEq, Eq, Hash)]
pub enum DeviceToDevice {
    Ping,
    Pong,
    ForwardedToHost(DeviceToHost),
    KeyPress(u8, u8),
    KeyRelease(u8, u8),
    SetAnimation(AnimationSync),
    SyncAnimation(AnimationSync),
}

} // verus!
