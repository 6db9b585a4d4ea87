//! Verified core of a split wireless keyboard.
//!
//! - [`keys`]: debounced matrix scanning, chord resolution and the key
//!   processor around the layered layout.
//! - [`interboard`]: the prioritised queue to the other half, the sender
//!   with its retries, and the session that keeps the link up.
//! - [`messages`]: what the halves tell each other and the host, and where
//!   each message goes.
//! - [`ble`]: the firmware-update bridge, the table of bonded peers and the
//!   services of each half.
//! - [`flash`]: key framing and requests of the persistent store, and the
//!   steps that bring it up.
//! - [`rgb`]: where the lights are.
//! - [`side`], [`rng`], [`utils`]: which half this is, the seed of the
//!   random generator, steady ticks.
//!
//! Everything here works on plain values. Hardware, radio, flash and timers
//! are driven by the surrounding application, which feeds samples and events
//! in and carries the returned actions out.

pub mod side;
pub mod rng;
pub mod keys;
pub mod messages;
pub mod interboard;
pub mod ble;
pub mod flash;
pub mod rgb;
pub mod utils;
