//! The link between the two halves.

pub mod channel;
pub mod transmit;
pub mod session;
