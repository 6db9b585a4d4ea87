//! The messages that travel between the halves and to the host.

pub mod device_to_device;
pub mod distributors;
