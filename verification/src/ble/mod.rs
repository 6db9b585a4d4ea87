//! What runs over the wireless link to a host.

pub mod dfu;
pub mod bonder;
pub mod server;
