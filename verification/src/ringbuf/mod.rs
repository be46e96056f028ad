//! The byte ring buffer between the CDP engine and the gateway, and the
//! command and event types that travel on their channel.
pub mod buffer;
pub mod channel;
