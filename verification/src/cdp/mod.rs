//! Driving a chat page in Chrome over the DevTools Protocol: the messages on
//! the DevTools socket, the events they carry, the tokens a chat page streams,
//! and finding Chrome's debugging endpoint.
pub mod discovery;
pub mod engine;
pub mod events;
