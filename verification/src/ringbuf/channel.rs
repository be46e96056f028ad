//! Commands sent from the gateway to the CDP engine, and its events back.
use vstd::prelude::*;

verus! {

/// Commands sent from the gateway to the CDP engine.
#[derive(Debug, Clone)]
pub enum CdpCommand {
    SendPrompt { session_id: String, prompt: String },
    NewSession,
    CloseSession,
}

/// Events emitted by the CDP engine back to the gateway.
#[derive(Debug, Clone)]
pub enum CdpEvent {
    TokenReceived { session_id: String, token: String },
    StreamComplete { session_id: String },
    Error { session_id: String, message: String },
}

/// The channel was closed at the other end.
#[derive(Debug, Clone, Copy, PartialEq, Eq, Structural)]
pub enum ChannelError {
    Closed,
}

/// Creates the paired command and event channels (the queues themselves are
/// tokio's, built by the program).
pub struct CommandChannel;

} // verus!
