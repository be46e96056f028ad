//! Conversation sessions: history, branching, and an in-memory store.
pub mod manager;
pub mod models;
pub mod store;
