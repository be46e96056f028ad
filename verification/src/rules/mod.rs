//! The `.chatapi` configuration and the rules it sets: which tools may run,
//! which paths are off limits, and the system prompt.
pub mod config;
pub mod filter;
pub mod prompt;
