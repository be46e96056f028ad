//! ChatAPI core: the verified logic of an OpenAI-compatible chat gateway.
use vstd::prelude::*;

pub mod text;
pub mod paths;
pub mod json;
pub mod ids;
pub mod shared;
pub mod tool_parser;
pub mod target;
pub mod rules;
pub mod ringbuf;
pub mod gateway;
pub mod traits;
pub mod sessions;
pub mod agents;
pub mod cdp;
pub mod targets;
pub mod tools;
pub mod mcp;

verus! {
} // verus!
