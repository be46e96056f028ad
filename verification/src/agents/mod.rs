//! The multi-agent side: tasks, their steps and states, the agents' roles,
//! and the planning step that turns an LLM reply into steps.
pub mod agent;
pub mod error;
pub mod message;
pub mod orchestrator;
pub mod plan;
pub mod state;
pub mod task;
