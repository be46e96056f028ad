//! Errors of the agent system.
use vstd::prelude::*;
use crate::text::{decimal, push_decimal, push_str};
use crate::traits::prefixed;

verus! {

#[derive(Debug, Clone)]
pub enum AgentError {
    LlmFailed(String),
    ToolFailed(String),
    PlanningFailed(String),
    Timeout(u64),
    Cancelled,
    InvalidState(String),
    NoAgent(String),
    Other(String),
}

pub open spec fn agent_error_text(e: AgentError) -> Seq<char> {
    match e {
        AgentError::LlmFailed(m) => "LLM request failed: "@ + m@,
        AgentError::ToolFailed(m) => "Tool execution failed: "@ + m@,
        AgentError::PlanningFailed(m) => "Task planning failed: "@ + m@,
        AgentError::Timeout(s) => "Agent timeout after "@ + decimal(s as nat) + "s"@,
        AgentError::Cancelled => "Agent cancelled"@,
        AgentError::InvalidState(m) => "Invalid state: "@ + m@,
        AgentError::NoAgent(m) => "No agent available for role: "@ + m@,
        AgentError::Other(m) => m@,
    }
}

impl AgentError {
    /// The error's display text.
    pub fn display_text(&self) -> (r: String)
        ensures
            r@ == agent_error_text(*self),
    {
        match self {
            AgentError::LlmFailed(m) => prefixed("LLM request failed: ", m.as_str()),
            AgentError::ToolFailed(m) => prefixed("Tool execution failed: ", m.as_str()),
            AgentError::PlanningFailed(m) => prefixed("Task planning failed: ", m.as_str()),
            AgentError::Timeout(s) => {
                let mut out = String::new();
                push_str(&mut out, "Agent timeout after ");
                push_decimal(&mut out, *s);
                push_str(&mut out, "s");
                out
            },
            AgentError::Cancelled => String::from_str("Agent cancelled"),
            AgentError::InvalidState(m) => prefixed("Invalid state: ", m.as_str()),
            AgentError::NoAgent(m) => prefixed("No agent available for role: ", m.as_str()),
            AgentError::Other(m) => m.clone(),
        }
    }
}

} // verus!
