//! The plumbing shared by tools, targets and session stores.
use vstd::prelude::*;
use crate::text::{decimal, push_decimal, push_str};

verus! {

/// Context passed to every tool execution.
#[derive(Debug, Clone)]
pub struct ToolContext {
    pub session_id: String,
    pub working_dir: String,
    pub env: Vec<(String, String)>,
}

/// Result of a tool execution.
#[derive(Debug, Clone)]
pub enum ToolResult {
    Text(String),
    Diff { old: String, new: String, path: String },
    Error { message: String, recoverable: bool },
}

/// Errors from tool execution.
#[derive(Debug, Clone)]
pub enum ToolError {
    NotFound(String),
    InvalidArgs(String),
    ExecutionFailed(String),
    Timeout(u64),
    PathBlocked(String),
}

/// Errors from target providers.
#[derive(Debug, Clone)]
pub enum TargetError {
    ConnectionFailed(String),
    RequestFailed(String),
    Timeout,
}

/// Errors from session persistence.
#[derive(Debug, Clone)]
pub enum SessionError {
    NotFound(String),
    StoreError(String),
}

pub open spec fn tool_error_text(e: ToolError) -> Seq<char> {
    match e {
        ToolError::NotFound(m) => "tool not found: "@ + m@,
        ToolError::InvalidArgs(m) => "invalid arguments: "@ + m@,
        ToolError::ExecutionFailed(m) => "execution failed: "@ + m@,
        ToolError::Timeout(ms) => "timeout after "@ + decimal(ms as nat) + "ms"@,
        ToolError::PathBlocked(m) => "path blocked: "@ + m@,
    }
}

pub open spec fn target_error_text(e: TargetError) -> Seq<char> {
    match e {
        TargetError::ConnectionFailed(m) => "connection failed: "@ + m@,
        TargetError::RequestFailed(m) => "request failed: "@ + m@,
        TargetError::Timeout => "timeout"@,
    }
}

pub open spec fn session_error_text(e: SessionError) -> Seq<char> {
    match e {
        SessionError::NotFound(m) => "session not found: "@ + m@,
        SessionError::StoreError(m) => "store error: "@ + m@,
    }
}

/// `prefix` followed by `m`.
pub fn prefixed(prefix: &str, m: &str) -> (r: String)
    ensures
        r@ == prefix@ + m@,
{
    let mut out = String::new();
    push_str(&mut out, prefix);
    push_str(&mut out, m);
    out
}

impl ToolError {
    /// The error's display text.
    pub fn display_text(&self) -> (r: String)
        ensures
            r@ == tool_error_text(*self),
    {
        match self {
            ToolError::NotFound(m) => prefixed("tool not found: ", m.as_str()),
            ToolError::InvalidArgs(m) => prefixed("invalid arguments: ", m.as_str()),
            ToolError::ExecutionFailed(m) => prefixed("execution failed: ", m.as_str()),
            ToolError::Timeout(ms) => {
                let mut out = String::new();
                push_str(&mut out, "timeout after ");
                push_decimal(&mut out, *ms);
                push_str(&mut out, "ms");
                out
            },
            ToolError::PathBlocked(m) => prefixed("path blocked: ", m.as_str()),
        }
    }
}

impl TargetError {
    /// The error's display text.
    pub fn display_text(&self) -> (r: String)
        ensures
            r@ == target_error_text(*self),
    {
        match self {
            TargetError::ConnectionFailed(m) => prefixed("connection failed: ", m.as_str()),
            TargetError::RequestFailed(m) => prefixed("request failed: ", m.as_str()),
            TargetError::Timeout => String::from_str("timeout"),
        }
    }
}

impl SessionError {
    /// The error's display text.
    pub fn display_text(&self) -> (r: String)
        ensures
            r@ == session_error_text(*self),
    {
        match self {
            SessionError::NotFound(m) => prefixed("session not found: ", m.as_str()),
            SessionError::StoreError(m) => prefixed("store error: ", m.as_str()),
        }
    }
}

} // verus!
