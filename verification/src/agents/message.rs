//! Messages between agents and the orchestrator, and the events the
//! orchestrator broadcasts.
use vstd::prelude::*;
use crate::agents::task::{AgentRole, TaskStatus};

verus! {

/// Messages passed between agents and the orchestrator.
#[derive(Debug, Clone)]
pub enum AgentMessage {
    StepAssigned { task_id: String, step_id: String, description: String },
    StepProgress { task_id: String, step_id: String, message: String },
    StepCompleted { task_id: String, step_id: String, result: String },
    StepFailed { task_id: String, step_id: String, error: String },
    TaskStatusChanged { task_id: String, status: TaskStatus },
}

/// Events broadcast to WebSocket clients for real-time agent monitoring.
#[derive(Debug, Clone)]
pub enum OrchestratorEvent {
    TaskStarted { task_id: String, description: String },
    TaskCompleted { task_id: String, result: String },
    TaskFailed { task_id: String, error: String },
    StepStarted { task_id: String, step_id: String, agent_role: AgentRole, description: String },
    StepCompleted { task_id: String, step_id: String, result: String },
    StepFailed { task_id: String, step_id: String, error: String },
}

} // verus!
