//! Tasks, their steps, and the roles the steps go to.
use vstd::prelude::*;
use crate::agents::state::TaskState;
use crate::ids::{is_uuid_text, now_millis, uuid_v4_text};

verus! {

#[derive(Debug, Clone, Copy, PartialEq, Eq, Structural)]
pub enum TaskStatus {
    Planning,
    InProgress,
    Completed,
    Failed,
    Cancelled,
}

/// The role an agent plays within the system.
#[derive(Debug, Clone, Copy, PartialEq, Eq, Hash, Structural)]
pub enum AgentRole {
    /// Writes and edits code
    Coding,
    /// Designs system structure, evaluates trade-offs
    Architecture,
    /// Writes and runs tests
    Testing,
    /// Investigates failures, proposes fixes
    Debugging,
    /// Manages PRs, issues, CI/CD via GitHub
    GitHub,
    /// Tracks progress, updates docs and knowledge base
    Wiki,
}

pub open spec fn role_label(r: AgentRole) -> Seq<char> {
    match r {
        AgentRole::Coding => "coding"@,
        AgentRole::Architecture => "architecture"@,
        AgentRole::Testing => "testing"@,
        AgentRole::Debugging => "debugging"@,
        AgentRole::GitHub => "github"@,
        AgentRole::Wiki => "wiki"@,
    }
}

pub open spec fn role_variant_name(r: AgentRole) -> Seq<char> {
    match r {
        AgentRole::Coding => "Coding"@,
        AgentRole::Architecture => "Architecture"@,
        AgentRole::Testing => "Testing"@,
        AgentRole::Debugging => "Debugging"@,
        AgentRole::GitHub => "GitHub"@,
        AgentRole::Wiki => "Wiki"@,
    }
}

impl AgentRole {
    /// The lower-case name a role is displayed under.
    pub fn label(&self) -> (r: &'static str)
        ensures
            r@ == role_label(*self),
    {
        match self {
            AgentRole::Coding => "coding",
            AgentRole::Architecture => "architecture",
            AgentRole::Testing => "testing",
            AgentRole::Debugging => "debugging",
            AgentRole::GitHub => "github",
            AgentRole::Wiki => "wiki",
        }
    }

    /// The variant's own name, as the capabilities list shows it.
    pub fn variant_name(&self) -> (r: &'static str)
        ensures
            r@ == role_variant_name(*self),
    {
        match self {
            AgentRole::Coding => "Coding",
            AgentRole::Architecture => "Architecture",
            AgentRole::Testing => "Testing",
            AgentRole::Debugging => "Debugging",
            AgentRole::GitHub => "GitHub",
            AgentRole::Wiki => "Wiki",
        }
    }
}

pub open spec fn status_variant_name(s: TaskStatus) -> Seq<char> {
    match s {
        TaskStatus::Planning => "Planning"@,
        TaskStatus::InProgress => "InProgress"@,
        TaskStatus::Completed => "Completed"@,
        TaskStatus::Failed => "Failed"@,
        TaskStatus::Cancelled => "Cancelled"@,
    }
}

impl TaskStatus {
    /// The variant's own name, as the task listings show it.
    pub fn variant_name(&self) -> (r: &'static str)
        ensures
            r@ == status_variant_name(*self),
    {
        match self {
            TaskStatus::Planning => "Planning",
            TaskStatus::InProgress => "InProgress",
            TaskStatus::Completed => "Completed",
            TaskStatus::Failed => "Failed",
            TaskStatus::Cancelled => "Cancelled",
        }
    }

    /// A finished task: completed, failed or cancelled.
    pub open spec fn spec_is_terminal(self) -> bool {
        self == TaskStatus::Completed || self == TaskStatus::Failed || self == TaskStatus::Cancelled
    }
}

/// A single step within a task, assigned to a specific agent role.
#[derive(Debug, Clone)]
pub struct TaskStep {
    pub id: String,
    pub description: String,
    pub assigned_to: AgentRole,
    pub status: TaskStatus,
    pub result: Option<String>,
    pub error: Option<String>,
}

impl TaskStep {
    /// A step still to be started, under a fresh id.
    pub fn new(description: String, assigned_to: AgentRole) -> (r: Self)
        ensures
            is_uuid_text(r.id@),
            r.description == description,
            r.assigned_to == assigned_to,
            r.status == TaskStatus::Planning,
            r.result is None,
            r.error is None,
    {
        TaskStep {
            id: uuid_v4_text(),
            description,
            assigned_to,
            status: TaskStatus::Planning,
            result: None,
            error: None,
        }
    }
}

/// The position of the first step with id `id`.
pub open spec fn step_index(steps: Seq<TaskStep>, id: Seq<char>) -> Option<int>
    decreases steps.len(),
{
    if steps.len() == 0 {
        None
    } else {
        match step_index(steps.drop_last(), id) {
            Some(i) => Some(i),
            None => if steps.last().id@ == id { Some(steps.len() - 1) } else { None },
        }
    }
}

pub proof fn lemma_step_index(steps: Seq<TaskStep>, id: Seq<char>)
    ensures
        step_index(steps, id) matches Some(i) ==> 0 <= i < steps.len() && steps[i].id@ == id
            && forall|j: int| 0 <= j < i ==> steps[j].id@ != id,
        step_index(steps, id) is None ==> forall|j: int| 0 <= j < steps.len() ==> steps[j].id@ != id,
    decreases steps.len(),
{
    if steps.len() > 0 {
        let d = steps.drop_last();
        lemma_step_index(d, id);
        assert forall|j: int| 0 <= j < d.len() implies d[j] == steps[j] by {}
    }
}

/// `steps` with the first step of id `id` changed by `f` (unchanged when
/// there is none).
pub open spec fn update_step(steps: Seq<TaskStep>, id: Seq<char>, f: spec_fn(TaskStep) -> TaskStep) -> Seq<TaskStep> {
    match step_index(steps, id) {
        Some(i) => steps.update(i, f(steps[i])),
        None => steps,
    }
}

/// The step with a new status.
pub open spec fn with_status(status: TaskStatus) -> spec_fn(TaskStep) -> TaskStep {
    |s: TaskStep| TaskStep { status, ..s }
}

/// The step with a result or an error recorded; what is not given stays.
pub open spec fn with_outcome(result: Option<String>, error: Option<String>) -> spec_fn(TaskStep) -> TaskStep {
    |s: TaskStep| TaskStep {
        result: if result is Some { result } else { s.result },
        error: if error is Some { error } else { s.error },
        ..s
    }
}

/// High-level task submitted to the orchestrator. Times are milliseconds
/// since the Unix epoch.
#[derive(Debug, Clone)]
pub struct Task {
    pub id: String,
    pub description: String,
    pub status: TaskStatus,
    pub steps: Vec<TaskStep>,
    pub context: TaskState,
    pub created_at: i64,
    pub updated_at: i64,
}

impl Task {
    /// A task being planned, with no steps and an empty context yet.
    pub fn new(description: String) -> (r: Self)
        ensures
            is_uuid_text(r.id@),
            r.description == description,
            r.status == TaskStatus::Planning,
            r.steps@.len() == 0,
            r.context@.len() == 0,
            r.created_at == r.updated_at,
    {
        let now = now_millis();
        Task {
            id: uuid_v4_text(),
            description,
            status: TaskStatus::Planning,
            steps: Vec::new(),
            context: TaskState::new(),
            created_at: now,
            updated_at: now,
        }
    }

    /// Completed, failed or cancelled: nothing more runs.
    pub fn is_terminal(&self) -> (r: bool)
        ensures
            r == self.status.spec_is_terminal(),
    {
        match self.status {
            TaskStatus::Completed | TaskStatus::Failed | TaskStatus::Cancelled => true,
            _ => false,
        }
    }

    /// The first step with id `step_id`.
    pub fn find_step(&self, step_id: &str) -> (r: Option<&TaskStep>)
        ensures
            match step_index(self.steps@, step_id@) {
                Some(i) => r matches Some(s) && *s == self.steps@[i],
                None => r is None,
            },
    {
        proof {
            lemma_step_index(self.steps@, step_id@);
        }
        let id = String::from_str(step_id);
        let mut i: usize = 0;
        while i < self.steps.len()
            invariant
                i <= self.steps.len(),
                id@ == step_id@,
                forall|j: int| 0 <= j < i ==> self.steps@[j].id@ != step_id@,
            decreases self.steps.len() - i,
        {
            if self.steps[i].id == id {
                proof {
                    lemma_step_index(self.steps@, step_id@);
                }
                return Some(&self.steps[i]);
            }
            i = i + 1;
        }
        None
    }

    fn find_step_index(&self, step_id: &str) -> (r: Option<usize>)
        ensures
            r matches Some(i) ==> step_index(self.steps@, step_id@) == Some(i as int) && i < self.steps@.len(),
            r is None ==> step_index(self.steps@, step_id@) is None,
    {
        proof {
            lemma_step_index(self.steps@, step_id@);
        }
        let id = String::from_str(step_id);
        let mut i: usize = 0;
        while i < self.steps.len()
            invariant
                i <= self.steps.len(),
                id@ == step_id@,
                forall|j: int| 0 <= j < i ==> self.steps@[j].id@ != step_id@,
            decreases self.steps.len() - i,
        {
            if self.steps[i].id == id {
                proof {
                    lemma_step_index(self.steps@, step_id@);
                }
                return Some(i);
            }
            i = i + 1;
        }
        None
    }

    /// The ids of the steps, in order.
    pub fn step_ids(&self) -> (r: Vec<String>)
        ensures
            r@.len() == self.steps@.len(),
            forall|i: int| 0 <= i < r@.len() ==> (#[trigger] r@[i])@ == self.steps@[i].id@,
    {
        let mut out: Vec<String> = Vec::new();
        let mut i: usize = 0;
        while i < self.steps.len()
            invariant
                i <= self.steps.len(),
                out@.len() == i,
                forall|k: int| 0 <= k < i ==> (#[trigger] out@[k])@ == self.steps@[k].id@,
            decreases self.steps.len() - i,
        {
            out.push(self.steps[i].id.clone());
            i = i + 1;
        }
        out
    }

    /// The planned steps are in: the task is in progress.
    pub fn start(&mut self, steps: Vec<TaskStep>, now: i64)
        ensures
            final(self).steps == steps,
            final(self).status == TaskStatus::InProgress,
            final(self).updated_at == now,
            final(self).id == old(self).id,
            final(self).description == old(self).description,
            final(self).created_at == old(self).created_at,
            final(self).context == old(self).context,
    {
        self.steps = steps;
        self.status = TaskStatus::InProgress;
        self.updated_at = now;
    }

    /// Sets the status of the first step with id `step_id`; the task is
    /// touched at `now` whether or not there is such a step.
    pub fn set_step_status(&mut self, step_id: &str, status: TaskStatus, now: i64)
        ensures
            final(self).steps@ == update_step(old(self).steps@, step_id@, with_status(status)),
            final(self).updated_at == now,
            final(self).status == old(self).status,
            final(self).id == old(self).id,
            final(self).description == old(self).description,
            final(self).created_at == old(self).created_at,
            final(self).context == old(self).context,
    {
        proof {
            lemma_step_index(self.steps@, step_id@);
        }
        if let Some(i) = self.find_step_index(step_id) {
            assert(step_index(old(self).steps@, step_id@) == Some(i as int));
            let mut st = self.steps.remove(i);
            st.status = status;
            self.steps.insert(i, st);
            assert(self.steps@[i as int] == (with_status(status))(old(self).steps@[i as int]));
            assert(self.steps@ =~= old(self).steps@.update(i as int, (with_status(status))(old(self).steps@[i as int])));
            assert(self.steps@ =~= update_step(old(self).steps@, step_id@, with_status(status)));
        }
        self.updated_at = now;
    }

    /// Records a result and/or an error on the first step with id `step_id`;
    /// the task is touched at `now` whether or not there is such a step.
    pub fn set_step_outcome(&mut self, step_id: &str, result: Option<String>, error: Option<String>, now: i64)
        ensures
            final(self).steps@ == update_step(old(self).steps@, step_id@, with_outcome(result, error)),
            final(self).updated_at == now,
            final(self).status == old(self).status,
            final(self).id == old(self).id,
            final(self).description == old(self).description,
            final(self).created_at == old(self).created_at,
            final(self).context == old(self).context,
    {
        proof {
            lemma_step_index(self.steps@, step_id@);
        }
        if let Some(i) = self.find_step_index(step_id) {
            assert(step_index(old(self).steps@, step_id@) == Some(i as int));
            let mut st = self.steps.remove(i);
            if result.is_some() {
                st.result = result;
            }
            if error.is_some() {
                st.error = error;
            }
            self.steps.insert(i, st);
            assert(self.steps@[i as int] == (with_outcome(result, error))(old(self).steps@[i as int]));
            assert(self.steps@ =~= old(self).steps@.update(i as int, (with_outcome(result, error))(old(self).steps@[i as int])));
            assert(self.steps@ =~= update_step(old(self).steps@, step_id@, with_outcome(result, error)));
        }
        self.updated_at = now;
    }

    /// Ends the task with `status` at `now`.
    pub fn finish(&mut self, status: TaskStatus, now: i64)
        ensures
            final(self).status == status,
            final(self).updated_at == now,
            final(self).steps == old(self).steps,
            final(self).id == old(self).id,
            final(self).description == old(self).description,
            final(self).created_at == old(self).created_at,
            final(self).context == old(self).context,
    {
        self.status = status;
        self.updated_at = now;
    }

    /// Marks the task cancelled at `now`.
    pub fn cancel(&mut self, now: i64)
        ensures
            final(self).status == TaskStatus::Cancelled,
            final(self).updated_at == now,
            final(self).id == old(self).id,
            final(self).steps == old(self).steps,
            final(self).description == old(self).description,
            final(self).created_at == old(self).created_at,
            final(self).context == old(self).context,
    {
        self.status = TaskStatus::Cancelled;
        self.updated_at = now;
    }
}

} // verus!
