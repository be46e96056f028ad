//! The orchestrator's bookkeeping: the store of tasks, newest first, and
//! what each step's outcome does to its task and to the shared context.
//!
//! Running a task alternates with awaiting the planner and the agents; the
//! code that awaits them holds a `TaskStore` and calls these functions for
//! every decision.
use vstd::prelude::*;
use crate::agents::error::{agent_error_text, AgentError};
use crate::agents::state::{law_set_then_get, state_get, state_set, TaskState};
use crate::agents::task::{update_step, with_outcome, with_status, Task, TaskStatus, TaskStep};
use crate::json::{json_quoted, json_string_value, quote};
use crate::text::push_str;

verus! {

broadcast use vstd::seq_lib::group_seq_properties;

pub open spec fn task_ids_distinct(v: Seq<Task>) -> bool {
    forall|i: int, j: int| 0 <= i < j < v.len() ==> v[i].id@ != v[j].id@
}

/// Newest first: creation times never increase along the store.
pub open spec fn newest_first(v: Seq<Task>) -> bool {
    forall|i: int, j: int| 0 <= i < j < v.len() ==> v[i].created_at >= v[j].created_at
}

/// The task changed by `f` keeps its id and creation time.
pub open spec fn keeps_identity(a: Task, b: Task) -> bool {
    a.id == b.id && a.created_at == b.created_at
}

/// Thread-safe store for active and recent tasks (the locking is the
/// caller's): each id at most once, the newest task first.
pub struct TaskStore {
    tasks: Vec<Task>,
}

impl View for TaskStore {
    type V = Seq<Task>;

    closed spec fn view(&self) -> Seq<Task> {
        self.tasks@
    }
}

impl TaskStore {
    pub open spec fn wf(&self) -> bool {
        task_ids_distinct(self@) && newest_first(self@)
    }

    pub fn new() -> (r: Self)
        ensures
            r.wf(),
            r@.len() == 0,
    {
        TaskStore { tasks: Vec::new() }
    }

    fn index_of(&self, id: &str) -> (r: Option<usize>)
        requires
            self.wf(),
        ensures
            r matches Some(i) ==> i < self@.len() && self@[i as int].id@ == id@,
            r is None ==> forall|j: int| 0 <= j < self@.len() ==> self@[j].id@ != id@,
    {
        let key = String::from_str(id);
        let mut i: usize = 0;
        while i < self.tasks.len()
            invariant
                i <= self.tasks.len(),
                key@ == id@,
                forall|j: int| 0 <= j < i ==> self.tasks@[j].id@ != id@,
            decreases self.tasks.len() - i,
        {
            if self.tasks[i].id == key {
                return Some(i);
            }
            i = i + 1;
        }
        None
    }

    /// The task with id `id`.
    pub fn get(&self, id: &str) -> (r: Option<&Task>)
        requires
            self.wf(),
        ensures
            r matches Some(t) ==> t.id@ == id@ && self@.contains(*t),
            r is None ==> forall|j: int| 0 <= j < self@.len() ==> self@[j].id@ != id@,
    {
        match self.index_of(id) {
            Some(i) => Some(&self.tasks[i]),
            None => None,
        }
    }

    /// All tasks, most recent first.
    pub fn list(&self) -> (r: Vec<&Task>)
        requires
            self.wf(),
        ensures
            r@.len() == self@.len(),
            forall|i: int| 0 <= i < r@.len() ==> *(#[trigger] r@[i]) == self@[i],
            forall|i: int, j: int| 0 <= i < j < r@.len() ==> r@[i].created_at >= r@[j].created_at,
    {
        let mut out: Vec<&Task> = Vec::new();
        let mut i: usize = 0;
        while i < self.tasks.len()
            invariant
                i <= self.tasks.len(),
                out@.len() == i,
                forall|k: int| 0 <= k < i ==> *(#[trigger] out@[k]) == self.tasks@[k],
            decreases self.tasks.len() - i,
        {
            out.push(&self.tasks[i]);
            i = i + 1;
        }
        out
    }

    /// Removes the task with id `id`, handing it back.
    pub fn remove(&mut self, id: &str) -> (r: Option<Task>)
        requires
            old(self).wf(),
        ensures
            final(self).wf(),
            r matches Some(t) ==> t.id@ == id@ && exists|i: int| 0 <= i < old(self)@.len() && old(self)@[i] == t
                && final(self)@ == old(self)@.remove(i),
            r is None ==> final(self)@ == old(self)@ && forall|j: int| 0 <= j < old(self)@.len() ==> old(self)@[j].id@ != id@,
    {
        match self.index_of(id) {
            Some(i) => {
                let t = self.tasks.remove(i);
                proof {
                    let o = old(self)@;
                    let n = self@;
                    assert(n =~= o.remove(i as int));
                    assert forall|a: int, b: int| 0 <= a < b < n.len() implies n[a].id@ != n[b].id@ && n[a].created_at >= n[b].created_at by {
                        let a0 = if a < i { a } else { a + 1 };
                        let b0 = if b < i { b } else { b + 1 };
                        assert(n[a] == o[a0] && n[b] == o[b0]);
                    }
                }
                Some(t)
            },
            None => None,
        }
    }

    /// Inserts a task, or replaces the one with its id; the store stays
    /// newest first.
    pub fn upsert(&mut self, task: Task)
        requires
            old(self).wf(),
        ensures
            final(self).wf(),
            final(self)@.contains(task),
            forall|x: Task| #[trigger] final(self)@.contains(x) <==> (x == task || (old(self)@.contains(x) && x.id@ != task.id@)),
    {
        let _ = self.remove(task.id.as_str());
        let ghost mid = self@;
        assert forall|x: Task| #[trigger] mid.contains(x) <==> (old(self)@.contains(x) && x.id@ != task.id@) by {
            if mid.contains(x) {
                let k = choose|k: int| 0 <= k < mid.len() && mid[k] == x;
                if exists|i: int| 0 <= i < old(self)@.len() && old(self)@[i].id@ == task.id@ && mid == old(self)@.remove(i) {
                    let i = choose|i: int| 0 <= i < old(self)@.len() && old(self)@[i].id@ == task.id@ && mid == old(self)@.remove(i);
                    let k0 = if k < i { k } else { k + 1 };
                    assert(old(self)@[k0] == x);
                    assert(k0 != i);
                } else {
                    assert(old(self)@[k] == x);
                }
            }
            if old(self)@.contains(x) && x.id@ != task.id@ {
                let k = choose|k: int| 0 <= k < old(self)@.len() && old(self)@[k] == x;
                if exists|i: int| 0 <= i < old(self)@.len() && old(self)@[i].id@ == task.id@ && mid == old(self)@.remove(i) {
                    let i = choose|i: int| 0 <= i < old(self)@.len() && old(self)@[i].id@ == task.id@ && mid == old(self)@.remove(i);
                    assert(k != i);
                    let k1 = if k < i { k } else { k - 1 };
                    assert(mid[k1] == x);
                } else {
                    assert(mid[k] == x);
                }
            }
        }
        let mut p: usize = 0;
        while p < self.tasks.len() && self.tasks[p].created_at >= task.created_at
            invariant
                p <= self.tasks.len(),
                self@ == mid,
                forall|j: int| 0 <= j < p ==> mid[j].created_at >= task.created_at,
            decreases self.tasks.len() - p,
        {
            p = p + 1;
        }
        let ghost tk = task;
        self.tasks.insert(p, task);
        proof {
            let n = self@;
            assert(n =~= mid.insert(p as int, tk));
            assert(n[p as int] == tk);
            assert forall|j: int| 0 <= j < mid.len() implies mid[j].id@ != tk.id@ by {
                assert(mid.contains(mid[j]));
            }
            assert forall|a: int, b: int| 0 <= a < b < n.len() implies n[a].id@ != n[b].id@ && n[a].created_at >= n[b].created_at by {
                if a < p && b < p {
                    assert(n[a] == mid[a] && n[b] == mid[b]);
                } else if a < p && b == p {
                    assert(n[a] == mid[a]);
                } else if a < p {
                    assert(n[a] == mid[a] && n[b] == mid[b - 1]);
                } else if a == p {
                    assert(n[b] == mid[b - 1]);
                    assert(mid[p as int].created_at < tk.created_at);
                    assert(mid[p as int].created_at >= mid[b - 1].created_at || b - 1 == p);
                } else {
                    assert(n[a] == mid[a - 1] && n[b] == mid[b - 1]);
                }
            }
            assert forall|x: Task| #[trigger] n.contains(x) <==> (x == tk || mid.contains(x)) by {
                if n.contains(x) {
                    let k = choose|k: int| 0 <= k < n.len() && n[k] == x;
                    if k < p { assert(mid[k] == x); } else if k > p { assert(mid[k - 1] == x); }
                }
                if mid.contains(x) {
                    let k = choose|k: int| 0 <= k < mid.len() && mid[k] == x;
                    if k < p { assert(n[k] == x); } else { assert(n[k + 1] == x); }
                }
            }
        }
    }

    /// Changes the task with id `task_id` as `change` says; nothing happens
    /// when there is no such task.
    fn touch(&mut self, task_id: &str, change: TaskChange) -> (found: bool)
        requires
            old(self).wf(),
        ensures
            final(self).wf(),
            store_changed(old(self)@, final(self)@, task_id@, change_view(change)),
            found <==> exists|j: int| 0 <= j < old(self)@.len() && old(self)@[j].id@ == task_id@,
    {
        let ghost ch = change_view(change);
        match self.index_of(task_id) {
            Some(i) => {
                let mut t = self.tasks.remove(i);
                let ghost before = t;
                apply_change(&mut t, change);
                self.tasks.insert(i, t);
                proof {
                    let o = old(self)@;
                    let n = self@;
                    assert(n.len() == o.len());
                    assert(n[i as int] == t);
                    assert(before == o[i as int]);
                    assert forall|j: int| 0 <= j < n.len() && j != i implies n[j] == o[j] by {}
                    assert forall|a: int, b: int| 0 <= a < b < n.len() implies n[a].id@ != n[b].id@ && n[a].created_at >= n[b].created_at by {
                        assert(n[a].id == o[a].id && n[a].created_at == o[a].created_at);
                        assert(n[b].id == o[b].id && n[b].created_at == o[b].created_at);
                    }
                    assert(changed(o[i as int], n[i as int], ch));
                }
                true
            },
            None => false,
        }
    }

    /// Whether the task is over (a task that is not there is not).
    pub fn is_terminal(&self, task_id: &str) -> (r: bool)
        requires
            self.wf(),
        ensures
            r <==> exists|i: int| 0 <= i < self@.len() && self@[i].id@ == task_id@ && self@[i].status.spec_is_terminal(),
    {
        match self.get(task_id) {
            Some(t) => t.is_terminal(),
            None => false,
        }
    }

    /// The planned steps are in: the task is in progress.
    pub fn start_task(&mut self, task_id: &str, steps: Vec<TaskStep>, now: i64)
        requires
            old(self).wf(),
        ensures
            final(self).wf(),
            store_changed(old(self)@, final(self)@, task_id@, ChangeView::Start(steps@, now)),
    {
        self.touch(task_id, TaskChange::Start(steps, now));
    }

    /// Sets the status of a step of a task.
    pub fn update_step_status(&mut self, task_id: &str, step_id: &str, status: TaskStatus, now: i64)
        requires
            old(self).wf(),
        ensures
            final(self).wf(),
            store_changed(old(self)@, final(self)@, task_id@, ChangeView::StepStatus(step_id@, status, now)),
    {
        self.touch(task_id, TaskChange::StepStatus(String::from_str(step_id), status, now));
    }

    /// Records a result and/or an error on a step of a task.
    pub fn update_step_result(&mut self, task_id: &str, step_id: &str, result: Option<String>, error: Option<String>, now: i64)
        requires
            old(self).wf(),
        ensures
            final(self).wf(),
            store_changed(old(self)@, final(self)@, task_id@, ChangeView::StepOutcome(step_id@, result, error, now)),
    {
        self.touch(task_id, TaskChange::StepOutcome(String::from_str(step_id), result, error, now));
    }

    /// Marks a task failed.
    pub fn mark_task_failed(&mut self, task_id: &str, now: i64)
        requires
            old(self).wf(),
        ensures
            final(self).wf(),
            store_changed(old(self)@, final(self)@, task_id@, ChangeView::Finish(TaskStatus::Failed, now)),
    {
        self.touch(task_id, TaskChange::Finish(TaskStatus::Failed, now));
    }

    /// Marks a task completed.
    pub fn complete_task(&mut self, task_id: &str, now: i64)
        requires
            old(self).wf(),
        ensures
            final(self).wf(),
            store_changed(old(self)@, final(self)@, task_id@, ChangeView::Finish(TaskStatus::Completed, now)),
    {
        self.touch(task_id, TaskChange::Finish(TaskStatus::Completed, now));
    }

    /// Cancels a task; a task that is not there cannot be cancelled.
    pub fn cancel_task(&mut self, task_id: &str, now: i64) -> (r: Result<(), AgentError>)
        requires
            old(self).wf(),
        ensures
            final(self).wf(),
            store_changed(old(self)@, final(self)@, task_id@, ChangeView::Finish(TaskStatus::Cancelled, now)),
            r is Ok <==> exists|j: int| 0 <= j < old(self)@.len() && old(self)@[j].id@ == task_id@,
            r matches Err(e) ==> e matches AgentError::InvalidState(m) && m@ == "Task "@ + task_id@ + " not found"@,
    {
        if self.touch(task_id, TaskChange::Finish(TaskStatus::Cancelled, now)) {
            Ok(())
        } else {
            let mut m = String::new();
            push_str(&mut m, "Task ");
            push_str(&mut m, task_id);
            push_str(&mut m, " not found");
            Err(AgentError::InvalidState(m))
        }
    }
}

/// The key a step's result is shared under with the steps after it.
pub open spec fn step_key(step_id: Seq<char>) -> Seq<char> {
    "step_"@ + step_id
}

/// Records what an agent's run of a step gave. On success the step keeps
/// its result and completes, and the result is shared, as a JSON string,
/// under `step_<id>`; on failure the step keeps the error's text and fails,
/// and so does the task. The text handed back is the result or the error's
/// text, for the events the orchestrator sends.
pub fn record_step_outcome(
    store: &mut TaskStore,
    ctx: &mut TaskState,
    task_id: &str,
    step_id: &str,
    outcome: Result<String, AgentError>,
    now: i64,
) -> (r: Result<String, String>)
    requires
        old(store).wf(),
        old(ctx).wf(),
    ensures
        final(store).wf(),
        final(ctx).wf(),
        match outcome {
            Ok(out) => {
                &&& r matches Ok(t) && t == out
                &&& final(ctx)@ == state_set(old(ctx)@, step_key(step_id@), json_quoted(out@))
                &&& state_get(final(ctx)@, step_key(step_id@)) matches Some(v) && json_string_value(v) == Some(out@)
                &&& exists|mid: Seq<Task>|
                    store_changed(old(store)@, mid, task_id@, ChangeView::StepOutcome(step_id@, Some(out), None, now))
                    && store_changed(mid, final(store)@, task_id@, ChangeView::StepStatus(step_id@, TaskStatus::Completed, now))
            },
            Err(e) => {
                &&& r matches Err(t) && t@ == agent_error_text(e)
                &&& final(ctx)@ == old(ctx)@
                &&& exists|text: String, m1: Seq<Task>, m2: Seq<Task>|
                    text@ == agent_error_text(e)
                    && store_changed(old(store)@, m1, task_id@, ChangeView::StepOutcome(step_id@, None, Some(text), now))
                    && store_changed(m1, m2, task_id@, ChangeView::StepStatus(step_id@, TaskStatus::Failed, now))
                    && store_changed(m2, final(store)@, task_id@, ChangeView::Finish(TaskStatus::Failed, now))
            },
        },
{
    match outcome {
        Ok(output) => {
            let kept = output.clone();
            store.update_step_result(task_id, step_id, Some(kept), None, now);
            let ghost mid = store@;
            store.update_step_status(task_id, step_id, TaskStatus::Completed, now);
            let mut key = String::new();
            push_str(&mut key, "step_");
            push_str(&mut key, step_id);
            let q = quote(output.as_str());
            proof {
                law_set_then_get(ctx@, key@, q@, key@);
            }
            ctx.set(key, q);
            Ok(output)
        },
        Err(e) => {
            let text = e.display_text();
            let kept = text.clone();
            store.update_step_result(task_id, step_id, None, Some(kept), now);
            let ghost m1 = store@;
            store.update_step_status(task_id, step_id, TaskStatus::Failed, now);
            let ghost m2 = store@;
            store.mark_task_failed(task_id, now);
            Err(text)
        },
    }
}

/// A change the orchestrator makes to one task.
pub enum ChangeView {
    Start(Seq<TaskStep>, i64),
    StepStatus(Seq<char>, TaskStatus, i64),
    StepOutcome(Seq<char>, Option<String>, Option<String>, i64),
    Finish(TaskStatus, i64),
}

enum TaskChange {
    /// The planned steps, the task now in progress.
    Start(Vec<TaskStep>, i64),
    /// A step's new status.
    StepStatus(String, TaskStatus, i64),
    /// A step's result and/or error.
    StepOutcome(String, Option<String>, Option<String>, i64),
    /// The task's final status.
    Finish(TaskStatus, i64),
}

/// `b` is `a` changed as `change` says; the id, description, creation time
/// and context always stay.
pub open spec fn changed(a: Task, b: Task, change: ChangeView) -> bool {
    &&& b.id == a.id
    &&& b.description == a.description
    &&& b.created_at == a.created_at
    &&& b.context == a.context
    &&& match change {
        ChangeView::Start(steps, now) => b.steps@ == steps && b.status == TaskStatus::InProgress && b.updated_at == now,
        ChangeView::StepStatus(step_id, status, now) =>
            b.steps@ == update_step(a.steps@, step_id, with_status(status)) && b.status == a.status && b.updated_at == now,
        ChangeView::StepOutcome(step_id, result, error, now) =>
            b.steps@ == update_step(a.steps@, step_id, with_outcome(result, error)) && b.status == a.status && b.updated_at == now,
        ChangeView::Finish(status, now) => b.steps == a.steps && b.status == status && b.updated_at == now,
    }
}

/// The store after `change` to the task with id `task_id`: that task changed
/// and every other kept, or, when there is no such task, nothing changed.
pub open spec fn store_changed(o: Seq<Task>, n: Seq<Task>, task_id: Seq<char>, change: ChangeView) -> bool {
    ||| exists|i: int| 0 <= i < o.len() && o[i].id@ == task_id && n.len() == o.len()
        && changed(o[i], n[i], change)
        && forall|j: int| 0 <= j < n.len() && j != i ==> n[j] == o[j]
    ||| n == o && forall|j: int| 0 <= j < o.len() ==> o[j].id@ != task_id
}

spec fn change_view(c: TaskChange) -> ChangeView {
    match c {
        TaskChange::Start(steps, now) => ChangeView::Start(steps@, now),
        TaskChange::StepStatus(step_id, status, now) => ChangeView::StepStatus(step_id@, status, now),
        TaskChange::StepOutcome(step_id, result, error, now) => ChangeView::StepOutcome(step_id@, result, error, now),
        TaskChange::Finish(status, now) => ChangeView::Finish(status, now),
    }
}

fn apply_change(t: &mut Task, change: TaskChange)
    ensures
        changed(*old(t), *final(t), change_view(change)),
{
    match change {
        TaskChange::Start(steps, now) => t.start(steps, now),
        TaskChange::StepStatus(step_id, status, now) => t.set_step_status(step_id.as_str(), status, now),
        TaskChange::StepOutcome(step_id, result, error, now) => t.set_step_outcome(step_id.as_str(), result, error, now),
        TaskChange::Finish(status, now) => t.finish(status, now),
    }
}

/// Recording a step's status or outcome never changes any task's own
/// status: only starting, finishing and cancelling do.
pub proof fn law_step_updates_keep_task_status(o: Seq<Task>, n: Seq<Task>, task_id: Seq<char>, change: ChangeView)
    requires
        store_changed(o, n, task_id, change),
        change is StepStatus || change is StepOutcome,
    ensures
        n.len() == o.len(),
        forall|i: int| 0 <= i < n.len() ==> #[trigger] n[i].status == o[i].status && n[i].id == o[i].id,
{
    if exists|i: int| 0 <= i < o.len() && o[i].id@ == task_id && n.len() == o.len()
        && changed(o[i], n[i], change)
        && forall|j: int| 0 <= j < n.len() && j != i ==> n[j] == o[j] {
        let i = choose|i: int| 0 <= i < o.len() && o[i].id@ == task_id && n.len() == o.len()
            && changed(o[i], n[i], change)
            && forall|j: int| 0 <= j < n.len() && j != i ==> n[j] == o[j];
        assert forall|k: int| 0 <= k < n.len() implies #[trigger] n[k].status == o[k].status && n[k].id == o[k].id by {
            if k != i {
                assert(n[k] == o[k]);
            }
        }
    }
}


/// A task that is there and is finished, failed or cancelled is over from
/// then on: `is_terminal` holds of it, so the steps left are not run.
pub proof fn law_finished_task_is_terminal(o: Seq<Task>, n: Seq<Task>, task_id: Seq<char>, status: TaskStatus, now: i64)
    requires
        store_changed(o, n, task_id, ChangeView::Finish(status, now)),
        status.spec_is_terminal(),
        exists|j: int| 0 <= j < o.len() && o[j].id@ == task_id,
    ensures
        exists|i: int| 0 <= i < n.len() && n[i].id@ == task_id && n[i].status.spec_is_terminal(),
{
    let j = choose|j: int| 0 <= j < o.len() && o[j].id@ == task_id;
    assert(!(n == o && forall|k: int| 0 <= k < o.len() ==> o[k].id@ != task_id));
    let i = choose|i: int| 0 <= i < o.len() && o[i].id@ == task_id && n.len() == o.len()
        && changed(o[i], n[i], ChangeView::Finish(status, now))
        && forall|k: int| 0 <= k < n.len() && k != i ==> n[k] == o[k];
    assert(n[i].id@ == task_id && n[i].status.spec_is_terminal());
}

} // verus!
