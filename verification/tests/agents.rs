use chatapi::agents::agent::{
    agent_name, available_tools, debugging_config, offered_tools, read_reply, step_prompt, system_prompt,
    testing_config, tool_outcome, turn_allowed, AgentConfig, AgentReply, TurnOutcome,
};
use chatapi::agents::error::AgentError;
use chatapi::agents::orchestrator::{record_step_outcome, TaskStore};
use chatapi::agents::plan::{plan_from_reply, plan_json_text, plan_steps, planning_prompt};
use chatapi::agents::state::TaskState;
use chatapi::agents::task::{AgentRole, Task, TaskStatus, TaskStep};
use chatapi::shared::{FunctionCall, ToolCall};
use chatapi::traits::{ToolError, ToolResult};

fn strings(v: &[&str]) -> Vec<String> {
    v.iter().map(|s| s.to_string()).collect()
}

fn is_uuid(s: &str) -> bool {
    s.len() == 36 && s.chars().enumerate().all(|(i, c)| {
        if i == 8 || i == 13 || i == 18 || i == 23 { c == '-' } else { c.is_ascii_hexdigit() && !c.is_ascii_uppercase() }
    })
}

#[test]
fn agent_config_defaults() {
    let c = AgentConfig::default();
    assert_eq!(c.system_prompt, "");
    assert_eq!(c.max_turns, 20);
    assert_eq!(c.max_retries, 3);
    assert_eq!(c.step_timeout_secs, 300);
    assert!(c.tool_filter.is_empty());
}

#[test]
fn roles_have_names_and_tools() {
    assert_eq!(agent_name(AgentRole::Coding), "CodingAgent");
    assert_eq!(agent_name(AgentRole::GitHub), "GitHubAgent");
    assert_eq!(available_tools(AgentRole::Architecture), strings(&["read_file", "list_dir", "grep_code"]));
    assert_eq!(available_tools(AgentRole::Coding), available_tools(AgentRole::Debugging));
    assert_eq!(available_tools(AgentRole::Coding).len(), 8);
    assert_eq!(
        available_tools(AgentRole::GitHub),
        strings(&["read_file", "list_dir", "run_command", "git_status", "git_diff"])
    );
    assert_eq!(AgentRole::GitHub.label(), "github");
    assert_eq!(AgentRole::GitHub.variant_name(), "GitHub");
}

#[test]
fn offered_tools_keep_registry_order() {
    let reg = strings(&["read_file", "write_file", "grep_code", "list_dir"]);
    let allowed = strings(&["list_dir", "read_file", "missing"]);
    assert_eq!(offered_tools(&reg, &allowed), strings(&["read_file", "list_dir"]));
    assert!(offered_tools(&reg, &Vec::new()).is_empty());
}

#[test]
fn prompts_and_role_configs() {
    let c = AgentConfig::default();
    assert!(system_prompt(&c).starts_with("You are an expert coding agent."));
    let custom = AgentConfig { system_prompt: "Be brief.".to_string(), ..AgentConfig::default() };
    assert_eq!(system_prompt(&custom), "Be brief.");
    let d = debugging_config(AgentConfig { max_turns: 7, ..AgentConfig::default() });
    assert_eq!(d.max_turns, 7);
    assert!(d.system_prompt.starts_with("You are an expert debugging agent."));
    assert_eq!(d.tool_filter.len(), 11);
    assert_eq!(d.tool_filter[3], "apply_patch");
    let t = testing_config(AgentConfig::default());
    assert!(t.system_prompt.contains("cargo test"));
    assert_eq!(t.tool_filter, strings(&["read_file", "write_file", "edit_file", "list_dir", "run_command", "grep_code"]));
}

#[test]
fn step_prompt_with_and_without_context() {
    let empty = TaskState::new();
    assert_eq!(step_prompt("Do X", &empty), "Complete this step:\n\nDo X");
    let mut ctx = TaskState::new();
    ctx.set("k1".to_string(), "\"v1\"".to_string());
    ctx.set("k2".to_string(), "2".to_string());
    assert_eq!(step_prompt("Do X", &ctx), "Complete this step:\n\nDo X\n\nTask context:\nk1: \"v1\"\nk2: 2");
}

#[test]
fn tool_outcomes_are_reported() {
    assert_eq!(tool_outcome(&Ok(ToolResult::Text("hi".into()))), "hi");
    let diff = ToolResult::Diff { old: "a".into(), new: "b".into(), path: "p.rs".into() };
    assert_eq!(tool_outcome(&Ok(diff)), "Diff for p.rs:\n--- old\na\n+++ new\nb");
    assert_eq!(tool_outcome(&Ok(ToolResult::Error { message: "bad".into(), recoverable: false })), "Error: bad");
    assert_eq!(tool_outcome(&Err(ToolError::NotFound("x".into()))), "Tool execution error: tool not found: x");
    assert_eq!(tool_outcome(&Err(ToolError::Timeout(50))), "Tool execution error: timeout after 50ms");
}

#[test]
fn turn_limit_times_out() {
    let c = AgentConfig { max_turns: 2, ..AgentConfig::default() };
    assert!(turn_allowed(&c, 0).is_ok());
    assert!(turn_allowed(&c, 1).is_ok());
    match turn_allowed(&c, 2) {
        Err(AgentError::Timeout(s)) => assert_eq!(s, 300),
        other => panic!("unexpected {:?}", other),
    }
}

#[test]
fn replies_decide_the_next_turn() {
    match read_reply(Err("boom".into())) {
        TurnOutcome::Done(Err(AgentError::LlmFailed(m))) => assert_eq!(m, "boom"),
        other => panic!("unexpected {:?}", other),
    }
    match read_reply(Ok(None)) {
        TurnOutcome::Done(Err(AgentError::LlmFailed(m))) => assert_eq!(m, "No choices in response"),
        other => panic!("unexpected {:?}", other),
    }
    let call = ToolCall {
        id: "call_1".into(),
        call_type: "function".into(),
        function: FunctionCall { name: "read_file".into(), arguments: "{}".into() },
    };
    match read_reply(Ok(Some(AgentReply { content: Some("x".into()), tool_calls: vec![call] }))) {
        TurnOutcome::RunTools(calls) => assert_eq!(calls[0].function.name, "read_file"),
        other => panic!("unexpected {:?}", other),
    }
    match read_reply(Ok(Some(AgentReply { content: Some("done".into()), tool_calls: vec![] }))) {
        TurnOutcome::Done(Ok(t)) => assert_eq!(t, "done"),
        other => panic!("unexpected {:?}", other),
    }
    match read_reply(Ok(Some(AgentReply { content: None, tool_calls: vec![] }))) {
        TurnOutcome::Done(Ok(t)) => assert_eq!(t, "No response from LLM"),
        other => panic!("unexpected {:?}", other),
    }
}

#[test]
fn plan_json_strips_fences() {
    assert_eq!(plan_json_text("  [1]  "), "[1]");
    assert_eq!(plan_json_text("```json\n[1]\n```"), "[1]");
    assert_eq!(plan_json_text("```\n[2]\n``````"), "[2]");
}

#[test]
fn planner_reply_becomes_steps() {
    let reply = "```json\n[{\"description\": \"design\", \"role\": \"architecture\"}, {\"role\": \"wiki\"}, {\"description\": \"x\", \"role\": \"banana\"}, {\"description\": 3}]\n```";
    let steps = plan_steps(reply).unwrap();
    assert_eq!(steps.len(), 4);
    assert_eq!(steps[0].description, "design");
    assert_eq!(steps[0].assigned_to, AgentRole::Architecture);
    assert_eq!(steps[1].description, "unnamed step");
    assert_eq!(steps[1].assigned_to, AgentRole::Wiki);
    assert_eq!(steps[2].assigned_to, AgentRole::Coding);
    assert_eq!(steps[3].description, "unnamed step");
    assert_eq!(steps[3].assigned_to, AgentRole::Coding);
    for s in &steps {
        assert!(is_uuid(&s.id));
        assert_eq!(s.status, TaskStatus::Planning);
        assert!(s.result.is_none() && s.error.is_none());
    }
    assert_ne!(steps[0].id, steps[1].id);
}

#[test]
fn planner_errors() {
    match plan_steps("not json") {
        Err(AgentError::PlanningFailed(m)) => assert!(m.starts_with("Failed to parse plan: "), "{}", m),
        other => panic!("unexpected {:?}", other.map(|v| v.len())),
    }
    match plan_steps("{\"a\": 1}") {
        Err(AgentError::PlanningFailed(m)) => assert!(m.starts_with("Failed to parse plan: ")),
        other => panic!("unexpected {:?}", other.map(|v| v.len())),
    }
    match plan_from_reply(None) {
        Err(AgentError::PlanningFailed(m)) => assert_eq!(m, "Empty LLM response"),
        other => panic!("unexpected {:?}", other.map(|v| v.len())),
    }
    assert_eq!(plan_from_reply(Some("[]")).unwrap().len(), 0);
    assert!(planning_prompt("Build X").ends_with("Available roles: coding, architecture, testing, debugging, github, wiki\n\nTask: Build X"));
}

#[test]
fn agent_errors_display() {
    assert_eq!(AgentError::Timeout(5).display_text(), "Agent timeout after 5s");
    assert_eq!(AgentError::NoAgent("Coding".into()).display_text(), "No agent available for role: Coding");
    assert_eq!(AgentError::Cancelled.display_text(), "Agent cancelled");
    assert_eq!(AgentError::Other("plain".into()).display_text(), "plain");
    assert_eq!(AgentError::PlanningFailed("x".into()).display_text(), "Task planning failed: x");
}

#[test]
fn task_state_set_then_get() {
    let mut s = TaskState::new();
    assert!(s.is_empty());
    s.set("a".into(), "1".into());
    s.set("b".into(), "2".into());
    s.set("a".into(), "3".into());
    assert_eq!(s.len(), 2);
    assert_eq!(s.get("a").map(|v| v.as_str()), Some("3"));
    assert_eq!(s.get("b").map(|v| v.as_str()), Some("2"));
    assert!(s.get("c").is_none());
    let keys: Vec<&String> = s.keys();
    assert_eq!(keys, vec!["a", "b"]);
}

#[test]
fn tasks_move_through_states() {
    let mut t = Task::new("build".into());
    assert!(is_uuid(&t.id));
    assert_eq!(t.status, TaskStatus::Planning);
    assert!(!t.is_terminal());
    let s1 = TaskStep::new("one".into(), AgentRole::Coding);
    let s2 = TaskStep::new("two".into(), AgentRole::Testing);
    let id2 = s2.id.clone();
    t.start(vec![s1, s2], 10);
    assert_eq!(t.status, TaskStatus::InProgress);
    assert_eq!(t.step_ids().len(), 2);
    t.set_step_status(&id2, TaskStatus::Completed, 11);
    assert_eq!(t.find_step(&id2).unwrap().status, TaskStatus::Completed);
    assert_eq!(t.updated_at, 11);
    t.set_step_outcome(&id2, Some("ok".into()), None, 12);
    assert_eq!(t.find_step(&id2).unwrap().result.as_deref(), Some("ok"));
    t.set_step_status("missing", TaskStatus::Failed, 13);
    assert_eq!(t.updated_at, 13);
    t.cancel(14);
    assert!(t.is_terminal());
}

#[test]
fn task_store_keeps_newest_first() {
    let mut store = TaskStore::new();
    let mut a = Task::new("a".into());
    a.created_at = 5;
    let mut b = Task::new("b".into());
    b.created_at = 9;
    let mut c = Task::new("c".into());
    c.created_at = 7;
    let (ia, ib) = (a.id.clone(), b.id.clone());
    store.upsert(a);
    store.upsert(b);
    store.upsert(c);
    let order: Vec<i64> = store.list().iter().map(|t| t.created_at).collect();
    assert_eq!(order, vec![9, 7, 5]);
    assert_eq!(store.get(&ia).unwrap().description, "a");
    let removed = store.remove(&ib).unwrap();
    assert_eq!(removed.description, "b");
    assert!(store.get(&ib).is_none());
    assert_eq!(store.list().len(), 2);
    match store.cancel_task("nope", 1) {
        Err(AgentError::InvalidState(m)) => assert_eq!(m, "Task nope not found"),
        other => panic!("unexpected {:?}", other),
    }
    assert!(store.cancel_task(&ia, 20).is_ok());
    assert!(store.is_terminal(&ia));
    assert!(!store.is_terminal("nope"));
}

#[test]
fn step_outcomes_reach_the_task_and_the_context() {
    let mut store = TaskStore::new();
    let t = Task::new("t".into());
    let tid = t.id.clone();
    store.upsert(t);
    let s1 = TaskStep::new("one".into(), AgentRole::Coding);
    let s2 = TaskStep::new("two".into(), AgentRole::Testing);
    let (id1, id2) = (s1.id.clone(), s2.id.clone());
    store.start_task(&tid, vec![s1, s2], 1);
    let mut ctx = TaskState::new();
    let r = record_step_outcome(&mut store, &mut ctx, &tid, &id1, Ok("out \"q\"".into()), 2);
    assert_eq!(r, Ok("out \"q\"".to_string()));
    let key = format!("step_{}", id1);
    assert_eq!(ctx.get(&key).map(|v| v.as_str()), Some("\"out \\\"q\\\"\""));
    let task = store.get(&tid).unwrap();
    let step = task.find_step(&id1).unwrap();
    assert_eq!(step.status, TaskStatus::Completed);
    assert_eq!(step.result.as_deref(), Some("out \"q\""));
    assert_eq!(task.status, TaskStatus::InProgress);

    let r = record_step_outcome(&mut store, &mut ctx, &tid, &id2, Err(AgentError::ToolFailed("disk".into())), 3);
    assert_eq!(r, Err("Tool execution failed: disk".to_string()));
    let task = store.get(&tid).unwrap();
    let step = task.find_step(&id2).unwrap();
    assert_eq!(step.status, TaskStatus::Failed);
    assert_eq!(step.error.as_deref(), Some("Tool execution failed: disk"));
    assert_eq!(task.status, TaskStatus::Failed);
    assert_eq!(ctx.len(), 1);
    store.complete_task(&tid, 4);
    assert_eq!(store.get(&tid).unwrap().status, TaskStatus::Completed);
}

#[test]
fn plan_items_must_be_json_values() {
    match plan_steps("[{\"description\": \"a\", \"n\": 1e400}]") {
        Err(AgentError::PlanningFailed(m)) => assert!(m.starts_with("Failed to parse plan: number out of range"), "{}", m),
        other => panic!("unexpected {:?}", other.map(|s| s.len())),
    }
    let steps = plan_steps("[{\"description\": \"a\", \"n\": 1e300, \"role\": \"wiki\"}]").unwrap();
    assert_eq!(steps.len(), 1);
    assert_eq!(steps[0].description, "a");
    assert_eq!(steps[0].assigned_to, AgentRole::Wiki);
}
