//! What every agent shares: its configuration, the roles' names, tools and
//! prompts, and the decisions of the agentic loop (ask the model, run the
//! tools it calls, feed the results back, until it answers in plain text).
//! The loop itself, which awaits the model and the tools, runs outside the
//! library and asks these functions what to do next.
use vstd::prelude::*;
use crate::agents::error::AgentError;
use crate::agents::state::TaskState;
use crate::agents::task::AgentRole;
use crate::rules::filter::strings;
use crate::rules::prompt::{join, push_join};
use crate::shared::ToolCall;
use crate::text::push_str;
use crate::traits::{tool_error_text, ToolError, ToolResult};

verus! {

broadcast use vstd::seq_lib::group_seq_properties;

/// Configuration for an agent instance.
#[derive(Debug, Clone)]
pub struct AgentConfig {
    /// System prompt that defines the agent's behavior.
    pub system_prompt: String,
    /// Maximum LLM turns before the agent gives up.
    pub max_turns: usize,
    /// Maximum retries on transient errors.
    pub max_retries: usize,
    /// Timeout per step in seconds.
    pub step_timeout_secs: u64,
    /// The tools the agent's requests may offer.
    pub tool_filter: Vec<String>,
}

impl Default for AgentConfig {
    fn default() -> (r: Self)
        ensures
            r.system_prompt@.len() == 0,
            r.max_turns == 20,
            r.max_retries == 3,
            r.step_timeout_secs == 300,
            r.tool_filter@.len() == 0,
    {
        AgentConfig {
            system_prompt: String::new(),
            max_turns: 20,
            max_retries: 3,
            step_timeout_secs: 300,
            tool_filter: Vec::new(),
        }
    }
}

// ── The roles ──────────────────────────────────────────────────────────

pub open spec fn role_agent_name(role: AgentRole) -> Seq<char> {
    match role {
        AgentRole::Coding => "CodingAgent"@,
        AgentRole::Architecture => "ArchitectureAgent"@,
        AgentRole::Testing => "TestingAgent"@,
        AgentRole::Debugging => "DebuggingAgent"@,
        AgentRole::GitHub => "GitHubAgent"@,
        AgentRole::Wiki => "WikiAgent"@,
    }
}

/// The name the agent of a role goes by.
pub fn agent_name(role: AgentRole) -> (r: &'static str)
    ensures
        r@ == role_agent_name(role),
{
    match role {
        AgentRole::Coding => "CodingAgent",
        AgentRole::Architecture => "ArchitectureAgent",
        AgentRole::Testing => "TestingAgent",
        AgentRole::Debugging => "DebuggingAgent",
        AgentRole::GitHub => "GitHubAgent",
        AgentRole::Wiki => "WikiAgent",
    }
}

/// The tools the agent of a role may use, in the order it lists them.
pub open spec fn role_tools(role: AgentRole) -> Seq<Seq<char>> {
    match role {
        AgentRole::Coding | AgentRole::Debugging => seq![
            "read_file"@, "write_file"@, "edit_file"@, "list_dir"@,
            "run_command"@, "grep_code"@, "git_status"@, "git_diff"@,
        ],
        AgentRole::Architecture => seq!["read_file"@, "list_dir"@, "grep_code"@],
        AgentRole::Testing => seq![
            "read_file"@, "write_file"@, "edit_file"@, "list_dir"@, "run_command"@, "grep_code"@,
        ],
        AgentRole::GitHub => seq!["read_file"@, "list_dir"@, "run_command"@, "git_status"@, "git_diff"@],
        AgentRole::Wiki => seq!["read_file"@, "write_file"@, "edit_file"@, "list_dir"@, "grep_code"@],
    }
}

fn s(text: &str) -> (r: String)
    ensures
        r@ == text@,
{
    String::from_str(text)
}

/// Tool names this agent is allowed to use.
pub fn available_tools(role: AgentRole) -> (r: Vec<String>)
    ensures
        strings(r@) == role_tools(role),
{
    let r = match role {
        AgentRole::Coding | AgentRole::Debugging => vec![
            s("read_file"), s("write_file"), s("edit_file"), s("list_dir"),
            s("run_command"), s("grep_code"), s("git_status"), s("git_diff"),
        ],
        AgentRole::Architecture => vec![s("read_file"), s("list_dir"), s("grep_code")],
        AgentRole::Testing => vec![
            s("read_file"), s("write_file"), s("edit_file"), s("list_dir"), s("run_command"), s("grep_code"),
        ],
        AgentRole::GitHub => vec![s("read_file"), s("list_dir"), s("run_command"), s("git_status"), s("git_diff")],
        AgentRole::Wiki => vec![s("read_file"), s("write_file"), s("edit_file"), s("list_dir"), s("grep_code")],
    };
    assert(strings(r@) =~= role_tools(role));
    r
}

/// The names among `offered` (in their order) that `allowed` lists.
pub open spec fn listed_only(offered: Seq<Seq<char>>, allowed: Seq<Seq<char>>) -> Seq<Seq<char>> {
    offered.filter(|n: Seq<char>| allowed.contains(n))
}

/// The tools of a registry that an agent may offer in its requests: those of
/// `registry_names` (in the registry's order) that `allowed` lists.
pub fn offered_tools(registry_names: &Vec<String>, allowed: &Vec<String>) -> (r: Vec<String>)
    ensures
        strings(r@) == listed_only(strings(registry_names@), strings(allowed@)),
{
    let ghost reg = strings(registry_names@);
    let ghost al = strings(allowed@);
    let mut out: Vec<String> = Vec::new();
    let mut i: usize = 0;
    while i < registry_names.len()
        invariant
            i <= registry_names.len(),
            reg == strings(registry_names@),
            al == strings(allowed@),
            strings(out@) == listed_only(reg.take(i as int), al),
        decreases registry_names.len() - i,
    {
        let mut found = false;
        let mut j: usize = 0;
        while j < allowed.len()
            invariant
                j <= allowed.len(),
                i < registry_names.len(),
                al == strings(allowed@),
                found <==> exists|k: int| 0 <= k < j && al[k] == registry_names@[i as int]@,
            decreases allowed.len() - j,
        {
            let eq = allowed[j] == registry_names[i];
            proof {
                assert(al[j as int] == allowed@[j as int]@);
                if eq {
                    assert(0 <= j < j + 1 && al[j as int] == registry_names@[i as int]@);
                }
            }
            if eq {
                found = true;
            }
            j = j + 1;
        }
        proof {
            assert(reg.take(i + 1).drop_last() =~= reg.take(i as int));
            assert(reg.take(i + 1).last() == reg[i as int]);
            assert(reg[i as int] == registry_names@[i as int]@);
            reveal(Seq::filter);
            assert(listed_only(reg.take(i + 1), al) == if al.contains(reg[i as int]) {
                listed_only(reg.take(i as int), al).push(reg[i as int])
            } else {
                listed_only(reg.take(i as int), al)
            });
            if found {
                let k = choose|k: int| 0 <= k < allowed.len() && al[k] == registry_names@[i as int]@;
                assert(al.contains(reg[i as int])) by { assert(al[k] == reg[i as int]); }
            } else {
                assert(!al.contains(reg[i as int]));
            }
        }
        if found {
            out.push(registry_names[i].clone());
            assert(strings(out@) =~= strings(out@).drop_last().push(reg[i as int]));
        }
        i = i + 1;
    }
    assert(reg.take(i as int) =~= reg);
    out
}

// ── Prompts and configurations ─────────────────────────────────────────

pub open spec fn coding_prompt() -> Seq<char> {
    "You are an expert coding agent. You write clean, correct Rust code. You use the available tools to read files, write code, run commands, and verify your work. Always explain what you're doing briefly before taking action. If you encounter errors, debug and fix them."@
}

pub open spec fn debugging_prompt() -> Seq<char> {
    "You are an expert debugging agent. You investigate failures methodically: reproduce the issue, read error messages and stack traces, examine relevant source code, check git history for recent changes, and propose targeted fixes. You use git_diff and git_status to understand what changed. Always verify your fix by running the failing test or command after applying changes."@
}

pub open spec fn testing_prompt() -> Seq<char> {
    "You are an expert testing agent. You write comprehensive, correct tests for Rust code. You use the available tools to read source code, write test files, and run `cargo test` to verify everything passes. Focus on: unit tests, integration tests, edge cases, error paths, and property-based testing where appropriate. Always run tests after writing them and fix any failures."@
}

pub open spec fn debugging_filter() -> Seq<Seq<char>> {
    seq![
        "read_file"@, "write_file"@, "edit_file"@, "apply_patch"@, "list_dir"@, "run_command"@,
        "grep_code"@, "git_status"@, "git_diff"@, "git_log"@, "git_show"@,
    ]
}

pub open spec fn testing_filter() -> Seq<Seq<char>> {
    seq!["read_file"@, "write_file"@, "edit_file"@, "list_dir"@, "run_command"@, "grep_code"@]
}

/// The system prompt an agent sends: the configured one, or the coding
/// agent's own when none is configured.
pub fn system_prompt(config: &AgentConfig) -> (r: String)
    ensures
        r@ == (if config.system_prompt@.len() == 0 { coding_prompt() } else { config.system_prompt@ }),
{
    if config.system_prompt.as_str().is_empty() {
        s("You are an expert coding agent. You write clean, correct Rust code. You use the available tools to read files, write code, run commands, and verify your work. Always explain what you're doing briefly before taking action. If you encounter errors, debug and fix them.")
    } else {
        config.system_prompt.clone()
    }
}

/// The configuration a debugging agent runs with: its own prompt and tool
/// filter over the given limits.
pub fn debugging_config(config: AgentConfig) -> (r: AgentConfig)
    ensures
        r.system_prompt@ == debugging_prompt(),
        strings(r.tool_filter@) == debugging_filter(),
        r.max_turns == config.max_turns,
        r.max_retries == config.max_retries,
        r.step_timeout_secs == config.step_timeout_secs,
{
    let mut c = config;
    c.system_prompt = s("You are an expert debugging agent. You investigate failures methodically: reproduce the issue, read error messages and stack traces, examine relevant source code, check git history for recent changes, and propose targeted fixes. You use git_diff and git_status to understand what changed. Always verify your fix by running the failing test or command after applying changes.");
    c.tool_filter = vec![
        s("read_file"), s("write_file"), s("edit_file"), s("apply_patch"), s("list_dir"), s("run_command"),
        s("grep_code"), s("git_status"), s("git_diff"), s("git_log"), s("git_show"),
    ];
    assert(strings(c.tool_filter@) =~= debugging_filter());
    c
}

/// The configuration a testing agent runs with: its own prompt and tool
/// filter over the given limits.
pub fn testing_config(config: AgentConfig) -> (r: AgentConfig)
    ensures
        r.system_prompt@ == testing_prompt(),
        strings(r.tool_filter@) == testing_filter(),
        r.max_turns == config.max_turns,
        r.max_retries == config.max_retries,
        r.step_timeout_secs == config.step_timeout_secs,
{
    let mut c = config;
    c.system_prompt = s("You are an expert testing agent. You write comprehensive, correct tests for Rust code. You use the available tools to read source code, write test files, and run `cargo test` to verify everything passes. Focus on: unit tests, integration tests, edge cases, error paths, and property-based testing where appropriate. Always run tests after writing them and fix any failures.");
    c.tool_filter = vec![
        s("read_file"), s("write_file"), s("edit_file"), s("list_dir"), s("run_command"), s("grep_code"),
    ];
    assert(strings(c.tool_filter@) =~= testing_filter());
    c
}

// ── The first message of a step ────────────────────────────────────────

pub open spec fn context_lines(entries: Seq<(Seq<char>, Seq<char>)>) -> Seq<Seq<char>> {
    entries.map_values(|e: (Seq<char>, Seq<char>)| e.0 + ": "@ + e.1)
}

/// The user message that opens a step: the step's description, then the
/// task context one `key: value` line per entry, when there is any.
pub open spec fn step_prompt_text(description: Seq<char>, entries: Seq<(Seq<char>, Seq<char>)>) -> Seq<char> {
    "Complete this step:\n\n"@ + description + if entries.len() == 0 {
        Seq::<char>::empty()
    } else {
        "\n\nTask context:\n"@ + join(context_lines(entries), "\n"@)
    }
}

pub fn step_prompt(description: &str, ctx: &TaskState) -> (r: String)
    ensures
        r@ == step_prompt_text(description@, ctx@),
{
    let mut out = String::new();
    push_str(&mut out, "Complete this step:\n\n");
    push_str(&mut out, description);
    if !ctx.is_empty() {
        let mut lines: Vec<String> = Vec::new();
        let mut i: usize = 0;
        while i < ctx.len()
            invariant
                i <= ctx@.len(),
                lines@.len() == i,
                strings(lines@) == context_lines(ctx@.take(i as int)),
            decreases ctx@.len() - i,
        {
            let (k, v) = ctx.entry_at(i);
            let mut line = String::new();
            push_str(&mut line, k.as_str());
            push_str(&mut line, ": ");
            push_str(&mut line, v.as_str());
            let ghost before = lines@;
            lines.push(line);
            proof {
                assert(ctx@.take(i + 1)[i as int] == ctx@[i as int]);
                assert forall|j: int| 0 <= j < i implies #[trigger] ctx@.take(i + 1)[j] == ctx@.take(i as int)[j] by {}
                assert(strings(lines@) =~= context_lines(ctx@.take(i + 1))) by {
                    assert forall|j: int| 0 <= j < i + 1 implies strings(lines@)[j] == context_lines(ctx@.take(i + 1))[j] by {
                        if j < i {
                            assert(lines@[j] == before[j]);
                            assert(strings(before)[j] == context_lines(ctx@.take(i as int))[j]);
                        }
                    }
                }
            }
            i = i + 1;
        }
        assert(ctx@.take(i as int) =~= ctx@);
        push_str(&mut out, "\n\nTask context:\n");
        push_join(&mut out, &lines, "\n");
        assert(strings(lines@) == lines@.map_values(|p: String| p@));
    }
    proof {
        if ctx@.len() == 0 {
            assert(out@ =~= step_prompt_text(description@, ctx@));
        }
    }
    out
}

// ── The loop's decisions ───────────────────────────────────────────────

/// The text a tool's outcome is fed back to the model with.
pub open spec fn tool_outcome_text(outcome: Result<ToolResult, ToolError>) -> Seq<char> {
    match outcome {
        Ok(ToolResult::Text(t)) => t@,
        Ok(ToolResult::Diff { old, new, path }) =>
            "Diff for "@ + path@ + ":\n--- old\n"@ + old@ + "\n+++ new\n"@ + new@,
        Ok(ToolResult::Error { message, recoverable }) => "Error: "@ + message@,
        Err(e) => "Tool execution error: "@ + tool_error_text(e),
    }
}

pub fn tool_outcome(outcome: &Result<ToolResult, ToolError>) -> (r: String)
    ensures
        r@ == tool_outcome_text(*outcome),
{
    let mut out = String::new();
    match outcome {
        Ok(ToolResult::Text(t)) => push_str(&mut out, t.as_str()),
        Ok(ToolResult::Diff { old, new, path }) => {
            push_str(&mut out, "Diff for ");
            push_str(&mut out, path.as_str());
            push_str(&mut out, ":\n--- old\n");
            push_str(&mut out, old.as_str());
            push_str(&mut out, "\n+++ new\n");
            push_str(&mut out, new.as_str());
        },
        Ok(ToolResult::Error { message, .. }) => {
            push_str(&mut out, "Error: ");
            push_str(&mut out, message.as_str());
        },
        Err(e) => {
            push_str(&mut out, "Tool execution error: ");
            let t = e.display_text();
            push_str(&mut out, t.as_str());
        },
    }
    out
}

/// What the model answered on one turn: its text, if any, and the tool calls
/// it made.
#[derive(Debug, Clone)]
pub struct AgentReply {
    pub content: Option<String>,
    pub tool_calls: Vec<ToolCall>,
}

/// What the loop does after a turn.
#[derive(Debug)]
pub enum TurnOutcome {
    /// Run these calls, add their results to the conversation, and ask again.
    RunTools(Vec<ToolCall>),
    /// The step is over, with this result.
    Done(Result<String, AgentError>),
}

/// Whether another turn may start after `turns_done` turns; when none may,
/// the step times out with the configured timeout.
pub fn turn_allowed(config: &AgentConfig, turns_done: usize) -> (r: Result<(), AgentError>)
    ensures
        r is Ok <==> turns_done < config.max_turns,
        r matches Err(e) ==> e == AgentError::Timeout(config.step_timeout_secs),
{
    if turns_done < config.max_turns {
        Ok(())
    } else {
        Err(AgentError::Timeout(config.step_timeout_secs))
    }
}

/// Reads one turn's reply: the target's error text, no choice at all, tool
/// calls to run, or the final text (a missing text standing for "No response
/// from LLM").
pub fn read_reply(reply: Result<Option<AgentReply>, String>) -> (r: TurnOutcome)
    ensures
        match reply {
            Err(e) => r matches TurnOutcome::Done(Err(AgentError::LlmFailed(m))) && m@ == e@,
            Ok(None) => r matches TurnOutcome::Done(Err(AgentError::LlmFailed(m))) && m@ == "No choices in response"@,
            Ok(Some(a)) => if a.tool_calls@.len() > 0 {
                r matches TurnOutcome::RunTools(calls) && calls@ == a.tool_calls@
            } else {
                r matches TurnOutcome::Done(Ok(text)) && text@ == (match a.content {
                    Some(c) => c@,
                    None => "No response from LLM"@,
                })
            },
        },
{
    match reply {
        Err(e) => TurnOutcome::Done(Err(AgentError::LlmFailed(e))),
        Ok(None) => TurnOutcome::Done(Err(AgentError::LlmFailed(s("No choices in response")))),
        Ok(Some(a)) => {
            if a.tool_calls.len() > 0 {
                TurnOutcome::RunTools(a.tool_calls)
            } else {
                match a.content {
                    Some(c) => TurnOutcome::Done(Ok(c)),
                    None => TurnOutcome::Done(Ok(s("No response from LLM"))),
                }
            }
        },
    }
}

} // verus!
