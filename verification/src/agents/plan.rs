//! Planning: the planner model is asked for a JSON array of steps, each with
//! a description and a role; its reply becomes the task's steps.
use vstd::prelude::*;
use crate::agents::error::AgentError;
use crate::agents::task::{role_label, AgentRole, TaskStatus, TaskStep};
use crate::ids::is_uuid_text;
use crate::json::{json_value_array, value_items};
use crate::text::{chars_of, push_str, starts_with, string_of, trim, trim_bounds};
use crate::tool_parser::{string_member, string_member_of};
use crate::traits::prefixed;

verus! {

broadcast use vstd::seq_lib::group_seq_properties;

pub open spec fn fence() -> Seq<char> {
    seq!['`', '`', '`']
}

pub open spec fn json_tag() -> Seq<char> {
    seq!['j', 's', 'o', 'n', '\n']
}

pub open spec fn ends_with(s: Seq<char>, p: Seq<char>) -> bool {
    p.len() <= s.len() && s.subrange(s.len() - p.len(), s.len() as int) == p
}

/// `s` with every trailing copy of `p` removed (what `str::trim_end_matches`
/// does with a string pattern).
pub open spec fn trim_end_matches(s: Seq<char>, p: Seq<char>) -> Seq<char>
    decreases s.len(),
{
    if p.len() > 0 && ends_with(s, p) {
        trim_end_matches(s.subrange(0, s.len() - p.len()), p)
    } else {
        s
    }
}

/// The JSON text of a planner reply: the trimmed reply, or, when it opens a
/// code fence, what lies inside the fence (after an optional `json` tag line,
/// before any closing fences), trimmed.
pub open spec fn plan_json(content: Seq<char>) -> Seq<char> {
    let t = trim(content);
    if starts_with(t, fence()) {
        let inner = t.skip(3);
        let body = if starts_with(inner, json_tag()) { inner.skip(5) } else { inner };
        trim(trim_end_matches(body, fence()))
    } else {
        t
    }
}

/// The instructions the planner model gets, ending with the task.
pub open spec fn planning_intro() -> Seq<char> {
    "You are a task planning agent. Given a high-level task description, decompose it into concrete, actionable steps.\n\nFor each step, specify:\n- description: what needs to be done\n- role: which agent should do it (coding, architecture, testing, debugging, github, wiki)\n\nRespond with ONLY a JSON array of steps:\n[\n  {\"description\": \"...\", \"role\": \"architecture\"},\n  {\"description\": \"...\", \"role\": \"coding\"},\n  {\"description\": \"...\", \"role\": \"testing\"}\n]\n\nAvailable roles: coding, architecture, testing, debugging, github, wiki\n\nTask: "@
}

/// The system message of a planning request.
pub open spec fn planner_system() -> Seq<char> {
    "You are a task planning agent. Respond with only valid JSON."@
}

/// The user message of a planning request: the instructions, then the task.
pub fn planning_prompt(description: &str) -> (r: String)
    ensures
        r@ == planning_intro() + description@,
{
    let mut out = String::new();
    push_str(&mut out, "You are a task planning agent. Given a high-level task description, decompose it into concrete, actionable steps.\n\nFor each step, specify:\n- description: what needs to be done\n- role: which agent should do it (coding, architecture, testing, debugging, github, wiki)\n\nRespond with ONLY a JSON array of steps:\n[\n  {\"description\": \"...\", \"role\": \"architecture\"},\n  {\"description\": \"...\", \"role\": \"coding\"},\n  {\"description\": \"...\", \"role\": \"testing\"}\n]\n\nAvailable roles: coding, architecture, testing, debugging, github, wiki\n\nTask: ");
    push_str(&mut out, description);
    out
}

/// The system message of a planning request.
pub fn planner_system_message() -> (r: &'static str)
    ensures
        r@ == planner_system(),
{
    "You are a task planning agent. Respond with only valid JSON."
}

/// The role a step names; anything unknown goes to the coding agent.
pub open spec fn role_named(name: Seq<char>) -> AgentRole {
    if name == "architecture"@ {
        AgentRole::Architecture
    } else if name == "testing"@ {
        AgentRole::Testing
    } else if name == "debugging"@ {
        AgentRole::Debugging
    } else if name == "github"@ {
        AgentRole::GitHub
    } else if name == "wiki"@ {
        AgentRole::Wiki
    } else {
        AgentRole::Coding
    }
}

/// Every role is found again by its own name: the planner's role names
/// each send a step to the agent of that role.
pub proof fn law_role_names_round_trip(r: AgentRole)
    ensures
        role_named(role_label(r)) == r,
{
    reveal_strlit("coding");
    reveal_strlit("architecture");
    reveal_strlit("testing");
    reveal_strlit("debugging");
    reveal_strlit("github");
    reveal_strlit("wiki");
    assert("coding"@ =~= seq!['c', 'o', 'd', 'i', 'n', 'g']);
    assert("architecture"@ =~= seq!['a', 'r', 'c', 'h', 'i', 't', 'e', 'c', 't', 'u', 'r', 'e']);
    assert("testing"@ =~= seq!['t', 'e', 's', 't', 'i', 'n', 'g']);
    assert("debugging"@ =~= seq!['d', 'e', 'b', 'u', 'g', 'g', 'i', 'n', 'g']);
    assert("github"@ =~= seq!['g', 'i', 't', 'h', 'u', 'b']);
    assert("wiki"@ =~= seq!['w', 'i', 'k', 'i']);
}

/// Only a role's own name sends a step to that role; any other name (an
/// unknown one included) goes to the coding agent.
pub proof fn law_only_its_name_picks_a_role(name: Seq<char>, r: AgentRole)
    requires
        r != AgentRole::Coding,
    ensures
        role_named(name) == r <==> name == role_label(r),
        name != role_label(AgentRole::Architecture) && name != role_label(AgentRole::Testing)
            && name != role_label(AgentRole::Debugging) && name != role_label(AgentRole::GitHub)
            && name != role_label(AgentRole::Wiki) ==> role_named(name) == AgentRole::Coding,
{
    law_role_names_round_trip(r);
}

/// The description and role of one planned item.
pub open spec fn planned_step(item: Seq<char>) -> (Seq<char>, AgentRole) {
    (
        match string_member(item, "description"@) { Some(d) => d, None => "unnamed step"@ },
        match string_member(item, "role"@) { Some(r) => role_named(r), None => AgentRole::Coding },
    )
}

/// What a planner reply yields: the planned (description, role) pairs, one
/// per JSON value of the array, or the message of the planning error.
pub open spec fn plan_outcome(content: Seq<char>) -> Result<Seq<(Seq<char>, AgentRole)>, Seq<char>> {
    match json_value_array(plan_json(content)) {
        Err(e) => Err("Failed to parse plan: "@ + e),
        Ok(items) => Ok(items.map_values(|it: Seq<char>| planned_step(it))),
    }
}

/// `ends_with` on `cs[from..to]`, for the three-backtick fence.
fn ends_with_fence(cs: &Vec<char>, from: usize, to: usize) -> (r: bool)
    requires
        from <= to <= cs.len(),
    ensures
        r == ends_with(cs@.subrange(from as int, to as int), fence()),
{
    let ghost x = cs@.subrange(from as int, to as int);
    if to - from < 3 {
        return false;
    }
    let r = cs[to - 3] == '`' && cs[to - 2] == '`' && cs[to - 1] == '`';
    assert(x.subrange(x.len() - 3, x.len() as int) == cs@.subrange(to - 3, to as int));
    if r {
        assert(cs@.subrange(to - 3, to as int) =~= fence());
    } else {
        assert(cs@.subrange(to - 3, to as int) != fence()) by {
            if cs@.subrange(to - 3, to as int) == fence() {
                assert(cs@.subrange(to - 3, to as int)[0] == cs@[to - 3]);
                assert(cs@.subrange(to - 3, to as int)[1] == cs@[to - 2]);
                assert(cs@.subrange(to - 3, to as int)[2] == cs@[to - 1]);
            }
        }
    }
    r
}

/// `starts_with` on `cs[from..to]` for a pattern given by its characters.
fn starts_with_at(cs: &Vec<char>, from: usize, to: usize, p: &Vec<char>) -> (r: bool)
    requires
        from <= to <= cs.len(),
    ensures
        r == starts_with(cs@.subrange(from as int, to as int), p@),
{
    let ghost x = cs@.subrange(from as int, to as int);
    if p.len() > to - from {
        return false;
    }
    let mut k: usize = 0;
    while k < p.len()
        invariant
            from + p.len() <= to <= cs.len(),
            x == cs@.subrange(from as int, to as int),
            k <= p.len(),
            forall|j: int| 0 <= j < k ==> cs@[from + j] == p@[j],
        decreases p.len() - k,
    {
        if cs[from + k] != p[k] {
            assert(x.subrange(0, p.len() as int)[k as int] == cs@[from + k]);
            return false;
        }
        k = k + 1;
    }
    assert(x.subrange(0, p.len() as int) =~= p@);
    true
}

/// The JSON text of a planner reply (`plan_json`).
pub fn plan_json_text(content: &str) -> (r: String)
    ensures
        r@ == plan_json(content@),
{
    let cs = chars_of(content);
    let (a, b) = trim_bounds(&cs, 0, cs.len());
    assert(cs@.subrange(0, cs.len() as int) =~= content@);
    let ghost t = cs@.subrange(a as int, b as int);
    let fence_cs = vec!['`', '`', '`'];
    assert(fence_cs@ =~= fence());
    if !starts_with_at(&cs, a, b, &fence_cs) {
        return string_of(&cs, a, b);
    }
    let mut from = a + 3;
    assert(cs@.subrange(from as int, b as int) =~= t.skip(3));
    let tag = vec!['j', 's', 'o', 'n', '\n'];
    assert(tag@ =~= json_tag());
    if starts_with_at(&cs, from, b, &tag) {
        from = from + 5;
        assert(cs@.subrange(from as int, b as int) =~= t.skip(3).skip(5));
    }
    let ghost body = cs@.subrange(from as int, b as int);
    let mut to = b;
    while ends_with_fence(&cs, from, to)
        invariant
            from <= to <= b <= cs.len(),
            trim_end_matches(body, fence()) == trim_end_matches(cs@.subrange(from as int, to as int), fence()),
        decreases to - from,
    {
        assert(cs@.subrange(from as int, to as int).subrange(0, to - from - 3) =~= cs@.subrange(from as int, to - 3));
        to = to - 3;
    }
    let (c, d) = trim_bounds(&cs, from, to);
    string_of(&cs, c, d)
}

fn role_of(name: &str) -> (r: AgentRole)
    ensures
        r == role_named(name@),
{
    let n = String::from_str(name);
    if n == String::from_str("architecture") {
        AgentRole::Architecture
    } else if n == String::from_str("testing") {
        AgentRole::Testing
    } else if n == String::from_str("debugging") {
        AgentRole::Debugging
    } else if n == String::from_str("github") {
        AgentRole::GitHub
    } else if n == String::from_str("wiki") {
        AgentRole::Wiki
    } else {
        AgentRole::Coding
    }
}

/// One planned item's description and role.
fn planned_step_exec(item: &str) -> (r: (String, AgentRole))
    ensures
        (r.0@, r.1) == planned_step(item@),
{
    let description = match string_member_of(item, "description") {
        Some(d) => d,
        None => String::from_str("unnamed step"),
    };
    let role = match string_member_of(item, "role") {
        Some(r) => role_of(r.as_str()),
        None => AgentRole::Coding,
    };
    (description, role)
}

/// Turns a planner reply into fresh steps, one per planned item and in the
/// same order, each still to be started under a new id. A reply whose JSON
/// text is not an array of JSON values fails planning with the parser's
/// message.
pub fn plan_steps(content: &str) -> (r: Result<Vec<TaskStep>, AgentError>)
    ensures
        match plan_outcome(content@) {
            Ok(planned) => r matches Ok(steps) && steps@.len() == planned.len()
                && forall|i: int| 0 <= i < steps@.len() ==> {
                    &&& (#[trigger] steps@[i]).description@ == planned[i].0
                    &&& steps@[i].assigned_to == planned[i].1
                    &&& is_uuid_text(steps@[i].id@)
                    &&& steps@[i].status == TaskStatus::Planning
                    &&& steps@[i].result is None
                    &&& steps@[i].error is None
                },
            Err(msg) => r matches Err(AgentError::PlanningFailed(m)) && m@ == msg,
        },
{
    let json = plan_json_text(content);
    let items = match value_items(json.as_str()) {
        Ok(v) => v,
        Err(e) => return Err(AgentError::PlanningFailed(prefixed("Failed to parse plan: ", e.as_str()))),
    };
    let ghost its = crate::json::texts(items@);
    let ghost planned = its.map_values(|it: Seq<char>| planned_step(it));
    let mut steps: Vec<TaskStep> = Vec::new();
    let mut i: usize = 0;
    while i < items.len()
        invariant
            i <= items.len(),
            its == crate::json::texts(items@),
            planned == its.map_values(|it: Seq<char>| planned_step(it)),
            steps@.len() == i,
            forall|k: int| 0 <= k < i ==> {
                &&& (#[trigger] steps@[k]).description@ == planned[k].0
                &&& steps@[k].assigned_to == planned[k].1
                &&& is_uuid_text(steps@[k].id@)
                &&& steps@[k].status == TaskStatus::Planning
                &&& steps@[k].result is None
                &&& steps@[k].error is None
            },
        decreases items.len() - i,
    {
        let (description, role) = planned_step_exec(items[i].as_str());
        assert(its[i as int] == items@[i as int]@);
        let step = TaskStep::new(description, role);
        steps.push(step);
        i = i + 1;
    }
    Ok(steps)
}

/// Plans from the first choice's text: with no text there is nothing to
/// plan, and planning fails with "Empty LLM response".
pub fn plan_from_reply(content: Option<&str>) -> (r: Result<Vec<TaskStep>, AgentError>)
    ensures
        content is None ==> (r matches Err(AgentError::PlanningFailed(m)) && m@ == "Empty LLM response"@),
        content matches Some(c) ==> match plan_outcome(c@) {
            Ok(planned) => r matches Ok(steps) && steps@.len() == planned.len()
                && forall|i: int| 0 <= i < steps@.len() ==> {
                    &&& (#[trigger] steps@[i]).description@ == planned[i].0
                    &&& steps@[i].assigned_to == planned[i].1
                    &&& is_uuid_text(steps@[i].id@)
                    &&& steps@[i].status == TaskStatus::Planning
                },
            Err(msg) => r matches Err(AgentError::PlanningFailed(m)) && m@ == msg,
        },
{
    match content {
        None => Err(AgentError::PlanningFailed(String::from_str("Empty LLM response"))),
        Some(c) => plan_steps(c),
    }
}

} // verus!
