//! What the HTTP handlers read out of JSON request bodies: the rule updates of
//! `PUT /config`, the model of a new session, the branch point of a fork and
//! the description of an agent task.
use vstd::prelude::*;
use crate::cdp::events::{member_of, member_text};
use crate::json::{array_items, json_array_parse, json_string_value, json_u64_value, string_value, texts, u64_value};
use crate::rules::config::ChatApiConfig;
use crate::shared::ChatApiError;
use crate::tool_parser::{string_member, string_member_of};
use crate::text::push_str;
use crate::traits::prefixed;

verus! {

/// The decoded strings among the elements of an array, in order; the other
/// elements are skipped.
pub open spec fn string_items(items: Seq<Seq<char>>) -> Seq<Seq<char>>
    decreases items.len(),
{
    if items.len() == 0 {
        Seq::empty()
    } else {
        let rest = string_items(items.drop_last());
        match json_string_value(items.last()) {
            Some(s) => rest.push(s),
            None => rest,
        }
    }
}

/// The strings of a JSON array text (`None` when the text is not an array).
pub open spec fn string_array(text: Seq<char>) -> Option<Seq<Seq<char>>> {
    match json_array_parse(text) {
        Ok(items) => Some(string_items(items)),
        Err(_) => None,
    }
}

pub fn string_array_of(text: &str) -> (r: Option<Vec<String>>)
    ensures
        r matches Some(v) ==> string_array(text@) == Some(texts(v@)),
        r is None ==> string_array(text@) is None,
{
    match array_items(text) {
        Err(_) => None,
        Ok(items) => {
            let ghost all = texts(items@);
            let mut out: Vec<String> = Vec::new();
            let mut i: usize = 0;
            while i < items.len()
                invariant
                    all == texts(items@),
                    i <= items.len(),
                    texts(out@) == string_items(all.take(i as int)),
                decreases items.len() - i,
            {
                proof {
                    assert(all.take(i + 1).drop_last() == all.take(i as int));
                    assert(all.take(i + 1).last() == items@[i as int]@);
                }
                let item = string_value(items[i].as_str());
                match item {
                    Some(s) => {
                        let ghost before = out@;
                        out.push(s);
                        proof {
                            assert(texts(out@) == texts(before).push(s@));
                        }
                    },
                    None => {},
                }
                i = i + 1;
            }
            proof {
                assert(all.take(items.len() as int) == all);
            }
            Some(out)
        },
    }
}

// ── PUT /config ────────────────────────────────────────────────────────

/// The member `key` of the `rules` object of an update body.
pub open spec fn rules_member(updates: Seq<char>, key: Seq<char>) -> Option<Seq<char>> {
    match member_of(updates, "rules"@) {
        Some(rules) => member_of(rules, key),
        None => None,
    }
}

/// The new system prompt that an update body sets, if it sets one.
pub open spec fn prompt_update(updates: Seq<char>) -> Option<Seq<char>> {
    match rules_member(updates, "system_prompt"@) {
        Some(raw) => json_string_value(raw),
        None => None,
    }
}

/// The new list under `key` that an update body sets, if it sets one.
pub open spec fn list_update(updates: Seq<char>, key: Seq<char>) -> Option<Seq<Seq<char>>> {
    match rules_member(updates, key) {
        Some(raw) => string_array(raw),
        None => None,
    }
}

fn list_update_of(rules: &Option<String>, key: &str) -> (r: Option<Vec<String>>)
    ensures
        r matches Some(v) ==> (match rules {
            Some(t) => member_of(t@, key@) matches Some(raw) && string_array(raw) == Some(texts(v@)),
            None => false,
        }),
        r is None ==> (match rules {
            Some(t) => !(member_of(t@, key@) matches Some(raw) && string_array(raw) is Some),
            None => true,
        }),
{
    match rules {
        None => None,
        Some(t) => match member_text(t.as_str(), key) {
            None => None,
            Some(raw) => string_array_of(raw.as_str()),
        },
    }
}

/// Applies the rule updates of a `PUT /config` body: a string
/// `rules.system_prompt` becomes the system prompt, and an array
/// `rules.allowed_tools` or `rules.blocked_paths` replaces that list with its
/// string elements. Everything else is left as it was.
pub fn apply_rule_updates(config: &mut ChatApiConfig, updates: &str)
    ensures
        final(config).target == old(config).target,
        final(config).sessions == old(config).sessions,
        final(config).dashboard == old(config).dashboard,
        final(config).models == old(config).models,
        final(config).security == old(config).security,
        final(config).rules.working_dir == old(config).rules.working_dir,
        final(config).rules.context == old(config).rules.context,
        (match prompt_update(updates@) {
            Some(p) => final(config).rules.system_prompt matches Some(s) && s@ == p,
            None => final(config).rules.system_prompt == old(config).rules.system_prompt,
        }),
        (match list_update(updates@, "allowed_tools"@) {
            Some(names) => texts(final(config).rules.allowed_tools@) == names,
            None => final(config).rules.allowed_tools == old(config).rules.allowed_tools,
        }),
        (match list_update(updates@, "blocked_paths"@) {
            Some(paths) => texts(final(config).rules.blocked_paths@) == paths,
            None => final(config).rules.blocked_paths == old(config).rules.blocked_paths,
        }),
{
    let rules = member_text(updates, "rules");
    let prompt = match &rules {
        Some(t) => string_member_of(t.as_str(), "system_prompt"),
        None => None,
    };
    match prompt {
        Some(p) => {
            config.rules.system_prompt = Some(p);
        },
        None => {},
    }
    let tools = list_update_of(&rules, "allowed_tools");
    match tools {
        Some(v) => {
            config.rules.allowed_tools = v;
        },
        None => {},
    }
    let paths = list_update_of(&rules, "blocked_paths");
    match paths {
        Some(v) => {
            config.rules.blocked_paths = v;
        },
        None => {},
    }
}

// ── Sessions ───────────────────────────────────────────────────────────

/// The model that a new session is created with: the string `model` of the
/// body, else `deepseek-chat`.
pub open spec fn new_session_model(body: Seq<char>) -> Seq<char> {
    match string_member(body, "model"@) {
        Some(m) => m,
        None => "deepseek-chat"@,
    }
}

pub fn session_model(body: &str) -> (r: String)
    ensures
        r@ == new_session_model(body@),
{
    match string_member_of(body, "model") {
        Some(m) => m,
        None => String::from_str("deepseek-chat"),
    }
}

/// Where a fork cuts the conversation: the unsigned integer `at_message` of
/// the body, if it has one.
pub open spec fn branch_at(body: Seq<char>) -> Option<usize> {
    match member_of(body, "at_message"@) {
        Some(raw) => match json_u64_value(raw) {
            Some(n) => Some(n as usize),
            None => None,
        },
        None => None,
    }
}

pub fn branch_point(body: &str) -> (r: Option<usize>)
    ensures
        r == branch_at(body@),
{
    match member_text(body, "at_message") {
        Some(raw) => match u64_value(raw.as_str()) {
            Some(n) => Some(n as usize),
            None => None,
        },
        None => None,
    }
}

/// The error for a session id that names no session.
pub fn session_not_found(session_id: &str) -> (r: ChatApiError)
    ensures
        r matches ChatApiError::InvalidRequest(m) && m@ == "Session not found: "@ + session_id@,
{
    ChatApiError::InvalidRequest(prefixed("Session not found: ", session_id))
}

// ── Agent tasks ────────────────────────────────────────────────────────

/// The description of a submitted task: the string `description` of the body;
/// a body without one is refused with `description required`.
pub fn task_description(body: &str) -> (r: Result<String, ChatApiError>)
    ensures
        r matches Ok(d) ==> string_member(body@, "description"@) == Some(d@),
        r is Err <==> string_member(body@, "description"@) is None,
        r matches Err(e) ==> (e matches ChatApiError::InvalidRequest(m) && m@ == "description required"@),
{
    match string_member_of(body, "description") {
        Some(d) => Ok(d),
        None => Err(ChatApiError::InvalidRequest(String::from_str("description required"))),
    }
}

/// The error for a task id that names no task.
pub fn task_not_found(task_id: &str) -> (r: ChatApiError)
    ensures
        r matches ChatApiError::InvalidRequest(m) && m@ == "Task "@ + task_id@ + " not found"@,
{
    let mut m = prefixed("Task ", task_id);
    push_str(&mut m, " not found");
    ChatApiError::InvalidRequest(m)
}

} // verus!
