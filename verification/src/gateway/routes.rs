//! Checks and conversions that the HTTP handlers apply to requests, tool
//! results and tool arguments.
use vstd::prelude::*;
use vstd::utf8::{decode_utf8, encode_utf8, encode_utf8_decode_utf8, encode_utf8_valid_utf8, is_char_boundary, is_char_boundary_start_end_of_seq};
use crate::rules::config::ChatApiConfig;
use crate::rules::filter::{is_path_blocked, is_tool_allowed, path_blocked, strings, tool_allowed};
use crate::shared::{ChatApiError, ChatMessage, Role, ToolCall};
use crate::text::{decimal, push_decimal, push_str};
use crate::tool_parser::{
    calls_fit, compact_name_key, contains_tool_call_pattern, extract_step, feed_view, initial_view, json_fence,
    parse_tool_calls_from_text, result_of, tool_calls_fit, string_member, string_member_of, xml_open, ToolCallParseResult,
};
use crate::text::find;
use crate::traits::{prefixed, tool_error_text, ToolError, ToolResult};

verus! {

/// The greatest character boundary of `bytes` at or below `i`.
pub open spec fn char_floor(bytes: Seq<u8>, i: int) -> int
    decreases i,
{
    if i <= 0 {
        0
    } else if is_char_boundary(bytes, i) {
        i
    } else {
        char_floor(bytes, i - 1)
    }
}

pub open spec fn truncation_marker(max_bytes: nat) -> Seq<char> {
    "\n\n[...truncated at "@ + decimal(max_bytes) + " bytes]"@
}

/// The text itself when it fits in `max_bytes` bytes; else its longest
/// prefix of whole characters within `max_bytes`, followed by a marker.
pub open spec fn truncated(text: Seq<char>, max_bytes: nat) -> Seq<char> {
    let bytes = encode_utf8(text);
    if bytes.len() <= max_bytes {
        text
    } else {
        decode_utf8(bytes.subrange(0, char_floor(bytes, max_bytes as int))) + truncation_marker(max_bytes)
    }
}

/// Cuts a tool output to at most `max_bytes` bytes of its text, never in the
/// middle of a character, and says so at the end.
pub fn truncate_output(text: &str, max_bytes: usize) -> (r: String)
    requires
        encode_utf8(text@).len() <= usize::MAX,
    ensures
        r@ == truncated(text@, max_bytes as nat),
{
    proof {
        encode_utf8_valid_utf8(text@);
        is_char_boundary_start_end_of_seq(encode_utf8(text@));
    }
    let n = text.len();
    assert(n == encode_utf8(text@).len());
    if n <= max_bytes {
        return String::from_str(text);
    }
    let ghost bytes = encode_utf8(text@);
    let mut end = max_bytes;
    while end > 0 && !text.is_char_boundary(end)
        invariant
            bytes == encode_utf8(text@),
            end <= max_bytes < bytes.len(),
            char_floor(bytes, max_bytes as int) == char_floor(bytes, end as int),
        decreases end,
    {
        end = end - 1;
    }
    assert(is_char_boundary(bytes, end as int));
    assert(char_floor(bytes, end as int) == end);
    let (head, _tail) = text.split_at(end);
    proof {
        encode_utf8_decode_utf8(head@);
    }
    let mut out = String::new();
    push_str(&mut out, head);
    push_str(&mut out, "\n\n[...truncated at ");
    push_decimal(&mut out, max_bytes as u64);
    push_str(&mut out, " bytes]");
    out
}

/// Roughly four bytes per token, rounded up.
pub fn estimate_tokens(text: &str) -> (r: u32)
    requires
        encode_utf8(text@).len() + 3 <= u32::MAX,
    ensures
        r == (encode_utf8(text@).len() + 3) / 4,
{
    (text.len() as u32 + 3) / 4
}

/// A chat request needs at least one message.
pub fn check_messages(messages: &Vec<ChatMessage>) -> (r: Result<(), ChatApiError>)
    ensures
        r is Ok <==> messages@.len() > 0,
        r matches Err(e) ==> e matches ChatApiError::InvalidRequest(m) && m@ == "messages must not be empty"@,
{
    if messages.len() == 0 {
        return Err(ChatApiError::InvalidRequest(String::from_str("messages must not be empty")));
    }
    Ok(())
}

/// What the request checks need of a message: whether it is a tool's
/// result, and whether it names the tool call it answers.
#[derive(Debug, Clone, Copy)]
pub struct MessageShape {
    pub is_tool_result: bool,
    pub has_tool_call_id: bool,
}

/// Some tool result does not name the call it answers.
pub open spec fn unanswered_tool_result(messages: Seq<MessageShape>) -> bool {
    exists|i: int| 0 <= i < messages.len() && (#[trigger] messages[i]).is_tool_result && !messages[i].has_tool_call_id
}

/// A chat request needs at least one message, and every tool result must
/// name the call it answers.
pub fn check_request_messages(messages: &Vec<MessageShape>) -> (r: Result<(), ChatApiError>)
    ensures
        messages@.len() == 0 ==> (r matches Err(ChatApiError::InvalidRequest(m)) && m@ == "messages must not be empty"@),
        messages@.len() > 0 && unanswered_tool_result(messages@)
            ==> (r matches Err(ChatApiError::InvalidRequest(m)) && m@ == "tool messages must include tool_call_id"@),
        r is Ok <==> (messages@.len() > 0 && !unanswered_tool_result(messages@)),
{
    if messages.len() == 0 {
        return Err(ChatApiError::InvalidRequest(String::from_str("messages must not be empty")));
    }
    let mut i: usize = 0;
    while i < messages.len()
        invariant
            i <= messages.len(),
            forall|j: int| 0 <= j < i ==> !((#[trigger] messages@[j]).is_tool_result && !messages@[j].has_tool_call_id),
        decreases messages.len() - i,
    {
        let m = messages[i];
        if m.is_tool_result && !m.has_tool_call_id {
            assert(messages@[i as int].is_tool_result && !messages@[i as int].has_tool_call_id);
            return Err(ChatApiError::InvalidRequest(String::from_str("tool messages must include tool_call_id")));
        }
        i = i + 1;
    }
    Ok(())
}

/// Puts the system prompt first, unless it is empty or the conversation
/// already opens with a system message.
pub fn insert_system_prompt(messages: &mut Vec<ChatMessage>, system_prompt: String)
    ensures
        (system_prompt@.len() == 0 || (old(messages)@.len() > 0 && old(messages)@[0].role == Role::System))
            ==> final(messages)@ == old(messages)@,
        !(system_prompt@.len() == 0 || (old(messages)@.len() > 0 && old(messages)@[0].role == Role::System))
            ==> final(messages)@ == seq![ChatMessage { role: Role::System, content: system_prompt }] + old(messages)@,
{
    if system_prompt.as_str().unicode_len() == 0 {
        return;
    }
    let has_system = messages.len() > 0 && messages[0].role == Role::System;
    if !has_system {
        messages.insert(0, ChatMessage { role: Role::System, content: system_prompt });
        assert(messages@ =~= seq![ChatMessage { role: Role::System, content: system_prompt }] + old(messages)@);
    }
}

pub open spec fn diff_text(old_text: Seq<char>, new_text: Seq<char>, path: Seq<char>) -> Seq<char> {
    "Diff for "@ + path + ":\n--- old\n"@ + old_text + "\n+++ new\n"@ + new_text
}

/// The text a tool result is reported with, and whether it is an error:
/// text and diffs are cut to `max_bytes`, errors are prefixed.
pub open spec fn tool_report(result: ToolResult, max_bytes: nat) -> (Seq<char>, bool) {
    match result {
        ToolResult::Text(t) => (truncated(t@, max_bytes), false),
        ToolResult::Diff { old, new, path } => (truncated(diff_text(old@, new@, path@), max_bytes), false),
        ToolResult::Error { message, recoverable } => ("Error: "@ + message@, true),
    }
}

pub fn tool_result_text(result: &ToolResult, max_bytes: usize) -> (r: (String, bool))
    requires
        result matches ToolResult::Text(t) ==> encode_utf8(t@).len() <= usize::MAX,
        result matches ToolResult::Diff { old, new, path } ==> encode_utf8(diff_text(old@, new@, path@)).len() <= usize::MAX,
    ensures
        (r.0@, r.1) == tool_report(*result, max_bytes as nat),
{
    match result {
        ToolResult::Text(t) => (truncate_output(t.as_str(), max_bytes), false),
        ToolResult::Diff { old, new, path } => {
            let mut d = String::new();
            push_str(&mut d, "Diff for ");
            push_str(&mut d, path.as_str());
            push_str(&mut d, ":\n--- old\n");
            push_str(&mut d, old.as_str());
            push_str(&mut d, "\n+++ new\n");
            push_str(&mut d, new.as_str());
            (truncate_output(d.as_str(), max_bytes), false)
        },
        ToolResult::Error { message, .. } => {
            let mut e = String::new();
            push_str(&mut e, "Error: ");
            push_str(&mut e, message.as_str());
            (e, true)
        },
    }
}

/// The first of a tool call's `path` and `cwd` arguments that the rules
/// block, if any.
pub fn blocked_argument(path: Option<&str>, cwd: Option<&str>, config: &ChatApiConfig) -> (r: Option<String>)
    ensures
        r matches Some(p) ==> ((path matches Some(x) && p@ == x@ && path_blocked(strings(config.rules.blocked_paths@), x@))
            || (cwd matches Some(y) && p@ == y@ && path_blocked(strings(config.rules.blocked_paths@), y@)
                && !(path matches Some(x) && path_blocked(strings(config.rules.blocked_paths@), x@)))),
        r is None ==> !(path matches Some(x) && path_blocked(strings(config.rules.blocked_paths@), x@))
            && !(cwd matches Some(y) && path_blocked(strings(config.rules.blocked_paths@), y@)),
{
    if let Some(p) = path {
        if is_path_blocked(p, config) {
            return Some(String::from_str(p));
        }
    }
    if let Some(c) = cwd {
        if is_path_blocked(c, config) {
            return Some(String::from_str(c));
        }
    }
    None
}

/// A `path` or `cwd` string argument that the rules block.
pub open spec fn argument_blocked(arguments: Seq<char>, key: Seq<char>, config: ChatApiConfig) -> bool {
    string_member(arguments, key) matches Some(p) && path_blocked(strings(config.rules.blocked_paths@), p)
}

/// The rules' verdict on a tool call.
#[derive(Debug, Clone, Copy, PartialEq, Eq, Structural)]
pub enum ToolGate {
    /// The allowed list does not admit the tool: the call is skipped.
    NotAllowed,
    /// Its `path` or `cwd` argument is blocked: the call is refused.
    PathBlocked,
    /// The call runs.
    Run,
}

pub open spec fn tool_gate(name: Seq<char>, arguments: Seq<char>, config: ChatApiConfig) -> ToolGate {
    if !tool_allowed(strings(config.rules.allowed_tools@), name) {
        ToolGate::NotAllowed
    } else if argument_blocked(arguments, "path"@, config) || argument_blocked(arguments, "cwd"@, config) {
        ToolGate::PathBlocked
    } else {
        ToolGate::Run
    }
}

fn argument_blocked_exec(arguments: &str, key: &str, config: &ChatApiConfig) -> (r: Option<String>)
    ensures
        r is Some <==> argument_blocked(arguments@, key@, *config),
        r matches Some(p) ==> string_member(arguments@, key@) == Some(p@),
{
    match string_member_of(arguments, key) {
        Some(p) => if is_path_blocked(p.as_str(), config) { Some(p) } else { None },
        None => None,
    }
}

/// Gates a tool call by its name and its JSON arguments text (a text that
/// is not a JSON object has no `path` or `cwd`).
pub fn gate_tool_call(name: &str, arguments: &str, config: &ChatApiConfig) -> (r: ToolGate)
    ensures
        r == tool_gate(name@, arguments@, *config),
{
    if !is_tool_allowed(name, config) {
        return ToolGate::NotAllowed;
    }
    if argument_blocked_exec(arguments, "path", config).is_some() || argument_blocked_exec(arguments, "cwd", config).is_some() {
        ToolGate::PathBlocked
    } else {
        ToolGate::Run
    }
}

/// What a refused call is reported with.
pub open spec fn path_blocked_report() -> Seq<char> {
    "Error: path blocked by config"@
}

pub fn path_blocked_text() -> (r: &'static str)
    ensures
        r@ == path_blocked_report(),
{
    "Error: path blocked by config"
}

/// What a tool call run during a chat completion is reported with: a result
/// as `tool_report` gives its text (never an error), a failure prefixed.
pub open spec fn chat_tool_report(outcome: Result<ToolResult, ToolError>, max_bytes: nat) -> (Seq<char>, bool) {
    match outcome {
        Ok(r) => (tool_report(r, max_bytes).0, false),
        Err(e) => ("Tool error: "@ + tool_error_text(e), true),
    }
}

pub fn chat_tool_report_text(outcome: &Result<ToolResult, ToolError>, max_bytes: usize) -> (r: (String, bool))
    requires
        outcome matches Ok(ToolResult::Text(t)) ==> encode_utf8(t@).len() <= usize::MAX,
        outcome matches Ok(ToolResult::Diff { old, new, path }) ==> encode_utf8(diff_text(old@, new@, path@)).len() <= usize::MAX,
    ensures
        (r.0@, r.1) == chat_tool_report(*outcome, max_bytes as nat),
{
    match outcome {
        Ok(res) => {
            let (t, _) = tool_result_text(res, max_bytes);
            (t, false)
        },
        Err(e) => {
            let d = e.display_text();
            (prefixed("Tool error: ", d.as_str()), true)
        },
    }
}

/// The checks a direct tool request passes before the tool runs: the tool
/// must be allowed, and neither its `path` nor its `cwd` argument blocked.
pub open spec fn tool_request_check(name: Seq<char>, arguments: Seq<char>, config: ChatApiConfig) -> Result<(), Seq<char>> {
    if !tool_allowed(strings(config.rules.allowed_tools@), name) {
        Err("Tool '"@ + name + "' is not allowed by config"@)
    } else if argument_blocked(arguments, "path"@, config) {
        Err("Path '"@ + string_member(arguments, "path"@)->Some_0 + "' is blocked by config"@)
    } else if argument_blocked(arguments, "cwd"@, config) {
        Err("Path '"@ + string_member(arguments, "cwd"@)->Some_0 + "' is blocked by config"@)
    } else {
        Ok(())
    }
}

fn quoted_message(before: &str, middle: &str, after: &str) -> (r: String)
    ensures
        r@ == before@ + middle@ + after@,
{
    let mut m = String::new();
    push_str(&mut m, before);
    push_str(&mut m, middle);
    push_str(&mut m, after);
    m
}

/// Checks a direct tool request (`name` and its JSON arguments text); a
/// refusal is an invalid request.
pub fn check_tool_request(name: &str, arguments: &str, config: &ChatApiConfig) -> (r: Result<(), ChatApiError>)
    ensures
        tool_request_check(name@, arguments@, *config) is Ok ==> r is Ok,
        tool_request_check(name@, arguments@, *config) matches Err(msg)
            ==> (r matches Err(ChatApiError::InvalidRequest(m)) && m@ == msg),
{
    if !is_tool_allowed(name, config) {
        return Err(ChatApiError::InvalidRequest(quoted_message("Tool '", name, "' is not allowed by config")));
    }
    if let Some(p) = argument_blocked_exec(arguments, "path", config) {
        return Err(ChatApiError::InvalidRequest(quoted_message("Path '", p.as_str(), "' is blocked by config")));
    }
    if let Some(p) = argument_blocked_exec(arguments, "cwd", config) {
        return Err(ChatApiError::InvalidRequest(quoted_message("Path '", p.as_str(), "' is blocked by config")));
    }
    Ok(())
}

/// The names among `names` (in order) that the rules allow.
pub open spec fn allowed_names(names: Seq<Seq<char>>, config: ChatApiConfig) -> Seq<Seq<char>> {
    names.filter(|n: Seq<char>| tool_allowed(strings(config.rules.allowed_tools@), n))
}

/// The tools that a chat request's system prompt offers: those the rules
/// allow, in the registry's order.
pub fn allowed_tool_names(names: &Vec<String>, config: &ChatApiConfig) -> (r: Vec<String>)
    ensures
        strings(r@) == allowed_names(strings(names@), *config),
{
    let ghost ns = strings(names@);
    let mut out: Vec<String> = Vec::new();
    let mut i: usize = 0;
    while i < names.len()
        invariant
            i <= names.len(),
            ns == strings(names@),
            strings(out@) == allowed_names(ns.take(i as int), *config),
        decreases names.len() - i,
    {
        let ok = is_tool_allowed(names[i].as_str(), config);
        proof {
            assert(ns.take(i + 1).drop_last() =~= ns.take(i as int));
            assert(ns.take(i + 1).last() == names@[i as int]@);
            reveal(Seq::filter);
        }
        if ok {
            out.push(names[i].clone());
            assert(strings(out@) =~= strings(out@).drop_last().push(names@[i as int]@));
        }
        i = i + 1;
    }
    assert(ns.take(i as int) =~= ns);
    out
}

/// What the gateway answers a non-streaming chat request with.
#[derive(Debug)]
pub enum ReplyAction {
    /// The model called tools natively: run each call the rules let through,
    /// and answer with the calls.
    RunNativeCalls,
    /// The reply's text holds tool calls: answer with these.
    AnswerTextCalls(ToolCallParseResult),
    /// Answer with the model's reply as it is.
    AnswerText,
}

/// The text shows a tool call pattern (`contains_tool_call_pattern`).
pub open spec fn shows_tool_pattern(text: Seq<char>) -> bool {
    find(text, json_fence()) is Some || find(text, compact_name_key()) is Some || find(text, xml_open()) is Some
}

/// A text that shows no tool call pattern is not parsed for calls; one that
/// does holds calls that all get a number.
pub open spec fn tool_text_fits(text: Seq<char>) -> bool {
    shows_tool_pattern(text) ==> calls_fit(text)
}

/// What a non-streaming reply is answered with, given the reply's text.
pub open spec fn reply_for(
    has_tools: bool,
    last_is_tool_result: bool,
    native_calls: usize,
    content: Option<Seq<char>>,
    r: ReplyAction,
) -> bool {
    &&& !has_tools || last_is_tool_result ==> r is AnswerText
    &&& has_tools && !last_is_tool_result && native_calls > 0 ==> r is RunNativeCalls
    &&& has_tools && !last_is_tool_result && native_calls == 0 ==> match content {
        Some(c) => {
            let st = extract_step(feed_view(initial_view(), c));
            if shows_tool_pattern(c) && st.calls.len() > 0 {
                r matches ReplyAction::AnswerTextCalls(p) && result_of(st, p)
            } else {
                r is AnswerText
            }
        },
        None => r is AnswerText,
    }
}

/// The reply's text, where it is read for calls, holds calls that all get a
/// number.
pub open spec fn reply_calls_fit(has_tools: bool, last_is_tool_result: bool, native_calls: usize, content: Option<Seq<char>>) -> bool {
    has_tools && !last_is_tool_result && native_calls == 0 ==> match content {
        Some(c) => tool_text_fits(c),
        None => true,
    }
}

pub open spec fn text_of(content: Option<&str>) -> Option<Seq<char>> {
    match content {
        Some(c) => Some(c@),
        None => None,
    }
}

/// Decides how a non-streaming reply is answered. Tool calls are looked for
/// only when the request offered tools and its last message is not a tool
/// result: native calls first (`native_calls` counts them), then calls
/// written in the reply's text.
pub fn reply_action(has_tools: bool, last_is_tool_result: bool, native_calls: usize, content: Option<&str>) -> (r: ReplyAction)
    requires
        reply_calls_fit(has_tools, last_is_tool_result, native_calls, text_of(content)),
    ensures
        reply_for(has_tools, last_is_tool_result, native_calls, text_of(content), r),
{
    if !has_tools || last_is_tool_result {
        return ReplyAction::AnswerText;
    }
    if native_calls > 0 {
        return ReplyAction::RunNativeCalls;
    }
    match content {
        Some(c) => {
            if contains_tool_call_pattern(c) {
                let parsed = parse_tool_calls_from_text(c);
                if parsed.has_tool_calls {
                    return ReplyAction::AnswerTextCalls(parsed);
                }
            }
            ReplyAction::AnswerText
        },
        None => ReplyAction::AnswerText,
    }
}

/// `reply_action` where the reply's text, if it is read for calls, holds
/// calls that all get a number; `None` where it does not.
pub fn try_reply_action(has_tools: bool, last_is_tool_result: bool, native_calls: usize, content: Option<&str>) -> (r: Option<ReplyAction>)
    ensures
        r is None <==> !reply_calls_fit(has_tools, last_is_tool_result, native_calls, text_of(content)),
        r matches Some(a) ==> reply_for(has_tools, last_is_tool_result, native_calls, text_of(content), a),
{
    if has_tools && !last_is_tool_result && native_calls == 0 {
        match content {
            Some(c) => {
                if contains_tool_call_pattern(c) && !tool_calls_fit(c) {
                    return None;
                }
            },
            None => {},
        }
    }
    Some(reply_action(has_tools, last_is_tool_result, native_calls, content))
}

} // verus!
