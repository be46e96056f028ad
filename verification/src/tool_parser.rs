//! Tool call parser: turns the text that a browser-driven LLM writes into
//! structured OpenAI tool calls.
//!
//! Three text forms are recognised: a JSON code block (```` ```json ````) holding
//! one call object or an array of them, a bare JSON call object that starts with
//! `{"name"`, and a `<tool_calls>[...]</tool_calls>` block. The parser is fed
//! text in chunks and keeps what it has not consumed.
use vstd::prelude::*;
use crate::json::{
    array_items, compact, json_array_parse, json_compact, json_object_members,
    json_string_value, object_members, string_value, texts, pair_texts,
};
use crate::shared::{FunctionCall, ToolCall};
use crate::text::{
    chars_of, decimal, find, find_exec, find_from, is_ws, lemma_find_from_bounds, lemma_trim_idempotent,
    occurs_at, push_decimal, push_str, starts_with, string_of, trim, trim_bounds, trim_string,
};

verus! {

broadcast use vstd::seq_lib::group_seq_properties;

// ── Patterns ───────────────────────────────────────────────────────────

/// The openings of a JSON code block, tried in this order.
pub open spec fn start_pattern(k: int) -> Seq<char> {
    if k == 0 { seq!['\n', '`', '`', '`', 'j', 's', 'o', 'n', '\n'] }
    else if k == 1 { seq!['\n', '`', '`', '`', 'j', 's', 'o', 'n', '\r', '\n'] }
    else if k == 2 { seq!['`', '`', '`', 'j', 's', 'o', 'n', '\n'] }
    else if k == 3 { seq!['`', '`', '`', 'j', 's', 'o', 'n', '\r', '\n'] }
    else if k == 4 { seq!['\n', '`', '`', '`', 'j', 's', 'o', 'n'] }
    else { seq!['`', '`', '`', 'j', 's', 'o', 'n'] }
}

/// The closing of a JSON code block.
pub open spec fn end_pattern() -> Seq<char> {
    seq!['\n', '`', '`', '`']
}

/// The openings of a bare JSON call object, tried in this order.
pub open spec fn name_pattern(k: int) -> Seq<char> {
    if k == 0 { seq!['{', '"', 'n', 'a', 'm', 'e', '"', ':', ' ', '"'] }
    else if k == 1 { seq!['{', '"', 'n', 'a', 'm', 'e', '"', ':', '"'] }
    else { seq!['{', ' ', '"', 'n', 'a', 'm', 'e', '"', ':', ' ', '"'] }
}

pub open spec fn xml_open() -> Seq<char> {
    seq!['<', 't', 'o', 'o', 'l', '_', 'c', 'a', 'l', 'l', 's', '>']
}

pub open spec fn xml_close() -> Seq<char> {
    seq!['<', '/', 't', 'o', 'o', 'l', '_', 'c', 'a', 'l', 'l', 's', '>']
}

pub open spec fn json_fence() -> Seq<char> {
    seq!['`', '`', '`', 'j', 's', 'o', 'n']
}

pub open spec fn compact_name_key() -> Seq<char> {
    seq!['"', 'n', 'a', 'm', 'e', '"', ':', '"']
}

fn start_pattern_exec(k: usize) -> (r: Vec<char>)
    requires
        k < 6,
    ensures
        r@ == start_pattern(k as int),
{
    let r = if k == 0 { vec!['\n', '`', '`', '`', 'j', 's', 'o', 'n', '\n'] }
    else if k == 1 { vec!['\n', '`', '`', '`', 'j', 's', 'o', 'n', '\r', '\n'] }
    else if k == 2 { vec!['`', '`', '`', 'j', 's', 'o', 'n', '\n'] }
    else if k == 3 { vec!['`', '`', '`', 'j', 's', 'o', 'n', '\r', '\n'] }
    else if k == 4 { vec!['\n', '`', '`', '`', 'j', 's', 'o', 'n'] }
    else { vec!['`', '`', '`', 'j', 's', 'o', 'n'] };
    assert(r@ =~= start_pattern(k as int));
    r
}

fn name_pattern_exec(k: usize) -> (r: Vec<char>)
    requires
        k < 3,
    ensures
        r@ == name_pattern(k as int),
{
    let r = if k == 0 { vec!['{', '"', 'n', 'a', 'm', 'e', '"', ':', ' ', '"'] }
    else if k == 1 { vec!['{', '"', 'n', 'a', 'm', 'e', '"', ':', '"'] }
    else { vec!['{', ' ', '"', 'n', 'a', 'm', 'e', '"', ':', ' ', '"'] };
    assert(r@ =~= name_pattern(k as int));
    r
}

// ── Decoding one JSON text into (name, arguments) pairs ────────────────

/// The value text of the first member named `key`.
pub open spec fn member_value(members: Seq<(Seq<char>, Seq<char>)>, key: Seq<char>) -> Option<Seq<char>>
    decreases members.len(),
{
    if members.len() == 0 {
        None
    } else if members[0].0 == key {
        Some(members[0].1)
    } else {
        member_value(members.drop_first(), key)
    }
}

/// The arguments of a call as text: a JSON string is taken as it decodes, any
/// other value in compact JSON, and a missing or null value as `{}`. A value
/// that does not read back as a JSON value (a number out of range, nesting too
/// deep) gives no arguments, and the call is refused.
pub open spec fn arguments_text(raw: Option<Seq<char>>) -> Option<Seq<char>> {
    match raw {
        None => Some("{}"@),
        Some(r) => match json_string_value(r) {
            Some(s) => Some(s),
            None => if r == "null"@ {
                Some("{}"@)
            } else {
                json_compact(r)
            },
        },
    }
}

/// One call: an object whose `name` is a JSON string, its `arguments`
/// optional; or the same fields in order as an array, `[name]` or
/// `[name, arguments]`.
pub open spec fn raw_call(text: Seq<char>) -> Option<(Seq<char>, Seq<char>)> {
    match json_object_members(text) {
        None => match json_array_parse(text) {
            Ok(items) => if 1 <= items.len() <= 2 {
                match (json_string_value(items[0]), arguments_text(if items.len() == 2 { Some(items[1]) } else { None })) {
                    (Some(name), Some(args)) => Some((name, args)),
                    _ => None,
                }
            } else {
                None
            },
            Err(_) => None,
        },
        Some(m) => match member_value(m, "name"@) {
            None => None,
            Some(nraw) => match json_string_value(nraw) {
                None => None,
                Some(name) => match arguments_text(member_value(m, "arguments"@)) {
                    None => None,
                    Some(args) => Some((name, args)),
                },
            },
        },
    }
}

/// Every element of an array is a call object.
pub open spec fn all_raw(items: Seq<Seq<char>>) -> Option<Seq<(Seq<char>, Seq<char>)>>
    decreases items.len(),
{
    if items.len() == 0 {
        Some(Seq::empty())
    } else {
        match (all_raw(items.drop_last()), raw_call(items.last())) {
            (Some(rest), Some(c)) => Some(rest.push(c)),
            _ => None,
        }
    }
}

/// A JSON text holding one call object, or an array of them.
pub open spec fn decode_calls(json: Seq<char>) -> Option<Seq<(Seq<char>, Seq<char>)>> {
    let t = trim(json);
    if starts_with(t, seq!['[']) {
        match json_array_parse(t) {
            Err(_) => None,
            Ok(items) => all_raw(items),
        }
    } else {
        match raw_call(t) {
            None => None,
            Some(c) => Some(seq![c]),
        }
    }
}

// ── Parser state ───────────────────────────────────────────────────────

/// A tool call as plain text fields.
pub struct CallSpec {
    pub id: Seq<char>,
    pub call_type: Seq<char>,
    pub name: Seq<char>,
    pub arguments: Seq<char>,
}

pub open spec fn call_view(t: ToolCall) -> CallSpec {
    CallSpec { id: t.id@, call_type: t.call_type@, name: t.function.name@, arguments: t.function.arguments@ }
}

pub open spec fn calls_view(v: Seq<ToolCall>) -> Seq<CallSpec> {
    v.map_values(|t: ToolCall| call_view(t))
}

/// The id of the `n`-th call a parser hands out.
pub open spec fn call_id(n: nat) -> Seq<char> {
    "call_"@ + decimal(n)
}

/// Calls numbered on from `counter`.
pub open spec fn number_calls(raws: Seq<(Seq<char>, Seq<char>)>, counter: nat) -> Seq<CallSpec> {
    Seq::new(raws.len(), |i: int| CallSpec {
        id: call_id((counter + i + 1) as nat),
        call_type: "function"@,
        name: raws[i].0,
        arguments: raws[i].1,
    })
}

pub struct ParserView {
    pub buffer: Seq<char>,
    pub calls: Seq<CallSpec>,
    pub prefix: Seq<char>,
    pub in_tool_call: bool,
    pub counter: nat,
}

/// The state after calls `raws` were taken from text that ran up to `after`,
/// the calls' opening standing at `start`.
pub open spec fn advance(st: ParserView, raws: Seq<(Seq<char>, Seq<char>)>, start: int, after: int) -> ParserView {
    ParserView {
        buffer: st.buffer.subrange(after, st.buffer.len() as int),
        calls: st.calls + number_calls(raws, st.counter),
        prefix: if st.in_tool_call { st.prefix } else { trim(st.buffer.subrange(0, start)) },
        in_tool_call: true,
        counter: st.counter + raws.len(),
    }
}

/// A JSON code block opened by start pattern `k`.
pub open spec fn try_block(st: ParserView, k: int) -> Option<ParserView> {
    let content = st.buffer;
    match find(content, start_pattern(k)) {
        None => None,
        Some(start_idx) => {
            let json_start = start_idx + start_pattern(k).len();
            match find_from(content, end_pattern(), json_start) {
                None => None,
                Some(end_idx) => match decode_calls(trim(content.subrange(json_start, end_idx))) {
                    Some(raws) => if raws.len() > 0 {
                        Some(advance(st, raws, start_idx, end_idx + end_pattern().len()))
                    } else {
                        None
                    },
                    None => None,
                },
            }
        },
    }
}

pub open spec fn try_blocks(st: ParserView, k: int) -> Option<ParserView>
    decreases 6 - k,
{
    if k >= 6 || k < 0 {
        None
    } else {
        match try_block(st, k) {
            Some(s) => Some(s),
            None => try_blocks(st, k + 1),
        }
    }
}

/// Where the braces opened at `i` (with `depth` already open) close again.
pub open spec fn brace_scan(s: Seq<char>, i: int, depth: int) -> Option<int>
    decreases s.len() - i,
{
    if i < 0 || i >= s.len() {
        None
    } else if s[i] == '{' {
        brace_scan(s, i + 1, depth + 1)
    } else if s[i] == '}' {
        if depth - 1 == 0 {
            Some(i + 1)
        } else {
            brace_scan(s, i + 1, depth - 1)
        }
    } else {
        brace_scan(s, i + 1, depth)
    }
}

/// A bare call object opened by name pattern `k`.
pub open spec fn try_raw(st: ParserView, k: int) -> Option<ParserView> {
    let content = st.buffer;
    match find(content, name_pattern(k)) {
        None => None,
        Some(start) => match brace_scan(content, start, 0) {
            None => None,
            Some(end) => match decode_calls(content.subrange(start, end)) {
                Some(raws) => if raws.len() > 0 {
                    Some(advance(st, raws, start, end))
                } else {
                    None
                },
                None => None,
            },
        },
    }
}

pub open spec fn try_raws(st: ParserView, k: int) -> Option<ParserView>
    decreases 3 - k,
{
    if k >= 3 || k < 0 {
        None
    } else {
        match try_raw(st, k) {
            Some(s) => Some(s),
            None => try_raws(st, k + 1),
        }
    }
}

/// A `<tool_calls>` block; an empty array there is taken too.
pub open spec fn try_xml(st: ParserView) -> Option<ParserView> {
    let content = st.buffer;
    match find(content, xml_open()) {
        None => None,
        Some(start) => match find_from(content, xml_close(), start) {
            None => None,
            Some(end) => match decode_calls(content.subrange(start + xml_open().len(), end)) {
                Some(raws) => Some(advance(st, raws, start, end + xml_close().len())),
                None => None,
            },
        },
    }
}

/// One extraction: the first form found in the buffer, in the order code
/// block, bare object, `<tool_calls>` block (the last two only before any call
/// was found).
pub open spec fn extract_step(st: ParserView) -> ParserView {
    match try_blocks(st, 0) {
        Some(s) => s,
        None => if st.in_tool_call {
            st
        } else {
            match try_raws(st, 0) {
                Some(s) => s,
                None => match try_xml(st) {
                    Some(s) => s,
                    None => st,
                },
            }
        },
    }
}

pub open spec fn initial_view() -> ParserView {
    ParserView { buffer: Seq::empty(), calls: Seq::empty(), prefix: Seq::empty(), in_tool_call: false, counter: 0 }
}

pub open spec fn feed_view(st: ParserView, chunk: Seq<char>) -> ParserView {
    extract_step(ParserView { buffer: st.buffer + chunk, ..st })
}

/// The calls are numbered `call_1`, `call_2`, … in the order they were found;
/// the text before the first call is kept only once one was found; the
/// counter fits its integer type.
pub open spec fn view_wf(st: ParserView) -> bool {
    &&& st.counter == st.calls.len()
    &&& forall|i: int| 0 <= i < st.calls.len() ==> (#[trigger] st.calls[i]).id == call_id((i + 1) as nat)
    &&& forall|i: int| 0 <= i < st.calls.len() ==> (#[trigger] st.calls[i]).call_type == "function"@
    &&& !st.in_tool_call ==> st.prefix.len() == 0
    &&& st.counter <= u32::MAX
}

// ── Parser ─────────────────────────────────────────────────────────────

/// Result of parsing text for tool calls.
#[derive(Debug, Clone)]
pub struct ToolCallParseResult {
    /// Whether any tool calls were found.
    pub has_tool_calls: bool,
    /// Extracted tool calls.
    pub tool_calls: Vec<ToolCall>,
    /// Any text that appeared before the tool calls (prefix).
    pub prefix_text: String,
    /// Any text that appeared after the tool calls (suffix).
    pub suffix_text: String,
}

/// What `finish` gives back for a parser in state `st`.
pub open spec fn result_of(st: ParserView, r: ToolCallParseResult) -> bool {
    &&& r.has_tool_calls == (st.calls.len() > 0)
    &&& calls_view(r.tool_calls@) == st.calls
    &&& r.prefix_text@ == st.prefix
    &&& r.suffix_text@ == trim(st.buffer)
}

/// Streaming tool call parser that accumulates text and detects tool call patterns.
#[derive(Clone)]
pub struct ToolCallParser {
    buffer: Vec<char>,
    tool_calls: Vec<ToolCall>,
    prefix: String,
    in_tool_call: bool,
    call_counter: u32,
}

impl View for ToolCallParser {
    type V = ParserView;

    closed spec fn view(&self) -> ParserView {
        ParserView {
            buffer: self.buffer@,
            calls: calls_view(self.tool_calls@),
            prefix: self.prefix@,
            in_tool_call: self.in_tool_call,
            counter: self.call_counter as nat,
        }
    }
}

proof fn lemma_member_value_some(m: Seq<(Seq<char>, Seq<char>)>, key: Seq<char>, i: int)
    requires
        0 <= i < m.len(),
        m[i].0 == key,
        forall|j: int| 0 <= j < i ==> m[j].0 != key,
    ensures
        member_value(m, key) == Some(m[i].1),
    decreases i,
{
    if i > 0 {
        lemma_member_value_some(m.drop_first(), key, i - 1);
    }
}

proof fn lemma_member_value_none(m: Seq<(Seq<char>, Seq<char>)>, key: Seq<char>)
    requires
        forall|j: int| 0 <= j < m.len() ==> m[j].0 != key,
    ensures
        member_value(m, key) is None,
    decreases m.len(),
{
    if m.len() > 0 {
        lemma_member_value_none(m.drop_first(), key);
    }
}

pub(crate) fn member_value_exec(members: &Vec<(String, String)>, key: &str) -> (r: Option<String>)
    ensures
        r matches Some(v) ==> member_value(pair_texts(members@), key@) == Some(v@),
        r is None ==> member_value(pair_texts(members@), key@) is None,
{
    let key_s = String::from_str(key);
    let ghost m = pair_texts(members@);
    let mut i: usize = 0;
    while i < members.len()
        invariant
            m == pair_texts(members@),
            key_s@ == key@,
            i <= members.len(),
            forall|j: int| 0 <= j < i ==> m[j].0 != key@,
        decreases members.len() - i,
    {
        if members[i].0 == key_s {
            proof {
                lemma_member_value_some(m, key@, i as int);
            }
            return Some(members[i].1.clone());
        }
        i = i + 1;
    }
    proof {
        lemma_member_value_none(m, key@);
    }
    None
}

/// The string under `key` of a JSON object text: `None` when the text is
/// not an object, has no such member, or the member is not a string.
pub open spec fn string_member(text: Seq<char>, key: Seq<char>) -> Option<Seq<char>> {
    match json_object_members(text) {
        Some(m) => match member_value(m, key) {
            Some(raw) => json_string_value(raw),
            None => None,
        },
        None => None,
    }
}

pub fn string_member_of(text: &str, key: &str) -> (r: Option<String>)
    ensures
        r matches Some(v) ==> string_member(text@, key@) == Some(v@),
        r is None ==> string_member(text@, key@) is None,
{
    match object_members(text) {
        None => None,
        Some(m) => match member_value_exec(&m, key) {
            None => None,
            Some(raw) => string_value(raw.as_str()),
        },
    }
}

fn arguments_text_exec(raw: Option<String>) -> (r: Option<String>)
    ensures
        r is Some <==> arguments_text(match raw { Some(s) => Some(s@), None => None }) is Some,
        r matches Some(a) ==> arguments_text(match raw { Some(s) => Some(s@), None => None }) == Some(a@),
{
    proof {
        reveal_strlit("{}");
        reveal_strlit("null");
    }
    match raw {
        None => Some(String::from_str("{}")),
        Some(r) => match string_value(r.as_str()) {
            Some(s) => Some(s),
            None => {
                let null_text = String::from_str("null");
                if r == null_text {
                    Some(String::from_str("{}"))
                } else {
                    compact(r.as_str())
                }
            },
        },
    }
}

fn raw_call_exec(text: &str) -> (r: Option<(String, String)>)
    ensures
        r matches Some(p) ==> raw_call(text@) == Some((p.0@, p.1@)),
        r is None ==> raw_call(text@) is None,
{
    let members = match object_members(text) {
        Some(m) => m,
        None => {
            let items = match array_items(text) {
                Ok(v) => v,
                Err(_) => return None,
            };
            if items.len() < 1 || items.len() > 2 {
                return None;
            }
            assert(crate::json::texts(items@)[0] == items@[0]@);
            let name = match string_value(items[0].as_str()) {
                Some(n) => n,
                None => return None,
            };
            let args_raw = if items.len() == 2 {
                assert(crate::json::texts(items@)[1] == items@[1]@);
                Some(items[1].clone())
            } else {
                None
            };
            return match arguments_text_exec(args_raw) {
                Some(args) => Some((name, args)),
                None => None,
            };
        },
    };
    let name_raw = match member_value_exec(&members, "name") {
        Some(n) => n,
        None => return None,
    };
    let name = match string_value(name_raw.as_str()) {
        Some(n) => n,
        None => return None,
    };
    let args_raw = member_value_exec(&members, "arguments");
    match arguments_text_exec(args_raw) {
        Some(args) => Some((name, args)),
        None => None,
    }
}

proof fn lemma_all_raw_prefix(items: Seq<Seq<char>>, k: int)
    requires
        0 <= k <= items.len(),
        all_raw(items) is Some,
    ensures
        all_raw(items.take(k)) is Some,
    decreases items.len() - k,
{
    if k < items.len() {
        assert(items.drop_last().take(k) =~= items.take(k));
        lemma_all_raw_prefix(items.drop_last(), k);
    } else {
        assert(items.take(k) =~= items);
    }
}

pub open spec fn raw_views(v: Seq<(String, String)>) -> Seq<(Seq<char>, Seq<char>)> {
    v.map_values(|p: (String, String)| (p.0@, p.1@))
}

/// `decode_calls` on `cs[from..to]`.
fn decode_calls_exec(cs: &Vec<char>, from: usize, to: usize) -> (r: Option<Vec<(String, String)>>)
    requires
        from <= to <= cs.len(),
    ensures
        r matches Some(v) ==> decode_calls(cs@.subrange(from as int, to as int)) == Some(raw_views(v@)),
        r is None ==> decode_calls(cs@.subrange(from as int, to as int)) is None,
        r matches Some(v) ==> v.len() <= (if trim(cs@.subrange(from as int, to as int)).len() == 0 { 1 } else { trim(cs@.subrange(from as int, to as int)).len() }),
{
    let ghost j = cs@.subrange(from as int, to as int);
    let (a, b) = trim_bounds(cs, from, to);
    let t = string_of(cs, a, b);
    assert(t@ == trim(j));
    if a < b && cs[a] == '[' {
        assert(starts_with(t@, seq!['['])) by {
            assert(t@.subrange(0, 1) =~= seq!['[']);
        }
        let items = match array_items(t.as_str()) {
            Ok(v) => v,
            Err(_) => return None,
        };
        let ghost its = texts(items@);
        let mut out: Vec<(String, String)> = Vec::new();
        let mut i: usize = 0;
        while i < items.len()
            invariant
                its == texts(items@),
                json_array_parse(trim(j)) == Ok::<Seq<Seq<char>>, Seq<char>>(its),
                starts_with(trim(j), seq!['[']),
                j == cs@.subrange(from as int, to as int),
                i <= items.len(),
                all_raw(its.take(i as int)) == Some(raw_views(out@)),
                out.len() == i,
            decreases items.len() - i,
        {
            assert(its.take(i + 1).drop_last() =~= its.take(i as int));
            match raw_call_exec(items[i].as_str()) {
                Some(p) => {
                    out.push(p);
                    assert(raw_views(out@) =~= raw_views(out@).drop_last().push((p.0@, p.1@)));
                },
                None => {
                    proof {
                        assert(its.take(i + 1).last() == its[i as int]);
                        assert(its[i as int] == items@[i as int]@);
                        assert(all_raw(its.take(i + 1)) is None);
                        if all_raw(its) is Some {
                            lemma_all_raw_prefix(its, i + 1);
                        }
                        assert(json_array_parse(trim(j)) == Ok::<Seq<Seq<char>>, Seq<char>>(its));
                        assert(decode_calls(j) == all_raw(its));
                    }
                    return None;
                },
            }
            i = i + 1;
        }
        assert(its.take(i as int) =~= its);
        Some(out)
    } else {
        assert(!starts_with(t@, seq!['['])) by {
            if starts_with(t@, seq!['[']) {
                assert(t@.subrange(0, 1)[0] == '[');
            }
        }
        match raw_call_exec(t.as_str()) {
            Some(p) => {
                let mut out: Vec<(String, String)> = Vec::new();
                out.push(p);
                assert(raw_views(out@) =~= seq![(p.0@, p.1@)]);
                Some(out)
            },
            None => None,
        }
    }
}


proof fn lemma_xml_close_after_open(s: Seq<char>, start: int, e: int)
    requires
        occurs_at(s, xml_open(), start),
        occurs_at(s, xml_close(), e),
        start <= e,
    ensures
        start + xml_open().len() <= e,
{
    if e < start + 12 {
        assert(s.subrange(e, e + 13)[0] == s[e]);
        assert(s[e] == '<');
        assert(s.subrange(start, start + 12)[e - start] == s[e]);
        if e > start {
            assert(xml_open()[e - start] != '<');
        } else {
            assert(s.subrange(e, e + 13)[1] == s[e + 1]);
            assert(s.subrange(start, start + 12)[1] == s[start + 1]);
        }
    }
}

impl ToolCallParser {
    pub open spec fn wf(&self) -> bool {
        view_wf(self@)
    }

    pub fn new() -> (r: Self)
        ensures
            r@ == initial_view(),
            r.wf(),
    {
        let r = ToolCallParser {
            buffer: Vec::new(),
            tool_calls: Vec::new(),
            prefix: String::new(),
            in_tool_call: false,
            call_counter: 0,
        };
        assert(calls_view(r.tool_calls@) =~= Seq::<CallSpec>::empty());
        r
    }

    /// Takes calls `raws` found between `start` and `after` in the buffer.
    fn apply(&mut self, raws: Vec<(String, String)>, start: usize, after: usize)
        requires
            view_wf(old(self)@),
            start <= after <= old(self)@.buffer.len(),
            old(self)@.counter + raws.len() <= u32::MAX,
        ensures
            final(self)@ == advance(old(self)@, raw_views(raws@), start as int, after as int),
            view_wf(final(self)@),
    {
        let ghost st = self@;
        if !self.in_tool_call {
            self.prefix = trim_string(&self.buffer, 0, start);
            self.in_tool_call = true;
        }
        let mut i: usize = 0;
        while i < raws.len()
            invariant
                i <= raws.len(),
                after <= st.buffer.len(),
                self.buffer@ == st.buffer,
                self.prefix@ == (if st.in_tool_call { st.prefix } else { trim(st.buffer.subrange(0, start as int)) }),
                self.in_tool_call,
                self.call_counter == st.counter + i,
                st.counter + raws.len() <= u32::MAX,
                calls_view(self.tool_calls@) == st.calls + number_calls(raw_views(raws@), st.counter).take(i as int),
            decreases raws.len() - i,
        {
            self.call_counter = self.call_counter + 1;
            let mut id = String::from_str("call_");
            push_decimal(&mut id, self.call_counter as u64);
            let name = raws[i].0.clone();
            let args = raws[i].1.clone();
            let tc = ToolCall {
                id,
                call_type: String::from_str("function"),
                function: FunctionCall { name, arguments: args },
            };
            proof {
                reveal_strlit("call_");
                reveal_strlit("function");
                let nc = number_calls(raw_views(raws@), st.counter);
                assert(raw_views(raws@)[i as int] == (raws@[i as int].0@, raws@[i as int].1@));
                assert(call_view(tc).id == call_id((st.counter + i + 1) as nat));
                assert(call_view(tc) == nc[i as int]);
            }
            let ghost old_calls = self.tool_calls@;
            self.tool_calls.push(tc);
            assert(calls_view(self.tool_calls@) =~= calls_view(old_calls).push(call_view(tc)));
            assert(calls_view(self.tool_calls@) =~= st.calls + number_calls(raw_views(raws@), st.counter).take(i + 1));
            i = i + 1;
        }
        assert(number_calls(raw_views(raws@), st.counter).take(i as int) =~= number_calls(raw_views(raws@), st.counter));
        let mut rest: Vec<char> = Vec::new();
        let mut k = after;
        while k < self.buffer.len()
            invariant
                after <= k <= self.buffer.len(),
                rest@ == self.buffer@.subrange(after as int, k as int),
            decreases self.buffer.len() - k,
        {
            rest.push(self.buffer[k]);
            k = k + 1;
        }
        self.buffer = rest;
        proof {
            let ns = self@;
            assert forall|j: int| 0 <= j < ns.calls.len() implies (#[trigger] ns.calls[j]).id == call_id((j + 1) as nat)
                && ns.calls[j].call_type == "function"@ by {
                if j >= st.calls.len() {
                    assert(ns.calls[j] == number_calls(raw_views(raws@), st.counter)[j - st.calls.len()]);
                }
            }
        }
    }

    /// A JSON code block opened by start pattern `k`: the calls, where the
    /// opening stands and where the block ends.
    fn try_block_exec(&self, k: usize) -> (r: Option<(Vec<(String, String)>, usize, usize)>)
        requires
            k < 6,
        ensures
            r matches Some(t) ==> try_block(self@, k as int) == Some(advance(self@, raw_views(t.0@), t.1 as int, t.2 as int))
                && t.1 <= t.2 <= self@.buffer.len(),
            r is None ==> try_block(self@, k as int) is None,
    {
        let ghost content = self.buffer@;
        let pat = start_pattern_exec(k);
        let start_idx = match find_exec(&self.buffer, &pat, 0) {
            Some(i) => i,
            None => return None,
        };
        proof {
            lemma_find_from_bounds(content, pat@, 0);
            assert(occurs_at(content, pat@, start_idx as int));
        }
        let json_start = start_idx + pat.len();
        let end_pat = vec!['\n', '`', '`', '`'];
        assert(end_pat@ =~= end_pattern());
        let end_idx = match find_exec(&self.buffer, &end_pat, json_start) {
            Some(e) => e,
            None => return None,
        };
        proof {
            lemma_find_from_bounds(content, end_pat@, json_start as int);
        }
        let (a, b) = trim_bounds(&self.buffer, json_start, end_idx);
        let raws = match decode_calls_exec(&self.buffer, a, b) {
            Some(v) => v,
            None => return None,
        };
        if raws.len() == 0 {
            return None;
        }
        Some((raws, start_idx, end_idx + 4))
    }

    /// Where the braces opened at `start` close again.
    fn brace_end(&self, start: usize) -> (r: Option<usize>)
        requires
            start < self@.buffer.len(),
            self@.buffer[start as int] == '{',
        ensures
            r matches Some(e) ==> brace_scan(self@.buffer, start as int, 0) == Some(e as int),
            r is None ==> brace_scan(self@.buffer, start as int, 0) is None,
            r matches Some(e) ==> start < e <= self@.buffer.len(),
    {
        let ghost s = self.buffer@;
        let mut depth: usize = 0;
        let mut i = start;
        while i < self.buffer.len()
            invariant
                s == self.buffer@,
                start <= i <= s.len(),
                s[start as int] == '{',
                brace_scan(s, start as int, 0) == brace_scan(s, i as int, depth as int),
                (i == start && depth == 0) || (i > start && 1 <= depth <= i - start),
            decreases s.len() - i,
        {
            let c = self.buffer[i];
            if c == '{' {
                depth = depth + 1;
            } else if c == '}' {
                if depth - 1 == 0 {
                    return Some(i + 1);
                }
                depth = depth - 1;
            }
            i = i + 1;
        }
        None
    }

    /// A bare call object opened by name pattern `k`.
    fn try_raw_exec(&self, k: usize) -> (r: Option<(Vec<(String, String)>, usize, usize)>)
        requires
            k < 3,
        ensures
            r matches Some(t) ==> try_raw(self@, k as int) == Some(advance(self@, raw_views(t.0@), t.1 as int, t.2 as int))
                && t.1 <= t.2 <= self@.buffer.len(),
            r is None ==> try_raw(self@, k as int) is None,
    {
        let ghost content = self.buffer@;
        let pat = name_pattern_exec(k);
        let start = match find_exec(&self.buffer, &pat, 0) {
            Some(i) => i,
            None => return None,
        };
        proof {
            lemma_find_from_bounds(content, pat@, 0);
            assert(content.subrange(start as int, start + pat@.len())[0] == content[start as int]);
        }
        assert(find(content, name_pattern(k as int)) == Some(start as int));
        let end = match self.brace_end(start) {
            Some(e) => e,
            None => {
                assert(brace_scan(content, start as int, 0) is None);
                return None;
            },
        };
        assert(brace_scan(content, start as int, 0) == Some(end as int));
        let raws = match decode_calls_exec(&self.buffer, start, end) {
            Some(v) => v,
            None => return None,
        };
        if raws.len() == 0 {
            return None;
        }
        Some((raws, start, end))
    }

    /// A `<tool_calls>` block.
    fn try_xml_exec(&self) -> (r: Option<(Vec<(String, String)>, usize, usize)>)
        ensures
            r matches Some(t) ==> try_xml(self@) == Some(advance(self@, raw_views(t.0@), t.1 as int, t.2 as int))
                && t.1 <= t.2 <= self@.buffer.len(),
            r is None ==> try_xml(self@) is None,
    {
        let ghost content = self.buffer@;
        let open = vec!['<', 't', 'o', 'o', 'l', '_', 'c', 'a', 'l', 'l', 's', '>'];
        let close = vec!['<', '/', 't', 'o', 'o', 'l', '_', 'c', 'a', 'l', 'l', 's', '>'];
        assert(open@ =~= xml_open());
        assert(close@ =~= xml_close());
        let start = match find_exec(&self.buffer, &open, 0) {
            Some(i) => i,
            None => return None,
        };
        proof {
            lemma_find_from_bounds(content, open@, 0);
        }
        let end = match find_exec(&self.buffer, &close, start) {
            Some(e) => e,
            None => return None,
        };
        proof {
            lemma_find_from_bounds(content, close@, start as int);
            lemma_xml_close_after_open(content, start as int, end as int);
            assert(occurs_at(content, close@, end as int));
        }
        let raws = match decode_calls_exec(&self.buffer, start + 12, end) {
            Some(v) => v,
            None => return None,
        };
        Some((raws, start, end + 13))
    }

    /// The first code block, over all start patterns.
    fn find_block(&self) -> (r: Option<(Vec<(String, String)>, usize, usize)>)
        ensures
            r matches Some(t) ==> try_blocks(self@, 0) == Some(advance(self@, raw_views(t.0@), t.1 as int, t.2 as int))
                && t.1 <= t.2 <= self@.buffer.len(),
            r is None ==> try_blocks(self@, 0) is None,
    {
        let mut k: usize = 0;
        while k < 6
            invariant
                k <= 6,
                try_blocks(self@, 0) == try_blocks(self@, k as int),
            decreases 6 - k,
        {
            let r = self.try_block_exec(k);
            if r.is_some() {
                return r;
            }
            k = k + 1;
        }
        None
    }

    /// The first bare call object, over all name patterns.
    fn find_raw(&self) -> (r: Option<(Vec<(String, String)>, usize, usize)>)
        ensures
            r matches Some(t) ==> try_raws(self@, 0) == Some(advance(self@, raw_views(t.0@), t.1 as int, t.2 as int))
                && t.1 <= t.2 <= self@.buffer.len(),
            r is None ==> try_raws(self@, 0) is None,
    {
        let mut k: usize = 0;
        while k < 3
            invariant
                k <= 3,
                try_raws(self@, 0) == try_raws(self@, k as int),
            decreases 3 - k,
        {
            let r = self.try_raw_exec(k);
            if r.is_some() {
                return r;
            }
            k = k + 1;
        }
        None
    }

    /// The block the next extraction takes, if any: its calls, where it
    /// starts and where it ends.
    fn next_extraction(&self) -> (r: Option<(Vec<(String, String)>, usize, usize)>)
        ensures
            r matches Some(t) ==> extract_step(self@) == advance(self@, raw_views(t.0@), t.1 as int, t.2 as int)
                && t.1 <= t.2 <= self@.buffer.len(),
            r is None ==> extract_step(self@) == self@,
    {
        match self.find_block() {
            Some(t) => Some(t),
            None => {
                if self.in_tool_call {
                    None
                } else {
                    match self.find_raw() {
                        Some(t) => Some(t),
                        None => self.try_xml_exec(),
                    }
                }
            },
        }
    }

    fn try_extract_calls(&mut self)
        requires
            view_wf(old(self)@),
            extract_step(old(self)@).counter <= u32::MAX,
        ensures
            final(self)@ == extract_step(old(self)@),
            view_wf(final(self)@),
    {
        match self.next_extraction() {
            Some((raws, start, after)) => {
                self.apply(raws, start, after);
            },
            None => {},
        }
    }

    /// Appends a chunk to the buffer, with no extraction.
    fn push_chunk(&mut self, chunk: &str)
        ensures
            final(self)@ == (ParserView { buffer: old(self)@.buffer + chunk@, ..old(self)@ }),
    {
        let cs = chars_of(chunk);
        let ghost before = self.buffer@;
        let mut i: usize = 0;
        while i < cs.len()
            invariant
                i <= cs.len(),
                cs@ == chunk@,
                self@ == (ParserView { buffer: before + cs@.take(i as int), ..old(self)@ }),
            decreases cs.len() - i,
        {
            self.buffer.push(cs[i]);
            assert(before + cs@.take(i + 1) =~= (before + cs@.take(i as int)).push(cs@[i as int]));
            i = i + 1;
        }
        assert(cs@.take(i as int) =~= chunk@);
    }

    /// Feeds a text chunk into the parser.
    pub fn feed(&mut self, chunk: &str)
        requires
            old(self).wf(),
            feed_view(old(self)@, chunk@).counter <= u32::MAX,
        ensures
            final(self)@ == feed_view(old(self)@, chunk@),
            final(self).wf(),
    {
        self.push_chunk(chunk);
        self.try_extract_calls();
    }

    /// Feeds a chunk where the calls it completes still get a number: when
    /// they would take the counter past `u32::MAX`, the parser is left as it
    /// was and `false` comes back.
    pub fn try_feed(&mut self, chunk: &str) -> (ok: bool)
        requires
            old(self).wf(),
        ensures
            ok == (feed_view(old(self)@, chunk@).counter <= u32::MAX),
            ok ==> final(self)@ == feed_view(old(self)@, chunk@),
            !ok ==> final(self)@ == old(self)@,
            final(self).wf(),
    {
        let n = self.buffer.len();
        self.push_chunk(chunk);
        match self.next_extraction() {
            Some((raws, start, after)) => {
                if (raws.len() as u64) <= 0xffff_ffffu64 - (self.call_counter as u64) {
                    self.apply(raws, start, after);
                    true
                } else {
                    self.buffer.truncate(n);
                    assert(self.buffer@ =~= old(self)@.buffer);
                    false
                }
            },
            None => true,
        }
    }

    /// Finishes parsing: one last extraction, then the calls found, the text
    /// before the first call and the trimmed rest.
    pub fn finish(self) -> (r: ToolCallParseResult)
        requires
            self.wf(),
            extract_step(self@).counter <= u32::MAX,
        ensures
            result_of(extract_step(self@), r),
            view_wf(extract_step(self@)),
    {
        let mut p = self;
        p.try_extract_calls();
        let has_tool_calls = p.tool_calls.len() > 0;
        let suffix = trim_string(&p.buffer, 0, p.buffer.len());
        assert(p.buffer@.subrange(0, p.buffer@.len() as int) =~= p.buffer@);
        ToolCallParseResult {
            has_tool_calls,
            tool_calls: p.tool_calls,
            prefix_text: p.prefix,
            suffix_text: suffix,
        }
    }

    /// Finishes parsing where the calls of the last extraction still get a
    /// number; `None` when they would take the counter past `u32::MAX`.
    pub fn try_finish(self) -> (r: Option<ToolCallParseResult>)
        requires
            self.wf(),
        ensures
            r is Some <==> extract_step(self@).counter <= u32::MAX,
            r matches Some(p) ==> result_of(extract_step(self@), p),
    {
        match self.next_extraction() {
            Some((raws, _, _)) => {
                if (raws.len() as u64) > 0xffff_ffffu64 - (self.call_counter as u64) {
                    return None;
                }
            },
            None => {},
        }
        Some(self.finish())
    }
}

/// The instructions that teach a browser-driven model to call tools.
pub open spec fn tool_prompt_intro() -> Seq<char> {
    "You have access to the following tools. To call a tool, output a JSON code block with the function call:\n\n```json\n{\"name\": \"function_name\", \"arguments\": {\"param1\": \"value1\"}}\n```\n\nFor multiple tool calls, output an array:\n\n```json\n[{\"name\": \"func1\", \"arguments\": {\"x\": 1}}, {\"name\": \"func2\", \"arguments\": {\"y\": 2}}]\n```\n\nAvailable tools:\n"@
}

/// The system prompt that lists the tools, given their definitions as
/// pretty-printed JSON.
pub fn build_tool_system_prompt(tool_defs_json: &str) -> (r: String)
    ensures
        r@ == tool_prompt_intro() + tool_defs_json@,
{
    let mut out = String::from_str("You have access to the following tools. To call a tool, output a JSON code block with the function call:\n\n```json\n{\"name\": \"function_name\", \"arguments\": {\"param1\": \"value1\"}}\n```\n\nFor multiple tool calls, output an array:\n\n```json\n[{\"name\": \"func1\", \"arguments\": {\"x\": 1}}, {\"name\": \"func2\", \"arguments\": {\"y\": 2}}]\n```\n\nAvailable tools:\n");
    push_str(&mut out, tool_defs_json);
    out
}

/// Whether a text chunk shows a tool call pattern (a quick check while
/// streaming).
pub fn contains_tool_call_pattern(text: &str) -> (r: bool)
    ensures
        r == (find(text@, json_fence()) is Some || find(text@, compact_name_key()) is Some
            || find(text@, xml_open()) is Some),
{
    let cs = chars_of(text);
    let fence = vec!['`', '`', '`', 'j', 's', 'o', 'n'];
    let key = vec!['"', 'n', 'a', 'm', 'e', '"', ':', '"'];
    let open = vec!['<', 't', 'o', 'o', 'l', '_', 'c', 'a', 'l', 'l', 's', '>'];
    assert(fence@ =~= json_fence());
    assert(key@ =~= compact_name_key());
    assert(open@ =~= xml_open());
    find_exec(&cs, &fence, 0).is_some() || find_exec(&cs, &key, 0).is_some() || find_exec(&cs, &open, 0).is_some()
}

/// The calls a whole text holds, fed at once and finished, all get a number
/// that fits a `u32`.
pub open spec fn calls_fit(text: Seq<char>) -> bool {
    extract_step(feed_view(initial_view(), text)).counter <= u32::MAX
}

/// An extraction never takes the counter back.
proof fn lemma_counter_grows(st: ParserView)
    ensures
        st.counter <= extract_step(st).counter,
{
    law_extraction_takes_at_most_one_block(st);
}

/// Parses a whole text for tool calls.
pub fn parse_tool_calls_from_text(text: &str) -> (r: ToolCallParseResult)
    requires
        calls_fit(text@),
    ensures
        result_of(extract_step(feed_view(initial_view(), text@)), r),
        view_wf(extract_step(feed_view(initial_view(), text@))),
        forall|i: int| 0 <= i < r.tool_calls@.len() ==> (#[trigger] r.tool_calls@[i]).id@ == call_id((i + 1) as nat)
            && r.tool_calls@[i].call_type@ == "function"@,
{
    let mut parser = ToolCallParser::new();
    proof {
        lemma_counter_grows(feed_view(initial_view(), text@));
    }
    parser.feed(text);
    let r = parser.finish();
    proof {
        let st = extract_step(feed_view(initial_view(), text@));
        assert forall|i: int| 0 <= i < r.tool_calls@.len() implies (#[trigger] r.tool_calls@[i]).id@ == call_id((i + 1) as nat)
            && r.tool_calls@[i].call_type@ == "function"@ by {
            assert(st.calls[i] == call_view(r.tool_calls@[i]));
        }
    }
    r
}

/// Whether the calls of a whole text all get a number (`calls_fit`).
pub fn tool_calls_fit(text: &str) -> (r: bool)
    ensures
        r == calls_fit(text@),
{
    let mut parser = ToolCallParser::new();
    if !parser.try_feed(text) {
        proof {
            lemma_counter_grows(feed_view(initial_view(), text@));
        }
        return false;
    }
    parser.try_finish().is_some()
}

/// Parses a whole text for tool calls where they all get a number; `None`
/// where they would take the counter past `u32::MAX`.
pub fn try_parse_tool_calls_from_text(text: &str) -> (r: Option<ToolCallParseResult>)
    ensures
        r is Some <==> calls_fit(text@),
        r matches Some(p) ==> result_of(extract_step(feed_view(initial_view(), text@)), p),
{
    if tool_calls_fit(text) {
        Some(parse_tool_calls_from_text(text))
    } else {
        None
    }
}

// ── Laws ───────────────────────────────────────────────────────────────

/// Arguments given as a JSON string are the string's decoded content (the
/// JSON text it holds), not the string literal with its quotes and escapes.
pub proof fn law_string_arguments_are_decoded(raw: Seq<char>)
    requires
        json_string_value(raw) is Some,
    ensures
        arguments_text(Some(raw)) == json_string_value(raw),
{
}

/// Arguments that are neither a string nor null are the value in compact
/// JSON; null or missing arguments are an empty object.
pub proof fn law_other_arguments_are_compacted(raw: Seq<char>)
    requires
        json_string_value(raw) is None,
    ensures
        raw == "null"@ ==> arguments_text(Some(raw)) == Some("{}"@),
        raw != "null"@ ==> arguments_text(Some(raw)) == json_compact(raw),
        arguments_text(None) == Some("{}"@),
{
}

/// A call object whose name and arguments are both JSON strings becomes the
/// call with the decoded name and the decoded arguments.
pub proof fn law_object_call_takes_decoded_strings(text: Seq<char>, members: Seq<(Seq<char>, Seq<char>)>, name_raw: Seq<char>, args_raw: Seq<char>)
    requires
        json_object_members(text) == Some(members),
        member_value(members, "name"@) == Some(name_raw),
        member_value(members, "arguments"@) == Some(args_raw),
        json_string_value(name_raw) is Some,
        json_string_value(args_raw) is Some,
    ensures
        raw_call(text) == Some((json_string_value(name_raw)->Some_0, json_string_value(args_raw)->Some_0)),
{
}

proof fn lemma_occurs_within(s: Seq<char>, p: Seq<char>, q: Seq<char>, i: int, j: int)
    requires
        occurs_at(s, p, i),
        occurs_at(p, q, j),
    ensures
        occurs_at(s, q, i + j),
{
    assert(s.subrange(i + j, i + j + q.len()) =~= p.subrange(j, j + q.len())) by {
        assert forall|t: int| 0 <= t < q.len() implies #[trigger] s.subrange(i + j, i + j + q.len())[t] == p.subrange(j, j + q.len())[t] by {
            assert(s.subrange(i, i + p.len())[j + t] == s[i + j + t]);
        }
    }
}

proof fn lemma_no_occurrence(s: Seq<char>, p: Seq<char>)
    requires
        forall|i: int| 0 <= i ==> !occurs_at(s, p, i),
    ensures
        find(s, p) is None,
{
    lemma_find_from_bounds(s, p, 0);
}

proof fn lemma_start_pattern_has_fence(s: Seq<char>, k: int)
    requires
        0 <= k < 6,
        find(s, json_fence()) is None,
    ensures
        find(s, start_pattern(k)) is None,
{
    lemma_find_from_bounds(s, json_fence(), 0);
    let off: int = if k == 0 || k == 1 || k == 4 { 1 } else { 0 };
    assert(occurs_at(start_pattern(k), json_fence(), off)) by {
        assert(start_pattern(k).subrange(off, off + 7) =~= json_fence());
    }
    assert forall|i: int| 0 <= i implies !occurs_at(s, start_pattern(k), i) by {
        if occurs_at(s, start_pattern(k), i) {
            lemma_occurs_within(s, start_pattern(k), json_fence(), i, off);
        }
    }
    lemma_no_occurrence(s, start_pattern(k));
}

/// Text with no code fence, no bare call opening and no `<tool_calls>` tag
/// holds no tool call: parsing it finds none, keeps no prefix and gives the
/// whole text back (trimmed) as the rest.
pub proof fn law_plain_text_has_no_tool_calls(text: Seq<char>)
    requires
        find(text, json_fence()) is None,
        find(text, name_pattern(0)) is None,
        find(text, name_pattern(1)) is None,
        find(text, name_pattern(2)) is None,
        find(text, xml_open()) is None,
    ensures
        feed_view(initial_view(), text) == (ParserView { buffer: text, ..initial_view() }),
        extract_step(feed_view(initial_view(), text)) == (ParserView { buffer: text, ..initial_view() }),
{
    let st = ParserView { buffer: text, ..initial_view() };
    assert(st.buffer == initial_view().buffer + text);
    lemma_start_pattern_has_fence(text, 0);
    lemma_start_pattern_has_fence(text, 1);
    lemma_start_pattern_has_fence(text, 2);
    lemma_start_pattern_has_fence(text, 3);
    lemma_start_pattern_has_fence(text, 4);
    lemma_start_pattern_has_fence(text, 5);
    assert(try_blocks(st, 6) is None);
    assert(try_blocks(st, 5) is None);
    assert(try_blocks(st, 4) is None);
    assert(try_blocks(st, 3) is None);
    assert(try_blocks(st, 2) is None);
    assert(try_blocks(st, 1) is None);
    assert(try_blocks(st, 0) is None);
    assert(try_raws(st, 3) is None);
    assert(try_raws(st, 2) is None);
    assert(try_raws(st, 1) is None);
    assert(try_raws(st, 0) is None);
    assert(try_xml(st) is None);
    assert(initial_view().buffer + text =~= text);
}


// ── What one extraction does ───────────────────────────────────────────

proof fn lemma_brace_scan_bounds(s: Seq<char>, i: int, depth: int)
    ensures
        brace_scan(s, i, depth) matches Some(e) ==> i < e <= s.len(),
    decreases s.len() - i,
{
    if 0 <= i < s.len() {
        lemma_brace_scan_bounds(s, i + 1, depth + 1);
        lemma_brace_scan_bounds(s, i + 1, depth - 1);
        lemma_brace_scan_bounds(s, i + 1, depth);
    }
}

/// `s` is `st` with one block taken: the calls it held added, numbered on,
/// and the buffer cut after it.
pub open spec fn takes_one_block(st: ParserView, s: ParserView) -> bool {
    exists|raws: Seq<(Seq<char>, Seq<char>)>, start: int, after: int|
        0 <= start <= after <= st.buffer.len() && #[trigger] advance(st, raws, start, after) == s
}

proof fn lemma_block_takes_one(st: ParserView, k: int)
    requires
        try_block(st, k) is Some,
    ensures
        takes_one_block(st, try_block(st, k)->Some_0),
{
    let content = st.buffer;
    lemma_find_from_bounds(content, start_pattern(k), 0);
    let start_idx = find(content, start_pattern(k))->Some_0;
    let json_start = start_idx + start_pattern(k).len();
    lemma_find_from_bounds(content, end_pattern(), json_start);
    let end_idx = find_from(content, end_pattern(), json_start)->Some_0;
    let raws = decode_calls(trim(content.subrange(json_start, end_idx)))->Some_0;
    assert(try_block(st, k)->Some_0 == advance(st, raws, start_idx, end_idx + end_pattern().len()));
}

proof fn lemma_blocks_take_one(st: ParserView, k: int)
    requires
        try_blocks(st, k) is Some,
    ensures
        takes_one_block(st, try_blocks(st, k)->Some_0),
    decreases 6 - k,
{
    if 0 <= k < 6 {
        if try_block(st, k) is Some {
            lemma_block_takes_one(st, k);
        } else {
            lemma_blocks_take_one(st, k + 1);
        }
    }
}

proof fn lemma_raw_takes_one(st: ParserView, k: int)
    requires
        try_raw(st, k) is Some,
    ensures
        takes_one_block(st, try_raw(st, k)->Some_0),
{
    let content = st.buffer;
    lemma_find_from_bounds(content, name_pattern(k), 0);
    let start = find(content, name_pattern(k))->Some_0;
    lemma_brace_scan_bounds(content, start, 0);
    let end = brace_scan(content, start, 0)->Some_0;
    let raws = decode_calls(content.subrange(start, end))->Some_0;
    assert(try_raw(st, k)->Some_0 == advance(st, raws, start, end));
}

proof fn lemma_raws_take_one(st: ParserView, k: int)
    requires
        try_raws(st, k) is Some,
    ensures
        takes_one_block(st, try_raws(st, k)->Some_0),
    decreases 3 - k,
{
    if 0 <= k < 3 {
        if try_raw(st, k) is Some {
            lemma_raw_takes_one(st, k);
        } else {
            lemma_raws_take_one(st, k + 1);
        }
    }
}

proof fn lemma_xml_takes_one(st: ParserView)
    requires
        try_xml(st) is Some,
    ensures
        takes_one_block(st, try_xml(st)->Some_0),
{
    let content = st.buffer;
    lemma_find_from_bounds(content, xml_open(), 0);
    let start = find(content, xml_open())->Some_0;
    lemma_find_from_bounds(content, xml_close(), start);
    let end = find_from(content, xml_close(), start)->Some_0;
    let raws = decode_calls(content.subrange(start + xml_open().len(), end))->Some_0;
    assert(try_xml(st)->Some_0 == advance(st, raws, start, end + xml_close().len()));
}

/// One extraction either leaves the parser as it was or takes exactly one
/// block: the calls the block holds are added, numbered on from the
/// counter, and the buffer keeps only what followed the block.
pub proof fn law_extraction_takes_at_most_one_block(st: ParserView)
    ensures
        extract_step(st) == st || takes_one_block(st, extract_step(st)),
{
    if try_blocks(st, 0) is Some {
        lemma_blocks_take_one(st, 0);
    } else if !st.in_tool_call {
        if try_raws(st, 0) is Some {
            lemma_raws_take_one(st, 0);
        } else if try_xml(st) is Some {
            lemma_xml_takes_one(st);
        }
    }
}

/// Once a call was found, the prefix and the flag stay, through any later
/// extraction and any later feed, and only code blocks are looked for.
pub proof fn law_calls_keep_prefix(st: ParserView, chunk: Seq<char>)
    requires
        st.in_tool_call,
    ensures
        extract_step(st) == (match try_blocks(st, 0) {
            Some(s) => s,
            None => st,
        }),
        extract_step(st).in_tool_call,
        extract_step(st).prefix == st.prefix,
        feed_view(st, chunk).in_tool_call,
        feed_view(st, chunk).prefix == st.prefix,
{
    if try_blocks(st, 0) is Some {
        lemma_blocks_take_one(st, 0);
    }
    let fed = ParserView { buffer: st.buffer + chunk, ..st };
    if try_blocks(fed, 0) is Some {
        lemma_blocks_take_one(fed, 0);
    }
}

// ── Feeding a text in pieces ───────────────────────────────────────────

/// The pieces put together.
pub open spec fn joined(chunks: Seq<Seq<char>>) -> Seq<char>
    decreases chunks.len(),
{
    if chunks.len() == 0 {
        Seq::empty()
    } else {
        joined(chunks.drop_last()) + chunks.last()
    }
}

/// The parser after the pieces were fed, one after another.
pub open spec fn feed_all(st: ParserView, chunks: Seq<Seq<char>>) -> ParserView
    decreases chunks.len(),
{
    if chunks.len() == 0 {
        st
    } else {
        feed_view(feed_all(st, chunks.drop_last()), chunks.last())
    }
}

/// No code fence, no bare call opening and no `<tool_calls>` tag.
pub open spec fn plain_text(text: Seq<char>) -> bool {
    &&& find(text, json_fence()) is None
    &&& find(text, name_pattern(0)) is None
    &&& find(text, name_pattern(1)) is None
    &&& find(text, name_pattern(2)) is None
    &&& find(text, xml_open()) is None
}

proof fn lemma_no_find_in_prefix(a: Seq<char>, b: Seq<char>, p: Seq<char>)
    requires
        find(a + b, p) is None,
    ensures
        find(a, p) is None,
{
    lemma_find_from_bounds(a, p, 0);
    lemma_find_from_bounds(a + b, p, 0);
    if find(a, p) is Some {
        let k = find(a, p)->Some_0;
        assert((a + b).subrange(k, k + p.len()) =~= a.subrange(k, k + p.len()));
        assert(occurs_at(a + b, p, k));
    }
}

/// Plain text fed in any number of pieces holds no tool call: the parser
/// only gathers it, and a last extraction finds nothing either.
pub proof fn law_plain_pieces_have_no_tool_calls(chunks: Seq<Seq<char>>)
    requires
        plain_text(joined(chunks)),
    ensures
        feed_all(initial_view(), chunks) == (ParserView { buffer: joined(chunks), ..initial_view() }),
        extract_step(feed_all(initial_view(), chunks)) == (ParserView { buffer: joined(chunks), ..initial_view() }),
    decreases chunks.len(),
{
    let t = joined(chunks);
    law_plain_text_has_no_tool_calls(t);
    assert(initial_view().buffer + t =~= t);
    if chunks.len() == 0 {
        assert(initial_view() == (ParserView { buffer: t, ..initial_view() }));
    } else {
        let a = joined(chunks.drop_last());
        let b = chunks.last();
        lemma_no_find_in_prefix(a, b, json_fence());
        lemma_no_find_in_prefix(a, b, name_pattern(0));
        lemma_no_find_in_prefix(a, b, name_pattern(1));
        lemma_no_find_in_prefix(a, b, name_pattern(2));
        lemma_no_find_in_prefix(a, b, xml_open());
        law_plain_pieces_have_no_tool_calls(chunks.drop_last());
        let p = ParserView { buffer: a, ..initial_view() };
        assert(ParserView { buffer: p.buffer + b, ..p } == ParserView { buffer: t, ..initial_view() });
    }
}

// ── The texts handed back are trimmed ──────────────────────────────────

proof fn lemma_step_keeps_prefix_trimmed(st: ParserView)
    requires
        trim(st.prefix) == st.prefix,
    ensures
        trim(extract_step(st).prefix) == extract_step(st).prefix,
{
    law_extraction_takes_at_most_one_block(st);
    if extract_step(st) != st {
        let (raws, start, after) = choose|raws: Seq<(Seq<char>, Seq<char>)>, start: int, after: int|
            0 <= start <= after <= st.buffer.len() && #[trigger] advance(st, raws, start, after) == extract_step(st);
        if !st.in_tool_call {
            lemma_trim_idempotent(st.buffer.subrange(0, start));
        }
    }
}

proof fn lemma_fed_prefix_trimmed(chunks: Seq<Seq<char>>)
    ensures
        trim(feed_all(initial_view(), chunks).prefix) == feed_all(initial_view(), chunks).prefix,
    decreases chunks.len(),
{
    if chunks.len() == 0 {
        assert(trim(Seq::<char>::empty()) =~= Seq::<char>::empty());
    } else {
        lemma_fed_prefix_trimmed(chunks.drop_last());
        let p = feed_all(initial_view(), chunks.drop_last());
        lemma_step_keeps_prefix_trimmed(ParserView { buffer: p.buffer + chunks.last(), ..p });
    }
}

/// Whatever pieces were fed, the text before the calls and the rest that
/// `finish` hands back (the last state's prefix and its trimmed buffer) are
/// already trimmed.
pub proof fn law_finished_texts_are_trimmed(chunks: Seq<Seq<char>>)
    ensures
        trim(extract_step(feed_all(initial_view(), chunks)).prefix) == extract_step(feed_all(initial_view(), chunks)).prefix,
        trim(trim(extract_step(feed_all(initial_view(), chunks)).buffer))
            == trim(extract_step(feed_all(initial_view(), chunks)).buffer),
{
    lemma_fed_prefix_trimmed(chunks);
    lemma_step_keeps_prefix_trimmed(feed_all(initial_view(), chunks));
    lemma_trim_idempotent(extract_step(feed_all(initial_view(), chunks)).buffer);
}

} // verus!
