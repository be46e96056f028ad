//! The chat page engine: the tokens a chat page streams over its WebSocket,
//! the wait for a streamed answer to end, and the keys typed into the page.
use vstd::prelude::*;
use crate::cdp::events::{member_of, member_text, CdpEvent, WebSocketFrame};
use crate::json::{
    array_items, compact, i64_value, json_array_parse, json_compact, json_i64_value, json_string_value,
    string_value,
};
use crate::text::{
    chars_of, find_exec, find_from, lemma_find_from_bounds, push_str, starts_with, string_of, trim,
    trim_bounds,
};
use crate::tool_parser::{string_member, string_member_of};

verus! {

broadcast use vstd::seq_lib::group_seq_properties;

// ── Tokens in frames ───────────────────────────────────────────────────

/// `choices[0].delta.content` of a JSON text, when it is a string.
pub open spec fn openai_content(json: Seq<char>) -> Option<Seq<char>> {
    match member_of(json, "choices"@) {
        Some(c) => match json_array_parse(c) {
            Ok(items) => if items.len() > 0 {
                match member_of(items[0], "delta"@) {
                    Some(d) => string_member(d, "content"@),
                    None => None,
                }
            } else {
                None
            },
            Err(_) => None,
        },
        None => None,
    }
}

pub fn openai_content_exec(json: &str) -> (r: Option<String>)
    ensures
        r matches Some(v) ==> openai_content(json@) == Some(v@),
        r is None ==> openai_content(json@) is None,
{
    let choices = match member_text(json, "choices") {
        Some(c) => c,
        None => return None,
    };
    let items = match array_items(choices.as_str()) {
        Ok(v) => v,
        Err(_) => return None,
    };
    if items.len() == 0 {
        return None;
    }
    assert(crate::json::texts(items@)[0] == items@[0]@);
    match member_text(items[0].as_str(), "delta") {
        Some(d) => string_member_of(d.as_str(), "content"),
        None => None,
    }
}

/// What one (trimmed) line of an SSE-style frame gives.
pub enum LineStep {
    /// `data: [DONE]`: the stream's end, no token.
    Stop,
    /// A token.
    Token(Seq<char>),
    /// Nothing here; read the next line.
    Next,
}

pub open spec fn sse_prefix() -> Seq<char> {
    seq!['d', 'a', 't', 'a', ':', ' ']
}

pub open spec fn line_step(line: Seq<char>) -> LineStep {
    if line == "data: [DONE]"@ {
        LineStep::Stop
    } else if starts_with(line, sse_prefix()) {
        let json = line.skip(6);
        if json_compact(json) is Some {
            match openai_content(json) {
                Some(c) if c.len() > 0 => LineStep::Token(c),
                _ => match string_member(json, "content"@) {
                    Some(c) => LineStep::Token(c),
                    None => LineStep::Next,
                },
            }
        } else {
            LineStep::Next
        }
    } else {
        LineStep::Next
    }
}

/// The token of an SSE-style payload, read line by line from `start`: the
/// first line that gives a token or ends the stream decides.
pub open spec fn sse_scan(s: Seq<char>, start: int) -> Option<Seq<char>>
    decreases s.len() - start,
{
    if start < 0 || start >= s.len() {
        None
    } else {
        match find_from(s, seq!['\n'], start) {
            Some(i) => {
                proof {
                    lemma_find_from_bounds(s, seq!['\n'], start);
                }
                match line_step(trim(s.subrange(start, i))) {
                    LineStep::Stop => None,
                    LineStep::Token(t) => Some(t),
                    LineStep::Next => sse_scan(s, i + 1),
                }
            },
            None => match line_step(trim(s.subrange(start, s.len() as int))) {
                LineStep::Token(t) => Some(t),
                _ => None,
            },
        }
    }
}

/// The text token a chat page's WebSocket frame carries, if any: binary
/// frames carry none; SSE-style payloads (`data: ...` lines) are read line
/// by line; JSON payloads give their `choices[0].delta.content`, their
/// `content`, or the string they are; other text that does not open like
/// JSON is a token as it is.
pub open spec fn chat_token(payload: Seq<char>, is_binary: bool) -> Option<Seq<char>> {
    if is_binary {
        None
    } else if starts_with(payload, sse_prefix()) {
        sse_scan(payload, 0)
    } else {
        let parsed = json_compact(payload) is Some;
        if parsed && openai_content(payload) is Some {
            openai_content(payload)
        } else if parsed && string_member(payload, "content"@) is Some {
            string_member(payload, "content"@)
        } else if parsed && json_string_value(payload) is Some {
            json_string_value(payload)
        } else if payload.len() > 0 && payload[0] != '{' && payload[0] != '[' {
            Some(payload)
        } else {
            None
        }
    }
}

enum LineOutcome {
    Stop,
    Token(String),
    Next,
}

fn line_outcome(cs: &Vec<char>, from: usize, to: usize) -> (r: LineOutcome)
    requires
        from <= to <= cs.len(),
    ensures
        match line_step(trim(cs@.subrange(from as int, to as int))) {
            LineStep::Stop => r is Stop,
            LineStep::Token(t) => r matches LineOutcome::Token(x) && x@ == t,
            LineStep::Next => r is Next,
        },
{
    let line = crate::text::trim_string(cs, from, to);
    proof {
        reveal_strlit("data: [DONE]");
    }
    if line == String::from_str("data: [DONE]") {
        return LineOutcome::Stop;
    }
    let lc = chars_of(line.as_str());
    let n = lc.len();
    let is_data = n >= 6 && lc[0] == 'd' && lc[1] == 'a' && lc[2] == 't' && lc[3] == 'a' && lc[4] == ':' && lc[5] == ' ';
    proof {
        if n >= 6 {
            if is_data {
                assert(lc@.subrange(0, 6) =~= sse_prefix());
            } else {
                assert(lc@.subrange(0, 6) != sse_prefix()) by {
                    if lc@.subrange(0, 6) == sse_prefix() {
                        assert(lc@.subrange(0, 6)[0] == lc@[0]);
                        assert(lc@.subrange(0, 6)[1] == lc@[1]);
                        assert(lc@.subrange(0, 6)[2] == lc@[2]);
                        assert(lc@.subrange(0, 6)[3] == lc@[3]);
                        assert(lc@.subrange(0, 6)[4] == lc@[4]);
                        assert(lc@.subrange(0, 6)[5] == lc@[5]);
                    }
                }
            }
        }
    }
    if !is_data {
        return LineOutcome::Next;
    }
    let json = string_of(&lc, 6, n);
    assert(json@ == line@.skip(6));
    if compact(json.as_str()).is_none() {
        return LineOutcome::Next;
    }
    if let Some(c) = openai_content_exec(json.as_str()) {
        if !c.as_str().is_empty() {
            return LineOutcome::Token(c);
        }
    }
    match string_member_of(json.as_str(), "content") {
        Some(c) => LineOutcome::Token(c),
        None => LineOutcome::Next,
    }
}

fn sse_token(cs: &Vec<char>) -> (r: Option<String>)
    ensures
        r matches Some(t) ==> sse_scan(cs@, 0) == Some(t@),
        r is None ==> sse_scan(cs@, 0) is None,
{
    let n = cs.len();
    let nl = vec!['\n'];
    assert(nl@ =~= seq!['\n']);
    let mut start: usize = 0;
    while start < n
        invariant
            start <= n,
            n == cs.len(),
            nl@ == seq!['\n'],
            sse_scan(cs@, 0) == sse_scan(cs@, start as int),
        decreases n - start,
    {
        let found = find_exec(cs, &nl, start);
        proof {
            lemma_find_from_bounds(cs@, nl@, start as int);
        }
        match found {
            Some(i) => {
                let o = line_outcome(cs, start, i);
                assert(sse_scan(cs@, start as int) == match line_step(trim(cs@.subrange(start as int, i as int))) {
                    LineStep::Stop => None,
                    LineStep::Token(t) => Some(t),
                    LineStep::Next => sse_scan(cs@, i + 1),
                });
                match o {
                    LineOutcome::Stop => return None,
                    LineOutcome::Token(t) => return Some(t),
                    LineOutcome::Next => {},
                }
                start = i + 1;
            },
            None => {
                let o = line_outcome(cs, start, n);
                return match o {
                    LineOutcome::Token(t) => Some(t),
                    _ => None,
                };
            },
        }
    }
    None
}

/// Parse a chat response token from a WebSocket frame payload.
pub fn parse_chat_token(frame: &WebSocketFrame) -> (r: Option<String>)
    ensures
        r matches Some(t) ==> chat_token(frame.payload@, frame.is_binary) == Some(t@),
        r is None ==> chat_token(frame.payload@, frame.is_binary) is None,
{
    if frame.is_binary {
        return None;
    }
    let cs = chars_of(frame.payload.as_str());
    let n = cs.len();
    let is_sse = n >= 6 && cs[0] == 'd' && cs[1] == 'a' && cs[2] == 't' && cs[3] == 'a' && cs[4] == ':' && cs[5] == ' ';
    proof {
        if n >= 6 {
            if is_sse {
                assert(cs@.subrange(0, 6) =~= sse_prefix());
            } else {
                assert(cs@.subrange(0, 6) != sse_prefix()) by {
                    if cs@.subrange(0, 6) == sse_prefix() {
                        assert(cs@.subrange(0, 6)[0] == cs@[0]);
                        assert(cs@.subrange(0, 6)[1] == cs@[1]);
                        assert(cs@.subrange(0, 6)[2] == cs@[2]);
                        assert(cs@.subrange(0, 6)[3] == cs@[3]);
                        assert(cs@.subrange(0, 6)[4] == cs@[4]);
                        assert(cs@.subrange(0, 6)[5] == cs@[5]);
                    }
                }
            }
        }
    }
    if is_sse {
        return sse_token(&cs);
    }
    let parsed = compact(frame.payload.as_str()).is_some();
    if parsed {
        if let Some(c) = openai_content_exec(frame.payload.as_str()) {
            return Some(c);
        }
        if let Some(c) = string_member_of(frame.payload.as_str(), "content") {
            return Some(c);
        }
        if let Some(t) = string_value(frame.payload.as_str()) {
            return Some(t);
        }
    }
    if n > 0 && cs[0] != '{' && cs[0] != '[' {
        return Some(frame.payload.clone());
    }
    None
}

// ── Waiting for the answer ─────────────────────────────────────────────

/// How long the answer may stay silent once it has started, in milliseconds.
pub open spec fn silence_ms() -> u64 {
    500
}

/// How long the answer may take to start, in milliseconds.
pub open spec fn start_ms() -> u64 {
    30000
}

pub fn silence_timeout_ms() -> (r: u64)
    ensures
        r == silence_ms(),
{
    500
}

pub fn start_timeout_ms() -> (r: u64)
    ensures
        r == start_ms(),
{
    30000
}

/// The wait for a streamed answer: the text gathered so far, and whether
/// the first frame has come.
pub struct ResponseWait {
    text: String,
    got_first_frame: bool,
}

pub struct WaitView {
    pub text: Seq<char>,
    pub got_first_frame: bool,
}

impl View for ResponseWait {
    type V = WaitView;

    closed spec fn view(&self) -> WaitView {
        WaitView { text: self.text@, got_first_frame: self.got_first_frame }
    }
}

impl ResponseWait {
    pub fn new() -> (r: Self)
        ensures
            r@ == (WaitView { text: Seq::empty(), got_first_frame: false }),
    {
        ResponseWait { text: String::new(), got_first_frame: false }
    }

    /// How long to wait for the next event, given the time left before the
    /// answer must start: the silence timeout once it has started; before
    /// that, the time left, and an error when none is left.
    pub fn next_timeout(&self, start_left_ms: u64) -> (r: Result<u64, String>)
        ensures
            self@.got_first_frame ==> r == Ok::<u64, String>(silence_ms()),
            !self@.got_first_frame && start_left_ms > 0 ==> r == Ok::<u64, String>(start_left_ms),
            !self@.got_first_frame && start_left_ms == 0 ==> (r matches Err(m) && m@ == "Timed out waiting for response to start"@),
    {
        if self.got_first_frame {
            Ok(500)
        } else if start_left_ms == 0 {
            Err(String::from_str("Timed out waiting for response to start"))
        } else {
            Ok(start_left_ms)
        }
    }

    /// Takes one event; true when the answer is over. A received frame
    /// marks the start and adds its token; a page reload after the start
    /// ends the answer; anything else is passed over.
    pub fn on_event(&mut self, event: &CdpEvent) -> (done: bool)
        ensures
            match event {
                CdpEvent::WebSocketFrameReceived { response, .. } => {
                    &&& !done
                    &&& final(self)@.got_first_frame
                    &&& final(self)@.text == old(self)@.text + match chat_token(response.payload@, response.is_binary) {
                        Some(t) => t,
                        None => Seq::empty(),
                    }
                },
                CdpEvent::DomReady => done == old(self)@.got_first_frame && final(self)@ == old(self)@,
                _ => !done && final(self)@ == old(self)@,
            },
    {
        match event {
            CdpEvent::WebSocketFrameReceived { response, .. } => {
                self.got_first_frame = true;
                if let Some(token) = parse_chat_token(response) {
                    push_str(&mut self.text, token.as_str());
                } else {
                    assert(old(self)@.text + Seq::<char>::empty() =~= old(self)@.text);
                }
                false
            },
            CdpEvent::DomReady => self.got_first_frame,
            _ => false,
        }
    }

    /// The wait timed out: the answer is over once it has started.
    pub fn on_silence(&self) -> (done: bool)
        ensures
            done == self@.got_first_frame,
    {
        self.got_first_frame
    }

    /// The answer gathered.
    pub fn into_text(self) -> (r: String)
        ensures
            r@ == self@.text,
    {
        self.text
    }
}

// ── Keys and nodes ─────────────────────────────────────────────────────

/// Calls `rand::random` for a `u64`. Nothing is claimed of the number.
#[verifier::external_body]
fn random_u64() -> u64 {
    rand::random::<u64>()
}

/// The pause between keystrokes that a drawn number `x` gives: 2 ms and
/// `x` modulo 6 more, so 2 to 7 milliseconds.
pub open spec fn jitter_for(x: u64) -> int {
    2 + x % 6
}

/// The pause between keystrokes for a drawn number (`jitter_for`).
pub fn jitter_of(x: u64) -> (r: u64)
    ensures
        r == jitter_for(x),
{
    2 + x % 6
}

/// A humanized pause between keystrokes: `jitter_of` a random number.
pub fn jitter_ms() -> (r: u64)
    ensures
        2 <= r <= 7,
        exists|x: u64| r == #[trigger] jitter_for(x),
{
    let x = random_u64();
    jitter_of(x)
}

pub open spec fn char_code(c: char) -> Seq<char> {
    if c == ' ' { "Space"@ }
    else if c == '\n' || c == '\r' { "Enter"@ }
    else if c == '\t' { "Tab"@ }
    else if 'a' <= c <= 'z' || 'A' <= c <= 'Z' { "KeyA"@ }
    else if '0' <= c <= '9' { "Digit0"@ }
    else if c == '.' || c == '>' { "Period"@ }
    else if c == ',' || c == '<' { "Comma"@ }
    else if c == '!' { "Digit1"@ }
    else if c == '?' || c == '/' { "Slash"@ }
    else if c == '-' || c == '_' { "Minus"@ }
    else if c == '\\' || c == '|' { "Backslash"@ }
    else if c == '\'' || c == '"' { "Quote"@ }
    else if c == '(' || c == ')' { "Digit9"@ }
    else if c == '[' || c == '{' { "BracketLeft"@ }
    else if c == ']' || c == '}' { "BracketRight"@ }
    else if c == '@' { "Digit2"@ }
    else if c == '#' { "Digit3"@ }
    else if c == '$' { "Digit4"@ }
    else if c == '%' { "Digit5"@ }
    else if c == '^' { "Digit6"@ }
    else if c == '&' { "Digit7"@ }
    else if c == '*' { "Digit8"@ }
    else if c == '=' || c == '+' { "Equal"@ }
    else if c == ';' || c == ':' { "Semicolon"@ }
    else if c == '`' || c == '~' { "Backquote"@ }
    else { "Unidentified"@ }
}

/// Map a character to a plausible `code` value for CDP key events (one key
/// stands for each group: letters are `KeyA`, digits `Digit0`).
pub fn char_to_code(ch: char) -> (r: &'static str)
    ensures
        r@ == char_code(ch),
{
    match ch {
        ' ' => "Space",
        '\n' | '\r' => "Enter",
        '\t' => "Tab",
        'a'..='z' => "KeyA",
        'A'..='Z' => "KeyA",
        '0'..='9' => "Digit0",
        '.' => "Period",
        ',' => "Comma",
        '!' => "Digit1",
        '?' => "Slash",
        '-' => "Minus",
        '_' => "Minus",
        '/' => "Slash",
        '\\' => "Backslash",
        '\'' => "Quote",
        '"' => "Quote",
        '(' | ')' => "Digit9",
        '[' | '{' => "BracketLeft",
        ']' | '}' => "BracketRight",
        '@' => "Digit2",
        '#' => "Digit3",
        '$' => "Digit4",
        '%' => "Digit5",
        '^' => "Digit6",
        '&' => "Digit7",
        '*' => "Digit8",
        '=' => "Equal",
        '+' => "Equal",
        ';' => "Semicolon",
        ':' => "Semicolon",
        '`' => "Backquote",
        '~' => "Backquote",
        '|' => "Backslash",
        '<' => "Comma",
        '>' => "Period",
        _ => "Unidentified",
    }
}

/// The selectors tried, in order, to find the chat input.
pub open spec fn input_selectors() -> Seq<Seq<char>> {
    seq!["textarea"@, "[contenteditable='true']"@, "#chat-input"@, "[data-testid='chat-input']"@, ".chat-input"@]
}

pub fn chat_input_selectors() -> (r: Vec<&'static str>)
    ensures
        r@.map_values(|s: &str| s@) == input_selectors(),
{
    let r = vec!["textarea", "[contenteditable='true']", "#chat-input", "[data-testid='chat-input']", ".chat-input"];
    assert(r@.map_values(|s: &str| s@) =~= input_selectors());
    r
}

/// The node a `DOM.querySelector` result names: its `nodeId`, when it is a
/// number other than 0 (0 means nothing matched).
pub open spec fn found_node(result: Seq<char>) -> Option<i64> {
    match member_of(result, "nodeId"@) {
        Some(t) => match json_i64_value(t) {
            Some(n) => if n != 0 { Some(n) } else { None },
            None => None,
        },
        None => None,
    }
}

pub fn selected_node(result: &str) -> (r: Option<i64>)
    ensures
        r == found_node(result@),
{
    match member_text(result, "nodeId") {
        Some(t) => match i64_value(t.as_str()) {
            Some(n) => if n != 0 { Some(n) } else { None },
            None => None,
        },
        None => None,
    }
}

/// What a `DOM.getDocument` result says of the root node: nothing when it
/// has no `root`, else the root's `nodeId` (when it is a number).
pub open spec fn document_root(doc: Seq<char>) -> Option<Option<i64>> {
    match member_of(doc, "root"@) {
        Some(root) => Some(match member_of(root, "nodeId"@) {
            Some(t) => json_i64_value(t),
            None => None,
        }),
        None => None,
    }
}

pub fn root_node(doc: &str) -> (r: Option<Option<i64>>)
    ensures
        r == document_root(doc@),
{
    match member_text(doc, "root") {
        Some(root) => Some(match member_text(root.as_str(), "nodeId") {
            Some(t) => i64_value(t.as_str()),
            None => None,
        }),
        None => None,
    }
}

} // verus!
