//! Messages on the DevTools WebSocket: commands going out, and the responses
//! and events coming back.
use vstd::prelude::*;
use crate::json::{
    array_items, compact, i32_value, json_array_parse, json_compact, json_i32_value, json_object_members, json_quoted,
    json_string_value, json_u64_value, object_members, quote, string_value, texts, u64_value,
};
use crate::text::{decimal, push_decimal, push_str};
use crate::tool_parser::{member_value, member_value_exec, string_member, string_member_of};

verus! {

// ── JSON members ───────────────────────────────────────────────────────

/// The JSON text of the member `key` of an object text (`None` when the text
/// is not an object or has no such member): what `Value::get` finds.
pub open spec fn member_of(text: Seq<char>, key: Seq<char>) -> Option<Seq<char>> {
    match json_object_members(text) {
        Some(m) => member_value(m, key),
        None => None,
    }
}

pub fn member_text(text: &str, key: &str) -> (r: Option<String>)
    ensures
        r matches Some(v) ==> member_of(text@, key@) == Some(v@),
        r is None ==> member_of(text@, key@) is None,
{
    match object_members(text) {
        Some(m) => member_value_exec(&m, key),
        None => None,
    }
}

/// `string_member` of an optional text.
pub open spec fn string_member_in(text: Option<Seq<char>>, key: Seq<char>) -> Option<Seq<char>> {
    match text {
        Some(t) => string_member(t, key),
        None => None,
    }
}

fn string_member_in_exec(text: &Option<String>, key: &str) -> (r: Option<String>)
    ensures
        r matches Some(v) ==> string_member_in(match text { Some(t) => Some(t@), None => None }, key@) == Some(v@),
        r is None ==> string_member_in(match text { Some(t) => Some(t@), None => None }, key@) is None,
{
    match text {
        Some(t) => string_member_of(t.as_str(), key),
        None => None,
    }
}

fn or_text(v: Option<String>, default: &str) -> (r: String)
    ensures
        r@ == (match v { Some(s) => s@, None => default@ }),
{
    match v {
        Some(s) => s,
        None => String::from_str(default),
    }
}

// ── Events ─────────────────────────────────────────────────────────────

/// A frame on the page's own WebSocket.
#[derive(Debug, Clone)]
pub struct WebSocketFrame {
    pub payload: String,
    pub is_binary: bool,
}

/// Events emitted by the CDP engine. A frame's time stamp is carried as the
/// JSON text it came as (a number of seconds), for the caller to read.
#[derive(Debug, Clone)]
pub enum CdpEvent {
    /// A WebSocket frame was received by the browser (from the chat LLM server).
    WebSocketFrameReceived { request_id: String, timestamp: Option<String>, response: WebSocketFrame },
    /// A WebSocket frame was sent by the browser (to the chat LLM server).
    WebSocketFrameSent { request_id: String, timestamp: Option<String>, response: WebSocketFrame },
    /// Page navigation occurred.
    PageNavigated { url: String },
    /// DOM document is ready.
    DomReady,
    /// A CDP event we don't specifically handle, with its parameters' JSON text.
    Unknown { method: String, params: String },
}

pub struct FrameView {
    pub request_id: Seq<char>,
    pub timestamp: Option<Seq<char>>,
    pub payload: Seq<char>,
    pub is_binary: bool,
}

pub enum EventSpec {
    FrameReceived(FrameView),
    FrameSent(FrameView),
    PageNavigated(Seq<char>),
    DomReady,
    Unknown(Seq<char>, Seq<char>),
}

pub open spec fn opt_view(o: Option<String>) -> Option<Seq<char>> {
    match o {
        Some(s) => Some(s@),
        None => None,
    }
}

pub open spec fn cdp_event_view(e: CdpEvent) -> EventSpec {
    match e {
        CdpEvent::WebSocketFrameReceived { request_id, timestamp, response } => EventSpec::FrameReceived(FrameView {
            request_id: request_id@, timestamp: opt_view(timestamp), payload: response.payload@, is_binary: response.is_binary,
        }),
        CdpEvent::WebSocketFrameSent { request_id, timestamp, response } => EventSpec::FrameSent(FrameView {
            request_id: request_id@, timestamp: opt_view(timestamp), payload: response.payload@, is_binary: response.is_binary,
        }),
        CdpEvent::PageNavigated { url } => EventSpec::PageNavigated(url@),
        CdpEvent::DomReady => EventSpec::DomReady,
        CdpEvent::Unknown { method, params } => EventSpec::Unknown(method@, params@),
    }
}

/// The frame described by a frame event's parameters: an empty request id
/// or payload when missing, binary when the opcode is 2.
pub open spec fn frame_of(params: Seq<char>) -> FrameView {
    let response = member_of(params, "response"@);
    FrameView {
        request_id: match string_member(params, "requestId"@) { Some(s) => s, None => Seq::empty() },
        timestamp: member_of(params, "timestamp"@),
        payload: match string_member_in(response, "payloadData"@) { Some(s) => s, None => Seq::empty() },
        is_binary: match response {
            Some(r) => match member_of(r, "opcode"@) {
                Some(o) => json_u64_value(o) == Some(2u64),
                None => false,
            },
            None => false,
        },
    }
}

/// The event a CDP method and its parameters' JSON text stand for.
pub open spec fn event_of(method: Seq<char>, params: Seq<char>) -> EventSpec {
    if method == "Network.webSocketFrameReceived"@ {
        EventSpec::FrameReceived(frame_of(params))
    } else if method == "Network.webSocketFrameSent"@ {
        EventSpec::FrameSent(frame_of(params))
    } else if method == "Page.loadEventFired"@ || method == "Page.frameNavigated"@ {
        EventSpec::PageNavigated(match string_member_in(member_of(params, "frame"@), "url"@) {
            Some(u) => u,
            None => "about:blank"@,
        })
    } else if method == "DOM.documentUpdated"@ || method == "Page.domContentEventFired"@ {
        EventSpec::DomReady
    } else {
        EventSpec::Unknown(method, params)
    }
}

fn frame_exec(params: &str) -> (r: (String, Option<String>, WebSocketFrame))
    ensures
        (FrameView { request_id: r.0@, timestamp: opt_view(r.1), payload: r.2.payload@, is_binary: r.2.is_binary })
            == frame_of(params@),
{
    proof {
        reveal_strlit("");
    }
    let request_id = or_text(string_member_of(params, "requestId"), "");
    let timestamp = member_text(params, "timestamp");
    let response = member_text(params, "response");
    let payload = or_text(string_member_in_exec(&response, "payloadData"), "");
    let is_binary = match &response {
        Some(r) => match member_text(r.as_str(), "opcode") {
            Some(o) => match u64_value(o.as_str()) {
                Some(n) => n == 2,
                None => false,
            },
            None => false,
        },
        None => false,
    };
    let ghost f = frame_of(params@);
    assert(request_id@ == f.request_id);
    assert(opt_view(timestamp) == f.timestamp);
    assert(payload@ == f.payload);
    assert(is_binary == f.is_binary);
    (request_id, timestamp, WebSocketFrame { payload, is_binary })
}

fn same(a: &str, b: &str) -> (r: bool)
    ensures
        r == (a@ == b@),
{
    String::from_str(a) == String::from_str(b)
}

/// The event a CDP method and its parameters' JSON text stand for.
pub fn parse_cdp_event(method: &str, params: &str) -> (r: CdpEvent)
    ensures
        cdp_event_view(r) == event_of(method@, params@),
{
    if same(method, "Network.webSocketFrameReceived") {
        let (request_id, timestamp, response) = frame_exec(params);
        CdpEvent::WebSocketFrameReceived { request_id, timestamp, response }
    } else if same(method, "Network.webSocketFrameSent") {
        let (request_id, timestamp, response) = frame_exec(params);
        CdpEvent::WebSocketFrameSent { request_id, timestamp, response }
    } else if same(method, "Page.loadEventFired") || same(method, "Page.frameNavigated") {
        let frame = member_text(params, "frame");
        let url = or_text(string_member_in_exec(&frame, "url"), "about:blank");
        CdpEvent::PageNavigated { url }
    } else if same(method, "DOM.documentUpdated") || same(method, "Page.domContentEventFired") {
        CdpEvent::DomReady
    } else {
        CdpEvent::Unknown { method: String::from_str(method), params: String::from_str(params) }
    }
}

// ── Messages ───────────────────────────────────────────────────────────

/// A message read from the DevTools socket: a command's response (its id,
/// its result's JSON text, and its error's code and message, if it failed),
/// or an event (its method and its parameters' JSON text).
#[derive(Debug, Clone)]
pub enum CdpMessage {
    Response { id: u64, result: String, error: Option<(i32, String)> },
    Event { method: String, params: String },
}

pub enum MessageSpec {
    Response(u64, Seq<char>, Option<(i32, Seq<char>)>),
    Event(Seq<char>, Seq<char>),
}

pub open spec fn message_view(m: CdpMessage) -> MessageSpec {
    match m {
        CdpMessage::Response { id, result, error } => MessageSpec::Response(id, result@, match error {
            Some(e) => Some((e.0, e.1@)),
            None => None,
        }),
        CdpMessage::Event { method, params } => MessageSpec::Event(method@, params@),
    }
}

/// A response's `error` member: absent or null is no error; an object with
/// an `i32` code and a string message is one, and so is the array of the two
/// in that order; anything else does not read.
pub open spec fn error_of(member: Option<Seq<char>>) -> Option<Option<(i32, Seq<char>)>> {
    match member {
        None => Some(None),
        Some(t) => if t == "null"@ {
            Some(None)
        } else if json_object_members(t) is Some {
            match (member_of(t, "code"@), string_member(t, "message"@)) {
                (Some(c), Some(msg)) => match json_i32_value(c) {
                    Some(code) => Some(Some((code, msg))),
                    None => None,
                },
                _ => None,
            }
        } else {
            match json_array_parse(t) {
                Ok(items) => if items.len() == 2 {
                    match (json_i32_value(items[0]), json_string_value(items[1])) {
                        (Some(code), Some(msg)) => Some(Some((code, msg))),
                        _ => None,
                    }
                } else {
                    None
                },
                Err(_) => None,
            }
        },
    }
}

/// An object read as a message: first as a response (a `u64` id, its result
/// defaulting to null), else as an event (a string method and parameters).
pub open spec fn object_message(text: Seq<char>) -> Option<MessageSpec> {
    let id = match member_of(text, "id"@) { Some(t) => json_u64_value(t), None => None };
    let error = error_of(member_of(text, "error"@));
    if id is Some && error is Some {
        Some(MessageSpec::Response(
            id->Some_0,
            match member_of(text, "result"@) { Some(r) => r, None => "null"@ },
            error->Some_0,
        ))
    } else {
        match (string_member(text, "method"@), member_of(text, "params"@)) {
            (Some(m), Some(p)) => Some(MessageSpec::Event(m, p)),
            _ => None,
        }
    }
}

/// An array read as a message, its elements taken as the fields in order:
/// first as a response, `[id]`, `[id, result]` or `[id, result, error]`,
/// else as an event, `[method, params]`.
pub open spec fn array_message(items: Seq<Seq<char>>) -> Option<MessageSpec> {
    let response = if 1 <= items.len() <= 3 {
        match (json_u64_value(items[0]), if items.len() == 3 { error_of(Some(items[2])) } else { Some(None) }) {
            (Some(id), Some(error)) => Some(MessageSpec::Response(
                id,
                if items.len() >= 2 { items[1] } else { "null"@ },
                error,
            )),
            _ => None,
        }
    } else {
        None
    };
    match response {
        Some(r) => Some(r),
        None => if items.len() == 2 {
            match json_string_value(items[0]) {
                Some(m) => Some(MessageSpec::Event(m, items[1])),
                None => None,
            }
        } else {
            None
        },
    }
}

/// How a text from the socket reads: nothing unless it is a JSON value
/// throughout (a number out of range anywhere refuses it); an object or an
/// array then reads as a response or an event.
pub open spec fn message_of(text: Seq<char>) -> Option<MessageSpec> {
    if json_compact(text) is None {
        None
    } else if json_object_members(text) is Some {
        object_message(text)
    } else {
        match json_array_parse(text) {
            Ok(items) => array_message(items),
            Err(_) => None,
        }
    }
}

fn error_exec(member: Option<String>) -> (r: Option<Option<(i32, String)>>)
    ensures
        match r {
            Some(Some(e)) => error_of(opt_view(member)) == Some(Some((e.0, e.1@))),
            Some(None) => error_of(opt_view(member)) == Some(None::<(i32, Seq<char>)>),
            None => error_of(opt_view(member)) is None,
        },
{
    match member {
        None => Some(None),
        Some(t) => {
            if same(t.as_str(), "null") {
                return Some(None);
            }
            if object_members(t.as_str()).is_some() {
                let code = member_text(t.as_str(), "code");
                let msg = string_member_of(t.as_str(), "message");
                match (code, msg) {
                    (Some(c), Some(m)) => match i32_value(c.as_str()) {
                        Some(n) => Some(Some((n, m))),
                        None => None,
                    },
                    _ => None,
                }
            } else {
                match array_items(t.as_str()) {
                    Ok(items) => {
                        if items.len() != 2 {
                            return None;
                        }
                        assert(texts(items@)[0] == items@[0]@ && texts(items@)[1] == items@[1]@);
                        match (i32_value(items[0].as_str()), string_value(items[1].as_str())) {
                            (Some(n), Some(m)) => Some(Some((n, m))),
                            _ => None,
                        }
                    },
                    Err(_) => None,
                }
            }
        },
    }
}

fn object_message_exec(text: &str) -> (r: Option<CdpMessage>)
    ensures
        match r {
            Some(m) => object_message(text@) == Some(message_view(m)),
            None => object_message(text@) is None,
        },
{
    let id = match member_text(text, "id") {
        Some(t) => u64_value(t.as_str()),
        None => None,
    };
    let error = error_exec(member_text(text, "error"));
    if id.is_some() && error.is_some() {
        let result = or_text(member_text(text, "result"), "null");
        let id = id.unwrap();
        let error = error.unwrap();
        return Some(CdpMessage::Response { id, result, error });
    }
    match (string_member_of(text, "method"), member_text(text, "params")) {
        (Some(method), Some(params)) => Some(CdpMessage::Event { method, params }),
        _ => None,
    }
}

fn array_message_exec(items: &Vec<String>) -> (r: Option<CdpMessage>)
    ensures
        match r {
            Some(m) => array_message(texts(items@)) == Some(message_view(m)),
            None => array_message(texts(items@)) is None,
        },
{
    let ghost its = texts(items@);
    let n = items.len();
    if 1 <= n && n <= 3 {
        assert(its[0] == items@[0]@);
        let id = u64_value(items[0].as_str());
        let error = if n == 3 {
            assert(its[2] == items@[2]@);
            error_exec(Some(items[2].clone()))
        } else {
            Some(None)
        };
        if id.is_some() && error.is_some() {
            let result = if n >= 2 {
                assert(its[1] == items@[1]@);
                items[1].clone()
            } else {
                String::from_str("null")
            };
            proof {
                reveal_strlit("null");
            }
            return Some(CdpMessage::Response { id: id.unwrap(), result, error: error.unwrap() });
        }
    }
    if n == 2 {
        assert(its[0] == items@[0]@ && its[1] == items@[1]@);
        match string_value(items[0].as_str()) {
            Some(method) => Some(CdpMessage::Event { method, params: items[1].clone() }),
            None => None,
        }
    } else {
        None
    }
}

/// Reads a text from the socket as a CDP message (`None` when it is neither
/// a response nor an event).
pub fn classify_message(text: &str) -> (r: Option<CdpMessage>)
    ensures
        match r {
            Some(m) => message_of(text@) == Some(message_view(m)),
            None => message_of(text@) is None,
        },
{
    if compact(text).is_none() {
        return None;
    }
    if object_members(text).is_some() {
        return object_message_exec(text);
    }
    match array_items(text) {
        Ok(items) => array_message_exec(&items),
        Err(_) => None,
    }
}

// ── Commands ───────────────────────────────────────────────────────────

/// The JSON text of a command: its id, method and parameters (a compact
/// JSON text), with the keys in order.
pub open spec fn command_json(id: u64, method: Seq<char>, params: Seq<char>) -> Seq<char> {
    "{\"id\":"@ + decimal(id as nat) + ",\"method\":"@ + json_quoted(method) + ",\"params\":"@ + params + "}"@
}

pub fn command_text(id: u64, method: &str, params: &str) -> (r: String)
    ensures
        r@ == command_json(id, method@, params@),
{
    let mut out = String::new();
    push_str(&mut out, "{\"id\":");
    push_decimal(&mut out, id);
    push_str(&mut out, ",\"method\":");
    let q = quote(method);
    push_str(&mut out, q.as_str());
    push_str(&mut out, ",\"params\":");
    push_str(&mut out, params);
    push_str(&mut out, "}");
    out
}

/// What waiting for the response to command `id` makes of one text from the
/// socket.
#[derive(Debug)]
pub enum Awaited {
    /// The command's result, as JSON text.
    Result(String),
    /// The command failed with this message.
    Failed(String),
    /// Not the awaited response: keep reading.
    Skip,
}

pub open spec fn cdp_error_text(code: i32, message: Seq<char>) -> Seq<char> {
    "CDP error "@ + (if code < 0 { "-"@ + decimal((-code) as nat) } else { decimal(code as nat) }) + ": "@ + message
}

pub fn await_response(id: u64, text: &str) -> (r: Awaited)
    ensures
        match message_of(text@) {
            Some(MessageSpec::Response(rid, result, error)) => if rid == id {
                match error {
                    Some((code, msg)) => r matches Awaited::Failed(m) && m@ == cdp_error_text(code, msg),
                    None => r matches Awaited::Result(t) && t@ == result,
                }
            } else {
                r is Skip
            },
            _ => r is Skip,
        },
{
    match classify_message(text) {
        Some(CdpMessage::Response { id: rid, result, error }) => {
            if rid != id {
                return Awaited::Skip;
            }
            match error {
                Some((code, msg)) => {
                    let mut m = String::new();
                    push_str(&mut m, "CDP error ");
                    if code < 0 {
                        push_str(&mut m, "-");
                        let mag: u64 = if code == i32::MIN { 2147483648u64 } else { (-code) as u64 };
                        push_decimal(&mut m, mag);
                    } else {
                        push_decimal(&mut m, code as u64);
                    }
                    push_str(&mut m, ": ");
                    push_str(&mut m, msg.as_str());
                    Awaited::Failed(m)
                },
                None => Awaited::Result(result),
            }
        },
        _ => Awaited::Skip,
    }
}

/// The event a text from the socket carries (`None` for a response or a text
/// that does not read).
pub fn event_in(text: &str) -> (r: Option<CdpEvent>)
    ensures
        match message_of(text@) {
            Some(MessageSpec::Event(method, params)) => r matches Some(e) && cdp_event_view(e) == event_of(method, params),
            _ => r is None,
        },
{
    match classify_message(text) {
        Some(CdpMessage::Event { method, params }) => Some(parse_cdp_event(method.as_str(), params.as_str())),
        _ => None,
    }
}

/// The ids handed to commands: 1, 2, 3, ...
pub struct CommandIds {
    next: u64,
}

impl CommandIds {
    pub closed spec fn spec_next(&self) -> u64 {
        self.next
    }

    pub fn new() -> (r: Self)
        ensures
            r.spec_next() == 1,
    {
        CommandIds { next: 1 }
    }

    /// The next command's id.
    pub fn take(&mut self) -> (r: u64)
        requires
            old(self).spec_next() < u64::MAX,
        ensures
            r == old(self).spec_next(),
            final(self).spec_next() == r + 1,
    {
        let id = self.next;
        self.next = self.next + 1;
        id
    }

    /// Whether every id has been handed out.
    pub fn exhausted(&self) -> (r: bool)
        ensures
            r == (self.spec_next() == u64::MAX),
    {
        self.next == u64::MAX
    }
}

} // verus!
