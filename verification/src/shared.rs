//! The chat API's shared types: messages, responses, streaming chunks, CDP
//! commands and events, and the gateway's error.
use vstd::prelude::*;
use crate::ids::{is_lower_hex, is_uuid_text, now_epoch, uuid_v4_text};
use crate::text::{chars_of, push_decimal, push_str, decimal};

verus! {

broadcast use vstd::seq_lib::group_seq_properties;

// ── Role ──────────────────────────────────────────────────────────────

#[derive(Debug, Clone, Copy, PartialEq, Eq, Structural)]
pub enum Role {
    System,
    User,
    Assistant,
}

impl Role {
    /// The lower-case name under which a role is written on the wire.
    pub fn as_str(&self) -> (r: &'static str)
        ensures
            r@ == role_name(*self),
    {
        match self {
            Role::System => "system",
            Role::User => "user",
            Role::Assistant => "assistant",
        }
    }
}

pub open spec fn role_name(r: Role) -> Seq<char> {
    match r {
        Role::System => "system"@,
        Role::User => "user"@,
        Role::Assistant => "assistant"@,
    }
}

// ── Errors ─────────────────────────────────────────────────────────────

/// The gateway's error. Outside errors (I/O, JSON) are carried as their text.
#[derive(Debug)]
pub enum ChatApiError {
    InvalidRequest(String),
    RateLimited,
    BrowserNotConnected,
    AutomationFailure(String),
    CdpConnection(String),
    CdpProtocol(String),
    Discovery(String),
    ResponseTimeout(u64),
    RingBuffer(String),
    Io(String),
    Json(String),
    Internal(String),
}

/// The error's display text.
pub open spec fn error_text(e: ChatApiError) -> Seq<char> {
    match e {
        ChatApiError::InvalidRequest(m) => "Invalid request: "@ + m@,
        ChatApiError::RateLimited => "Rate limited"@,
        ChatApiError::BrowserNotConnected => "Browser not connected"@,
        ChatApiError::AutomationFailure(m) => "Automation failure: "@ + m@,
        ChatApiError::CdpConnection(m) => "CDP connection error: "@ + m@,
        ChatApiError::CdpProtocol(m) => "CDP protocol error: "@ + m@,
        ChatApiError::Discovery(m) => "Browser discovery error: "@ + m@,
        ChatApiError::ResponseTimeout(ms) => "Timeout waiting for response after "@ + decimal(ms as nat) + "ms"@,
        ChatApiError::RingBuffer(m) => "Ring buffer error: "@ + m@,
        ChatApiError::Io(m) => "IO error: "@ + m@,
        ChatApiError::Json(m) => "JSON error: "@ + m@,
        ChatApiError::Internal(m) => "Internal error: "@ + m@,
    }
}

/// The HTTP status an error is answered with.
pub open spec fn error_status(e: ChatApiError) -> u16 {
    match e {
        ChatApiError::InvalidRequest(_) => 400,
        ChatApiError::RateLimited => 429,
        ChatApiError::BrowserNotConnected => 503,
        ChatApiError::AutomationFailure(_) | ChatApiError::Discovery(_) => 502,
        _ => 500,
    }
}

/// The `type` field of the error body.
pub open spec fn error_kind(e: ChatApiError) -> Seq<char> {
    match e {
        ChatApiError::InvalidRequest(_) => "invalid_request_error"@,
        ChatApiError::RateLimited => "rate_limit_error"@,
        ChatApiError::BrowserNotConnected => "service_unavailable"@,
        ChatApiError::AutomationFailure(_) | ChatApiError::Discovery(_) => "automation_error"@,
        _ => "internal_error"@,
    }
}

/// The `message` field of the error body.
pub open spec fn error_message(e: ChatApiError) -> Seq<char> {
    match e {
        ChatApiError::InvalidRequest(m) => m@,
        ChatApiError::RateLimited => "Rate limited"@,
        ChatApiError::BrowserNotConnected => "Browser not connected"@,
        ChatApiError::AutomationFailure(m) | ChatApiError::Discovery(m) => m@,
        _ => error_text(e),
    }
}

fn concat2(a: &str, b: &String) -> (r: String)
    ensures
        r@ == a@ + b@,
{
    let mut out = String::new();
    push_str(&mut out, a);
    push_str(&mut out, b.as_str());
    out
}

impl ChatApiError {
    /// The error's display text.
    pub fn display_text(&self) -> (r: String)
        ensures
            r@ == error_text(*self),
    {
        match self {
            ChatApiError::InvalidRequest(m) => concat2("Invalid request: ", m),
            ChatApiError::RateLimited => String::from_str("Rate limited"),
            ChatApiError::BrowserNotConnected => String::from_str("Browser not connected"),
            ChatApiError::AutomationFailure(m) => concat2("Automation failure: ", m),
            ChatApiError::CdpConnection(m) => concat2("CDP connection error: ", m),
            ChatApiError::CdpProtocol(m) => concat2("CDP protocol error: ", m),
            ChatApiError::Discovery(m) => concat2("Browser discovery error: ", m),
            ChatApiError::ResponseTimeout(ms) => {
                let mut out = String::new();
                push_str(&mut out, "Timeout waiting for response after ");
                push_decimal(&mut out, *ms);
                push_str(&mut out, "ms");
                out
            },
            ChatApiError::RingBuffer(m) => concat2("Ring buffer error: ", m),
            ChatApiError::Io(m) => concat2("IO error: ", m),
            ChatApiError::Json(m) => concat2("JSON error: ", m),
            ChatApiError::Internal(m) => concat2("Internal error: ", m),
        }
    }

    /// The HTTP status, the error `type` and the error `message` that the
    /// error is answered with.
    pub fn response_parts(&self) -> (r: (u16, &'static str, String))
        ensures
            r.0 == error_status(*self),
            r.1@ == error_kind(*self),
            r.2@ == error_message(*self),
    {
        match self {
            ChatApiError::InvalidRequest(m) => (400, "invalid_request_error", m.clone()),
            ChatApiError::RateLimited => (429, "rate_limit_error", String::from_str("Rate limited")),
            ChatApiError::BrowserNotConnected => (503, "service_unavailable", String::from_str("Browser not connected")),
            ChatApiError::AutomationFailure(m) => (502, "automation_error", m.clone()),
            ChatApiError::Discovery(m) => (502, "automation_error", m.clone()),
            _ => (500, "internal_error", self.display_text()),
        }
    }
}

// ── Messages and responses ─────────────────────────────────────────────

#[derive(Debug, Clone)]
pub struct ChatMessage {
    pub role: Role,
    pub content: String,
}

#[derive(Debug, Clone)]
pub struct Choice {
    pub index: u32,
    pub message: ChatMessage,
    pub finish_reason: Option<String>,
}

#[derive(Debug, Clone, Copy)]
pub struct Usage {
    pub prompt_tokens: u32,
    pub completion_tokens: u32,
    pub total_tokens: u32,
}

#[derive(Debug, Clone)]
pub struct ChatCompletionResponse {
    pub id: String,
    pub object: String,
    pub created: i64,
    pub model: String,
    pub choices: Vec<Choice>,
    pub usage: Usage,
}

/// A completion id: `chatcmpl-` followed by 24 lower-case hex digits.
pub open spec fn is_completion_id(s: Seq<char>) -> bool {
    &&& s.len() == 33
    &&& s.subrange(0, 9) == "chatcmpl-"@
    &&& forall|i: int| 9 <= i < 33 ==> #[trigger] is_lower_hex(s[i])
}

/// A text with its hyphens taken out.
pub open spec fn strip_hyphens(s: Seq<char>) -> Seq<char>
    decreases s.len(),
{
    if s.len() == 0 {
        Seq::empty()
    } else if s.last() == '-' {
        strip_hyphens(s.drop_last())
    } else {
        strip_hyphens(s.drop_last()).push(s.last())
    }
}

/// The completion id made from a UUID's text: `chatcmpl-` and the first 24
/// characters that are left once its hyphens are taken out.
pub open spec fn completion_id_spec(uuid: Seq<char>) -> Seq<char> {
    "chatcmpl-"@ + strip_hyphens(uuid).take(24)
}

proof fn lemma_strip_concat(a: Seq<char>, b: Seq<char>)
    ensures
        strip_hyphens(a + b) == strip_hyphens(a) + strip_hyphens(b),
    decreases b.len(),
{
    if b.len() == 0 {
        assert(a + b =~= a);
        assert(strip_hyphens(a) + strip_hyphens(b) =~= strip_hyphens(a));
    } else {
        assert((a + b).drop_last() =~= a + b.drop_last());
        assert((a + b).last() == b.last());
        lemma_strip_concat(a, b.drop_last());
        if b.last() != '-' {
            assert((strip_hyphens(a) + strip_hyphens(b.drop_last())).push(b.last())
                =~= strip_hyphens(a) + strip_hyphens(b.drop_last()).push(b.last()));
        }
    }
}

proof fn lemma_strip_hex(s: Seq<char>)
    requires
        forall|i: int| 0 <= i < s.len() ==> #[trigger] is_lower_hex(s[i]),
    ensures
        strip_hyphens(s) == s,
    decreases s.len(),
{
    if s.len() > 0 {
        assert(is_lower_hex(s[s.len() - 1]));
        lemma_strip_hex(s.drop_last());
        assert(s.drop_last().push(s.last()) =~= s);
    }
}

/// A UUID's text without its hyphens is its five groups of hex digits.
proof fn lemma_strip_uuid(u: Seq<char>)
    requires
        is_uuid_text(u),
    ensures
        strip_hyphens(u) == u.subrange(0, 8) + u.subrange(9, 13) + u.subrange(14, 18) + u.subrange(19, 23)
            + u.subrange(24, 36),
{
    let g0 = u.subrange(0, 8);
    let g1 = u.subrange(9, 13);
    let g2 = u.subrange(14, 18);
    let g3 = u.subrange(19, 23);
    let g4 = u.subrange(24, 36);
    let h = seq!['-'];
    assert(u =~= g0 + h + g1 + h + g2 + h + g3 + h + g4);
    assert forall|i: int| 0 <= i < g0.len() implies #[trigger] is_lower_hex(g0[i]) by { assert(u[i] == g0[i]); }
    assert forall|i: int| 0 <= i < g1.len() implies #[trigger] is_lower_hex(g1[i]) by { assert(u[i + 9] == g1[i]); }
    assert forall|i: int| 0 <= i < g2.len() implies #[trigger] is_lower_hex(g2[i]) by { assert(u[i + 14] == g2[i]); }
    assert forall|i: int| 0 <= i < g3.len() implies #[trigger] is_lower_hex(g3[i]) by { assert(u[i + 19] == g3[i]); }
    assert forall|i: int| 0 <= i < g4.len() implies #[trigger] is_lower_hex(g4[i]) by { assert(u[i + 24] == g4[i]); }
    lemma_strip_hex(g0);
    lemma_strip_hex(g1);
    lemma_strip_hex(g2);
    lemma_strip_hex(g3);
    lemma_strip_hex(g4);
    assert(strip_hyphens(h) =~= Seq::<char>::empty()) by {
        assert(h.len() == 1 && h.last() == '-');
        assert(h.drop_last() =~= Seq::<char>::empty());
        assert(strip_hyphens(h) == strip_hyphens(h.drop_last()));
    }
    lemma_strip_concat(g0, h);
    lemma_strip_concat(g0 + h, g1);
    lemma_strip_concat(g0 + h + g1, h);
    lemma_strip_concat(g0 + h + g1 + h, g2);
    lemma_strip_concat(g0 + h + g1 + h + g2, h);
    lemma_strip_concat(g0 + h + g1 + h + g2 + h, g3);
    lemma_strip_concat(g0 + h + g1 + h + g2 + h + g3, h);
    lemma_strip_concat(g0 + h + g1 + h + g2 + h + g3 + h, g4);
    assert(strip_hyphens(u) =~= g0 + g1 + g2 + g3 + g4);
}

/// The completion id of a UUID's text is a completion id.
proof fn lemma_completion_id_shape(u: Seq<char>)
    requires
        is_uuid_text(u),
    ensures
        is_completion_id(completion_id_spec(u)),
{
    reveal_strlit("chatcmpl-");
    lemma_strip_uuid(u);
    let r = completion_id_spec(u);
    let t = strip_hyphens(u).take(24);
    assert forall|i: int| 9 <= i < 33 implies #[trigger] is_lower_hex(r[i]) by {
        let k = i - 9;
        assert(r[i] == t[k]);
        if k < 8 {
            assert(t[k] == u[k]);
        } else if k < 12 {
            assert(t[k] == u[k + 1]);
        } else if k < 16 {
            assert(t[k] == u[k + 2]);
        } else if k < 20 {
            assert(t[k] == u[k + 3]);
        } else {
            assert(t[k] == u[k + 4]);
        }
    }
    assert(r.subrange(0, 9) =~= "chatcmpl-"@);
}

/// The completion id made from a UUID's text: `chatcmpl-` and the first 24
/// of its hex digits, in order.
pub fn completion_id_of(uuid: &str) -> (r: String)
    requires
        is_uuid_text(uuid@),
    ensures
        r@ == completion_id_spec(uuid@),
        is_completion_id(r@),
{
    proof {
        lemma_strip_uuid(uuid@);
        lemma_completion_id_shape(uuid@);
        reveal_strlit("chatcmpl-");
    }
    let cs = chars_of(uuid);
    let mut raw: Vec<char> = Vec::new();
    let mut i: usize = 0;
    while i < cs.len()
        invariant
            i <= cs.len(),
            raw@ == strip_hyphens(cs@.take(i as int)),
        decreases cs.len() - i,
    {
        assert(cs@.take(i + 1).drop_last() =~= cs@.take(i as int));
        assert(cs@.take(i + 1).last() == cs@[i as int]);
        if cs[i] != '-' {
            raw.push(cs[i]);
        }
        i = i + 1;
    }
    assert(cs@.take(i as int) =~= uuid@);
    let mut out = String::from_str("chatcmpl-");
    let mut k: usize = 0;
    while k < 24
        invariant
            k <= 24,
            raw@ == strip_hyphens(uuid@),
            raw@.len() == 32,
            out@ == "chatcmpl-"@ + raw@.take(k as int),
        decreases 24 - k,
    {
        out.push(raw[k]);
        assert(raw@.take(k + 1) =~= raw@.take(k as int).push(raw@[k as int]));
        k = k + 1;
    }
    out
}

/// A fresh completion id: `completion_id_of` a random UUID.
pub fn generate_id() -> (r: String)
    ensures
        is_completion_id(r@),
        exists|u: Seq<char>| is_uuid_text(u) && r@ == completion_id_spec(u),
{
    let u = uuid_v4_text();
    completion_id_of(u.as_str())
}

impl ChatCompletionResponse {
    /// A non-streaming response holding one assistant message that finished
    /// with `stop`.
    pub fn new(model: String, content: String, prompt_tokens: u32, completion_tokens: u32) -> (r: Self)
        requires
            prompt_tokens + completion_tokens <= u32::MAX,
        ensures
            is_completion_id(r.id@),
            r.object@ == "chat.completion"@,
            r.model == model,
            r.choices@.len() == 1,
            r.choices@[0].index == 0,
            r.choices@[0].message.role == Role::Assistant,
            r.choices@[0].message.content == content,
            r.choices@[0].finish_reason matches Some(f) && f@ == "stop"@,
            r.usage.prompt_tokens == prompt_tokens,
            r.usage.completion_tokens == completion_tokens,
            r.usage.total_tokens == prompt_tokens + completion_tokens,
    {
        let id = generate_id();
        let created = now_epoch();
        ChatCompletionResponse {
            id,
            object: String::from_str("chat.completion"),
            created,
            model,
            choices: vec![Choice {
                index: 0,
                message: ChatMessage { role: Role::Assistant, content },
                finish_reason: Some(String::from_str("stop")),
            }],
            usage: Usage {
                prompt_tokens,
                completion_tokens,
                total_tokens: prompt_tokens + completion_tokens,
            },
        }
    }
}

/// A non-streaming answer that calls tools: one assistant choice holding the
/// calls, finished with `tool_calls`.
#[derive(Debug, Clone)]
pub struct ToolCallsResponse {
    pub id: String,
    pub object: String,
    pub created: i64,
    pub model: String,
    pub tool_calls: Vec<ToolCall>,
    pub finish_reason: String,
    pub usage: Usage,
}

/// Token counts added up, held at `u32::MAX`.
pub open spec fn capped_sum(a: u32, b: u32) -> u32 {
    if a + b > u32::MAX { u32::MAX } else { (a + b) as u32 }
}

impl ToolCallsResponse {
    /// The answer with these calls under the request's id, time and model.
    pub fn new(
        id: String,
        created: i64,
        model: String,
        tool_calls: Vec<ToolCall>,
        prompt_tokens: u32,
        completion_tokens: u32,
    ) -> (r: Self)
        ensures
            r.id == id,
            r.object@ == "chat.completion"@,
            r.created == created,
            r.model == model,
            r.tool_calls == tool_calls,
            r.finish_reason@ == "tool_calls"@,
            r.usage.prompt_tokens == prompt_tokens,
            r.usage.completion_tokens == completion_tokens,
            r.usage.total_tokens == capped_sum(prompt_tokens, completion_tokens),
    {
        let total_tokens = if prompt_tokens > u32::MAX - completion_tokens {
            u32::MAX
        } else {
            prompt_tokens + completion_tokens
        };
        ToolCallsResponse {
            id,
            object: String::from_str("chat.completion"),
            created,
            model,
            tool_calls,
            finish_reason: String::from_str("tool_calls"),
            usage: Usage { prompt_tokens, completion_tokens, total_tokens },
        }
    }
}

// ── Streaming chunks ───────────────────────────────────────────────────

#[derive(Debug, Clone)]
pub struct Delta {
    pub role: Option<Role>,
    pub content: Option<String>,
}

#[derive(Debug, Clone)]
pub struct ChunkChoice {
    pub index: u32,
    pub delta: Delta,
    pub finish_reason: Option<String>,
}

#[derive(Debug, Clone)]
pub struct ChatCompletionChunk {
    pub id: String,
    pub object: String,
    pub created: i64,
    pub model: String,
    pub choices: Vec<ChunkChoice>,
}

/// The fields every chunk of a stream shares.
pub open spec fn chunk_header(c: ChatCompletionChunk, model: Seq<char>, request_id: Seq<char>) -> bool {
    &&& c.id@ == request_id
    &&& c.object@ == "chat.completion.chunk"@
    &&& c.model@ == model
    &&& c.choices@.len() == 1
    &&& c.choices@[0].index == 0
}

impl ChatCompletionChunk {
    fn with_choice(model: &str, request_id: &str, delta: Delta, finish_reason: Option<String>) -> (r: Self)
        ensures
            chunk_header(r, model@, request_id@),
            r.choices@[0].delta == delta,
            r.choices@[0].finish_reason == finish_reason,
    {
        ChatCompletionChunk {
            id: String::from_str(request_id),
            object: String::from_str("chat.completion.chunk"),
            created: now_epoch(),
            model: String::from_str(model),
            choices: vec![ChunkChoice { index: 0, delta, finish_reason }],
        }
    }

    /// A chunk that carries a piece of content.
    pub fn new_delta(model: &str, request_id: &str, content: &str) -> (r: Self)
        ensures
            chunk_header(r, model@, request_id@),
            r.choices@[0].delta.role is None,
            r.choices@[0].delta.content matches Some(c) && c@ == content@,
            r.choices@[0].finish_reason is None,
    {
        Self::with_choice(model, request_id, Delta { role: None, content: Some(String::from_str(content)) }, None)
    }

    /// The first chunk of a stream: it names the assistant role.
    pub fn new_role_chunk(model: &str, request_id: &str) -> (r: Self)
        ensures
            chunk_header(r, model@, request_id@),
            r.choices@[0].delta.role == Some(Role::Assistant),
            r.choices@[0].delta.content is None,
            r.choices@[0].finish_reason is None,
    {
        Self::with_choice(model, request_id, Delta { role: Some(Role::Assistant), content: None }, None)
    }

    /// The last chunk of a stream: empty delta, finished with `stop`.
    pub fn new_finish(model: &str, request_id: &str) -> (r: Self)
        ensures
            chunk_header(r, model@, request_id@),
            r.choices@[0].delta.role is None,
            r.choices@[0].delta.content is None,
            r.choices@[0].finish_reason matches Some(f) && f@ == "stop"@,
    {
        Self::with_choice(model, request_id, Delta { role: None, content: None }, Some(String::from_str("stop")))
    }
}

// ── Tool calls ─────────────────────────────────────────────────────────

#[derive(Debug, Clone)]
pub struct FunctionCall {
    pub name: String,
    pub arguments: String,
}

#[derive(Debug, Clone)]
pub struct ToolCall {
    pub id: String,
    pub call_type: String,
    pub function: FunctionCall,
}

// ── CDP types ──────────────────────────────────────────────────────────

#[derive(Debug, Clone)]
pub enum CdpCommand {
    SendPrompt { session_id: String, prompt: String },
    NewSession,
    CloseSession { session_id: String },
}

#[derive(Debug, Clone)]
pub enum CdpEvent {
    TokenReceived { session_id: String, token: String },
    StreamComplete { session_id: String },
    Error { session_id: String, message: String },
    SessionCreated { session_id: String },
}

#[derive(Debug, Clone, Copy, PartialEq, Eq, Structural)]
pub enum SessionStatus {
    Active,
    Idle,
    Error,
}

#[derive(Debug, Clone)]
pub struct CdpSession {
    pub id: String,
    pub status: SessionStatus,
}

impl CdpSession {
    /// A new idle session under a fresh UUID.
    pub fn new() -> (r: Self)
        ensures
            r.status == SessionStatus::Idle,
            is_uuid_text(r.id@),
    {
        CdpSession { id: uuid_v4_text(), status: SessionStatus::Idle }
    }
}

} // verus!
