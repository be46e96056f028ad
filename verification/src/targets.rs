//! The target providers' own logic: the API target's URLs, its reading of
//! HTTP statuses and of streamed SSE chunks; the browser target's prompt,
//! answer and word stream; and which provider a configuration routes to.
use vstd::prelude::*;
use crate::cdp::engine::{openai_content, openai_content_exec};
use crate::gateway::routes::estimate_tokens;
use crate::rules::prompt::{byte_len, join, push_join};
use crate::shared::{role_name, ChatCompletionResponse, ChatMessage, Role};
use crate::target::{Target, TargetConfig};
use crate::text::{
    chars_of, decimal, find_exec, find_from, is_ws, is_ws_exec, lemma_find_from_bounds, push_str,
    starts_with, string_of, trim, trim_string,
};
use crate::traits::TargetError;
use crate::json::texts;

verus! {

broadcast use vstd::seq_lib::group_seq_properties;

// ── URLs ───────────────────────────────────────────────────────────────

/// `s` without its trailing `/` characters (`trim_end_matches('/')`).
pub open spec fn without_trailing_slashes(s: Seq<char>) -> Seq<char>
    decreases s.len(),
{
    if s.len() > 0 && s.last() == '/' {
        without_trailing_slashes(s.drop_last())
    } else {
        s
    }
}

fn trimmed_endpoint(endpoint: &str) -> (r: String)
    ensures
        r@ == without_trailing_slashes(endpoint@),
{
    let cs = chars_of(endpoint);
    let mut end = cs.len();
    while end > 0 && cs[end - 1] == '/'
        invariant
            end <= cs.len(),
            without_trailing_slashes(endpoint@) == without_trailing_slashes(cs@.subrange(0, end as int)),
            cs@ == endpoint@,
        decreases end,
    {
        assert(cs@.subrange(0, end as int).drop_last() =~= cs@.subrange(0, end - 1));
        end = end - 1;
    }
    assert(end == 0 ==> cs@.subrange(0, end as int) =~= Seq::<char>::empty());
    string_of(&cs, 0, end)
}

/// The chat completions URL under an API endpoint.
pub fn completions_url(endpoint: &str) -> (r: String)
    ensures
        r@ == without_trailing_slashes(endpoint@) + "/chat/completions"@,
{
    let mut u = trimmed_endpoint(endpoint);
    push_str(&mut u, "/chat/completions");
    u
}

/// The models URL under an API endpoint (what the health check asks).
pub fn models_url(endpoint: &str) -> (r: String)
    ensures
        r@ == without_trailing_slashes(endpoint@) + "/models"@,
{
    let mut u = trimmed_endpoint(endpoint);
    push_str(&mut u, "/models");
    u
}

/// The `Authorization` header of an API request.
pub fn bearer(api_key: &str) -> (r: String)
    ensures
        r@ == "Bearer "@ + api_key@,
{
    let mut h = String::from_str("Bearer ");
    push_str(&mut h, api_key);
    h
}

// ── HTTP statuses ──────────────────────────────────────────────────────

pub open spec fn is_success(status: u16) -> bool {
    200 <= status <= 299
}

/// An API that answers the models URL with success or 404 is up.
pub fn healthy_status(status: u16) -> (r: bool)
    ensures
        r == (is_success(status) || status == 404),
{
    (200 <= status && status <= 299) || status == 404
}

/// How `reqwest::StatusCode` displays a status: its number and reason.
pub uninterp spec fn status_display(status: u16) -> Seq<char>;

/// Calls `reqwest::StatusCode::from_u16` and displays the code (`404 Not
/// Found`). The contract claims that the text is `status_display` of the
/// code; a code outside 100..=999 is not accepted by `from_u16`.
#[verifier::external_body]
fn status_text(status: u16) -> (r: String)
    requires
        100 <= status <= 999,
    ensures
        r@ == status_display(status),
{
    match reqwest::StatusCode::from_u16(status) {
        Ok(s) => s.to_string(),
        Err(_) => String::new(),
    }
}

/// The error an API answer's status stands for in a non-streaming request:
/// 401 and 429 have their own; any other failure carries the body.
pub open spec fn request_status_error(status: u16, body: Seq<char>) -> Option<Seq<char>> {
    if status == 401 {
        Some("Unauthorized (401)"@)
    } else if status == 429 {
        Some("Rate limited (429)"@)
    } else if !is_success(status) {
        Some("API returned "@ + status_display(status) + ": "@ + body)
    } else {
        None
    }
}

pub fn request_status(status: u16, body: &str) -> (r: Result<(), TargetError>)
    requires
        100 <= status <= 999,
    ensures
        match request_status_error(status, body@) {
            None => r is Ok,
            Some(m) => r matches Err(TargetError::RequestFailed(t)) && t@ == m,
        },
{
    if status == 401 {
        return Err(TargetError::RequestFailed(String::from_str("Unauthorized (401)")));
    }
    if status == 429 {
        return Err(TargetError::RequestFailed(String::from_str("Rate limited (429)")));
    }
    if !(200 <= status && status <= 299) {
        let mut m = String::from_str("API returned ");
        let st = status_text(status);
        push_str(&mut m, st.as_str());
        push_str(&mut m, ": ");
        push_str(&mut m, body);
        return Err(TargetError::RequestFailed(m));
    }
    Ok(())
}

/// The error an API answer's status stands for in a streaming request.
pub fn stream_status(status: u16, body: &str) -> (r: Result<(), TargetError>)
    requires
        100 <= status <= 999,
    ensures
        is_success(status) ==> r is Ok,
        !is_success(status) ==> (r matches Err(TargetError::RequestFailed(t))
            && t@ == "API returned "@ + status_display(status) + ": "@ + body@),
{
    if !(200 <= status && status <= 299) {
        let mut m = String::from_str("API returned ");
        let st = status_text(status);
        push_str(&mut m, st.as_str());
        push_str(&mut m, ": ");
        push_str(&mut m, body);
        return Err(TargetError::RequestFailed(m));
    }
    Ok(())
}

// ── Streamed chunks ────────────────────────────────────────────────────

/// The token of one line of a streamed chunk: a `data: ` line's
/// `choices[0].delta.content`, nothing for `[DONE]` or anything else.
pub open spec fn line_token(line: Seq<char>) -> Seq<char> {
    if starts_with(line, seq!['d', 'a', 't', 'a', ':', ' ']) {
        let data = line.skip(6);
        if trim(data) == "[DONE]"@ {
            Seq::empty()
        } else {
            match openai_content(data) {
                Some(c) => c,
                None => Seq::empty(),
            }
        }
    } else {
        Seq::empty()
    }
}

/// The tokens of a streamed chunk's lines from `start`, joined.
pub open spec fn chunk_tokens(s: Seq<char>, start: int) -> Seq<char>
    decreases s.len() - start,
{
    if start < 0 || start >= s.len() {
        Seq::empty()
    } else {
        match find_from(s, seq!['\n'], start) {
            Some(i) => {
                proof {
                    lemma_find_from_bounds(s, seq!['\n'], start);
                }
                line_token(s.subrange(start, i)) + chunk_tokens(s, i + 1)
            },
            None => line_token(s.subrange(start, s.len() as int)),
        }
    }
}

fn line_token_exec(cs: &Vec<char>, from: usize, to: usize) -> (r: String)
    requires
        from <= to <= cs.len(),
    ensures
        r@ == line_token(cs@.subrange(from as int, to as int)),
{
    let ghost line = cs@.subrange(from as int, to as int);
    proof {
        reveal_strlit("[DONE]");
    }
    let is_data = to - from >= 6 && cs[from] == 'd' && cs[from + 1] == 'a' && cs[from + 2] == 't'
        && cs[from + 3] == 'a' && cs[from + 4] == ':' && cs[from + 5] == ' ';
    proof {
        if to - from >= 6 {
            if is_data {
                assert(line.subrange(0, 6) =~= seq!['d', 'a', 't', 'a', ':', ' ']);
            } else {
                assert(line.subrange(0, 6) != seq!['d', 'a', 't', 'a', ':', ' ']) by {
                    if line.subrange(0, 6) == seq!['d', 'a', 't', 'a', ':', ' '] {
                        assert(line.subrange(0, 6)[0] == cs@[from as int]);
                        assert(line.subrange(0, 6)[1] == cs@[from + 1]);
                        assert(line.subrange(0, 6)[2] == cs@[from + 2]);
                        assert(line.subrange(0, 6)[3] == cs@[from + 3]);
                        assert(line.subrange(0, 6)[4] == cs@[from + 4]);
                        assert(line.subrange(0, 6)[5] == cs@[from + 5]);
                    }
                }
            }
        }
    }
    if !is_data {
        return String::new();
    }
    assert(cs@.subrange(from + 6, to as int) =~= line.skip(6));
    let t = trim_string(cs, from + 6, to);
    if t == String::from_str("[DONE]") {
        return String::new();
    }
    let data = string_of(cs, from + 6, to);
    match openai_content_exec(data.as_str()) {
        Some(c) => c,
        None => String::new(),
    }
}

/// The text tokens of one streamed chunk of an API answer: every
/// `data: ` line's content, in order, joined.
pub fn sse_chunk_text(text: &str) -> (r: String)
    ensures
        r@ == chunk_tokens(text@, 0),
{
    let cs = chars_of(text);
    let n = cs.len();
    let nl = vec!['\n'];
    assert(nl@ =~= seq!['\n']);
    let mut out = String::new();
    let mut start: usize = 0;
    while start < n
        invariant
            start <= n,
            n == cs.len(),
            cs@ == text@,
            nl@ == seq!['\n'],
            chunk_tokens(cs@, 0) == out@ + chunk_tokens(cs@, start as int),
        decreases n - start,
    {
        let found = find_exec(&cs, &nl, start);
        proof {
            lemma_find_from_bounds(cs@, nl@, start as int);
        }
        match found {
            Some(i) => {
                let t = line_token_exec(&cs, start, i);
                assert(chunk_tokens(cs@, start as int) == line_token(cs@.subrange(start as int, i as int)) + chunk_tokens(cs@, i + 1));
                let ghost before = out@;
                push_str(&mut out, t.as_str());
                assert(before + chunk_tokens(cs@, start as int) =~= out@ + chunk_tokens(cs@, i + 1));
                start = i + 1;
            },
            None => {
                let t = line_token_exec(&cs, start, n);
                assert(chunk_tokens(cs@, start as int) == line_token(cs@.subrange(start as int, n as int)));
                let ghost before = out@;
                push_str(&mut out, t.as_str());
                assert(before + chunk_tokens(cs@, start as int) =~= out@ + chunk_tokens(cs@, n as int));
                start = n;
            },
        }
    }
    assert(out@ + chunk_tokens(cs@, start as int) =~= out@);
    out
}

// ── The browser target ─────────────────────────────────────────────────

pub open spec fn role_label(r: Role) -> Seq<char> {
    match r {
        Role::System => "System"@,
        Role::User => "User"@,
        Role::Assistant => "Assistant"@,
    }
}

pub open spec fn prompt_lines(messages: Seq<ChatMessage>) -> Seq<Seq<char>> {
    messages.map_values(|m: ChatMessage| role_label(m.role) + ": "@ + m.content@)
}

/// The prompt typed into the chat page: one `Role: content` part per
/// message, parts separated by a blank line.
pub open spec fn browser_prompt(messages: Seq<ChatMessage>) -> Seq<char> {
    join(prompt_lines(messages), "\n\n"@)
}

pub fn build_prompt(messages: &Vec<ChatMessage>) -> (r: String)
    ensures
        r@ == browser_prompt(messages@),
{
    let mut parts: Vec<String> = Vec::new();
    let mut i: usize = 0;
    while i < messages.len()
        invariant
            i <= messages.len(),
            parts@.len() == i,
            texts(parts@) == prompt_lines(messages@.take(i as int)),
        decreases messages.len() - i,
    {
        let m = &messages[i];
        let label = match m.role {
            Role::System => "System",
            Role::User => "User",
            Role::Assistant => "Assistant",
        };
        let mut part = String::from_str(label);
        push_str(&mut part, ": ");
        push_str(&mut part, m.content.as_str());
        let ghost before = parts@;
        parts.push(part);
        proof {
            assert(messages@.take(i + 1)[i as int] == messages@[i as int]);
            assert forall|j: int| 0 <= j < i implies #[trigger] messages@.take(i + 1)[j] == messages@.take(i as int)[j] by {}
            assert(texts(parts@) =~= prompt_lines(messages@.take(i + 1))) by {
                assert forall|j: int| 0 <= j < i + 1 implies #[trigger] texts(parts@)[j] == prompt_lines(messages@.take(i + 1))[j] by {
                    if j < i {
                        assert(parts@[j] == before[j]);
                        assert(texts(before)[j] == prompt_lines(messages@.take(i as int))[j]);
                    }
                }
            }
        }
        i = i + 1;
    }
    assert(messages@.take(i as int) =~= messages@);
    let mut out = String::new();
    push_join(&mut out, &parts, "\n\n");
    out
}

/// The answer of a browser chat: the page's reply as one assistant message,
/// its tokens estimated from the prompt's and the reply's lengths.
pub fn browser_response(model: String, prompt: &str, reply: String) -> (r: ChatCompletionResponse)
    requires
        byte_len(prompt@) + 3 <= u32::MAX,
        byte_len(reply@) + 3 <= u32::MAX,
        (byte_len(prompt@) + 3) / 4 + (byte_len(reply@) + 3) / 4 <= u32::MAX,
    ensures
        r.model == model,
        r.choices@.len() == 1,
        r.choices@[0].message.content == reply,
        r.choices@[0].message.role == Role::Assistant,
        r.usage.prompt_tokens == (byte_len(prompt@) + 3) / 4,
        r.usage.completion_tokens == (byte_len(reply@) + 3) / 4,
{
    let p = estimate_tokens(prompt);
    let c = estimate_tokens(reply.as_str());
    ChatCompletionResponse::new(model, reply, p, c)
}

/// The position of the first non-whitespace character at or after `i`.
pub open spec fn skip_ws(s: Seq<char>, i: int) -> int
    decreases s.len() - i,
{
    if i < 0 || i >= s.len() {
        i
    } else if is_ws(s[i]) {
        skip_ws(s, i + 1)
    } else {
        i
    }
}

/// The position of the first whitespace character at or after `i`.
pub open spec fn skip_word(s: Seq<char>, i: int) -> int
    decreases s.len() - i,
{
    if i < 0 || i >= s.len() {
        i
    } else if is_ws(s[i]) {
        i
    } else {
        skip_word(s, i + 1)
    }
}

pub proof fn lemma_skips(s: Seq<char>, i: int)
    requires
        0 <= i <= s.len(),
    ensures
        i <= skip_ws(s, i) <= s.len(),
        i <= skip_word(s, i) <= s.len(),
        skip_ws(s, i) < s.len() ==> !is_ws(s[skip_ws(s, i)]),
        i < s.len() && !is_ws(s[i]) ==> skip_word(s, i) > i,
    decreases s.len() - i,
{
    if i < s.len() {
        lemma_skips(s, i + 1);
    }
}

/// The whitespace-separated words of `s` from `i` (`split_whitespace`).
pub open spec fn words_from(s: Seq<char>, i: int) -> Seq<Seq<char>>
    decreases s.len() - i,
{
    if i < 0 || i >= s.len() {
        Seq::empty()
    } else {
        let j = skip_ws(s, i);
        if j >= s.len() {
            Seq::empty()
        } else {
            let k = skip_word(s, j);
            proof {
                lemma_skips(s, i);
                lemma_skips(s, j);
            }
            seq![s.subrange(j, k)] + words_from(s, k)
        }
    }
}

pub open spec fn spaced(w: Seq<char>) -> Seq<char> {
    w + seq![' ']
}

pub open spec fn spaced_words(ws: Seq<Seq<char>>) -> Seq<Seq<char>> {
    ws.map_values(|w: Seq<char>| spaced(w))
}

/// The browser's answer streamed word by word, each word followed by a space.
pub open spec fn word_stream(s: Seq<char>) -> Seq<Seq<char>> {
    spaced_words(words_from(s, 0))
}

pub fn word_tokens(text: &str) -> (r: Vec<String>)
    ensures
        texts(r@) == word_stream(text@),
{
    let cs = chars_of(text);
    let n = cs.len();
    let mut out: Vec<String> = Vec::new();
    let mut i: usize = 0;
    while i < n
        invariant
            i <= n,
            n == cs.len(),
            cs@ == text@,
            texts(out@) + spaced_words(words_from(cs@, i as int)) == word_stream(text@),
        decreases n - i,
    {
        let ghost i0 = i as int;
        let mut j = i;
        while j < n && is_ws_exec(cs[j])
            invariant
                i0 <= j <= n,
                n == cs.len(),
                skip_ws(cs@, i0) == skip_ws(cs@, j as int),
            decreases n - j,
        {
            j = j + 1;
        }
        if j >= n {
            proof {
                assert(words_from(cs@, i0) =~= Seq::<Seq<char>>::empty());
            }
            i = n;
            assert(words_from(cs@, i as int) =~= Seq::<Seq<char>>::empty());
        } else {
            let mut k = j;
            while k < n && !is_ws_exec(cs[k])
                invariant
                    j <= k <= n,
                    n == cs.len(),
                    skip_word(cs@, j as int) == skip_word(cs@, k as int),
                decreases n - k,
            {
                k = k + 1;
            }
            let mut w = string_of(&cs, j, k);
            w.push(' ');
            assert(w@ =~= spaced(cs@.subrange(j as int, k as int)));
            let ghost before = out@;
            out.push(w);
            proof {
                lemma_skips(cs@, i0);
                let ws = words_from(cs@, i0);
                let wd = cs@.subrange(j as int, k as int);
                assert(ws == seq![wd] + words_from(cs@, k as int));
                assert(spaced_words(ws) =~= seq![spaced(wd)] + spaced_words(words_from(cs@, k as int)));
                assert(texts(out@) =~= texts(before).push(spaced(wd)));
                assert(texts(out@) + spaced_words(words_from(cs@, k as int)) =~= texts(before) + spaced_words(ws));
            }
            i = k;
        }
    }
    assert(words_from(cs@, i as int) =~= Seq::<Seq<char>>::empty());
    assert(texts(out@) + spaced_words(words_from(cs@, i as int)) =~= texts(out@));
    out
}

// ── Routing ────────────────────────────────────────────────────────────

/// What the browser stub answers when Chrome is not connected.
pub open spec fn stub_message() -> Seq<char> {
    "Browser target not connected. Start Chrome with --remote-debugging-port=9222"@
}

pub fn browser_stub_error() -> (r: TargetError)
    ensures
        r matches TargetError::ConnectionFailed(m) && m@ == stub_message(),
{
    TargetError::ConnectionFailed(String::from_str("Browser target not connected. Start Chrome with --remote-debugging-port=9222"))
}

/// The provider a configuration routes to.
#[derive(Debug)]
pub enum Route {
    /// The API target: endpoint, key (empty when none is set) and model.
    Api { endpoint: String, api_key: String, model: String },
    /// The browser, until a live connection replaces the stub.
    BrowserStub,
}

pub fn route_for(config: &TargetConfig) -> (r: Route)
    ensures
        config.target == Target::Api ==> (r matches Route::Api { endpoint, api_key, model }
            && endpoint == config.api_endpoint
            && api_key@ == (match config.api_key { Some(k) => k@, None => Seq::empty() })
            && model == config.model),
        config.target == Target::Browser ==> r is BrowserStub,
{
    match config.target {
        Target::Api => Route::Api {
            endpoint: config.api_endpoint.clone(),
            api_key: match &config.api_key {
                Some(k) => k.clone(),
                None => String::new(),
            },
            model: config.model.clone(),
        },
        Target::Browser => Route::BrowserStub,
    }
}

} // verus!
