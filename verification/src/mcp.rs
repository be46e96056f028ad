//! MCP servers' tools as the gateway sees them: what a tool call's result
//! becomes, and the texts of the JSON-RPC exchange with a server.
use vstd::prelude::*;
use crate::json::texts;
use crate::rules::prompt::{join, push_join};
use crate::text::{decimal, push_decimal, push_str};
use crate::traits::ToolResult;

verus! {

broadcast use vstd::seq_lib::group_seq_properties;

/// The texts among a result's content items, in order (items without text
/// are left out).
pub open spec fn present_texts(items: Seq<Option<String>>) -> Seq<Seq<char>>
    decreases items.len(),
{
    if items.len() == 0 {
        Seq::empty()
    } else {
        present_texts(items.drop_last()) + match items.last() {
            Some(t) => seq![t@],
            None => Seq::empty(),
        }
    }
}

/// What a tool call on an MCP server gives the gateway: the content's texts,
/// one per line, as an error the model may recover from when the server
/// flagged one, else as the result.
pub fn call_outcome(is_error: bool, content: &Vec<Option<String>>) -> (r: ToolResult)
    ensures
        is_error ==> (r matches ToolResult::Error { message, recoverable }
            && message@ == join(present_texts(content@), "\n"@) && recoverable),
        !is_error ==> (r matches ToolResult::Text(t) && t@ == join(present_texts(content@), "\n"@)),
{
    let mut parts: Vec<String> = Vec::new();
    let mut i: usize = 0;
    while i < content.len()
        invariant
            i <= content.len(),
            texts(parts@) == present_texts(content@.take(i as int)),
        decreases content.len() - i,
    {
        assert(content@.take(i + 1).drop_last() =~= content@.take(i as int));
        assert(content@.take(i + 1).last() == content@[i as int]);
        match &content[i] {
            Some(t) => {
                let ghost before = texts(parts@);
                parts.push(t.clone());
                assert(texts(parts@) =~= before + seq![t@]);
            },
            None => {
                assert(present_texts(content@.take(i + 1)) =~= present_texts(content@.take(i as int)));
            },
        }
        i = i + 1;
    }
    assert(content@.take(i as int) =~= content@);
    let mut message = String::new();
    push_join(&mut message, &parts, "\n");
    if is_error {
        ToolResult::Error { message, recoverable: true }
    } else {
        ToolResult::Text(message)
    }
}

/// A tool's description as offered: empty when the server gave none.
pub fn tool_description(description: &Option<String>) -> (r: String)
    ensures
        r@ == (match description { Some(d) => d@, None => Seq::empty() }),
{
    match description {
        Some(d) => d.clone(),
        None => String::new(),
    }
}

/// A tool's parameter schema as offered (JSON text): `{}` when the server
/// gave none.
pub fn tool_schema(schema: &Option<String>) -> (r: String)
    ensures
        r@ == (match schema { Some(s) => s@, None => "{}"@ }),
{
    match schema {
        Some(s) => s.clone(),
        None => String::from_str("{}"),
    }
}

/// The message of a server's JSON-RPC error.
pub open spec fn mcp_error_text(code: i64, message: Seq<char>) -> Seq<char> {
    "MCP error "@ + (if code < 0 { "-"@ + decimal((-code) as nat) } else { decimal(code as nat) }) + ": "@ + message
}

pub fn mcp_error(code: i64, message: &str) -> (r: String)
    ensures
        r@ == mcp_error_text(code, message@),
{
    let mut out = String::from_str("MCP error ");
    if code < 0 {
        push_str(&mut out, "-");
        let mag: u64 = if code == i64::MIN { 9223372036854775808u64 } else { (-code) as u64 };
        push_decimal(&mut out, mag);
    } else {
        push_decimal(&mut out, code as u64);
    }
    push_str(&mut out, ": ");
    push_str(&mut out, message);
    out
}

/// The MCP protocol version the client speaks.
pub fn protocol_version() -> (r: &'static str)
    ensures
        r@ == "2024-11-05"@,
{
    "2024-11-05"
}

/// The name the client introduces itself with.
pub fn client_name() -> (r: &'static str)
    ensures
        r@ == "chatapi"@,
{
    "chatapi"
}

/// The error of a server that could not be started.
pub fn spawn_error(name: &str, cause: &str) -> (r: String)
    ensures
        r@ == "Failed to spawn MCP server '"@ + name@ + "': "@ + cause@,
{
    let mut out = String::from_str("Failed to spawn MCP server '");
    push_str(&mut out, name);
    push_str(&mut out, "': ");
    push_str(&mut out, cause);
    out
}

} // verus!
