use chatapi::shared::{
    completion_id_of, generate_id, FunctionCall, ToolCall, ToolCallsResponse, CdpSession, ChatApiError, ChatCompletionChunk, ChatCompletionResponse, Role, SessionStatus,
};

#[test]
fn test_generate_id_format() {
    let id = generate_id();
    assert!(id.starts_with("chatcmpl-"));
    assert_eq!(id.len(), 9 + 24);
}

#[test]
fn generated_ids_are_hex_and_differ() {
    let a = generate_id();
    let b = generate_id();
    assert!(a[9..].chars().all(|c| c.is_ascii_hexdigit() && !c.is_ascii_uppercase()));
    assert_ne!(a, b);
}

#[test]
fn test_error_into_response() {
    let err = ChatApiError::InvalidRequest("missing model".into());
    let (status, kind, message) = err.response_parts();
    assert_eq!(status, 400);
    assert_eq!(kind, "invalid_request_error");
    assert_eq!(message, "missing model");
}

#[test]
fn error_statuses_by_kind() {
    assert_eq!(ChatApiError::RateLimited.response_parts().0, 429);
    assert_eq!(ChatApiError::BrowserNotConnected.response_parts().0, 503);
    assert_eq!(ChatApiError::Discovery("x".into()).response_parts().1, "automation_error");
    let (s, k, m) = ChatApiError::ResponseTimeout(250).response_parts();
    assert_eq!((s, k), (500, "internal_error"));
    assert_eq!(m, "Timeout waiting for response after 250ms");
    assert_eq!(ChatApiError::Internal("boom".into()).display_text(), "Internal error: boom");
}

#[test]
fn test_response_serialize() {
    let resp = ChatCompletionResponse::new("deepseek-chat".into(), "hi there".into(), 10, 5);
    assert_eq!(resp.object, "chat.completion");
    assert_eq!(resp.choices[0].message.role, Role::Assistant);
    assert_eq!(resp.choices[0].message.content, "hi there");
    assert_eq!(resp.choices[0].finish_reason.as_deref(), Some("stop"));
    assert_eq!(resp.usage.prompt_tokens, 10);
    assert_eq!(resp.usage.total_tokens, 15);
    assert!(resp.id.starts_with("chatcmpl-"));
}

#[test]
fn test_chunk_delta_serialize() {
    let chunk = ChatCompletionChunk::new_delta("deepseek-chat", "chatcmpl-123", "token");
    assert_eq!(chunk.object, "chat.completion.chunk");
    assert_eq!(chunk.id, "chatcmpl-123");
    assert_eq!(chunk.choices[0].delta.content.as_deref(), Some("token"));
    assert!(chunk.choices[0].delta.role.is_none());
    assert!(chunk.choices[0].finish_reason.is_none());
}

#[test]
fn test_chunk_role_serialize() {
    let chunk = ChatCompletionChunk::new_role_chunk("deepseek-chat", "chatcmpl-123");
    assert_eq!(chunk.choices[0].delta.role, Some(Role::Assistant));
    assert!(chunk.choices[0].delta.content.is_none());
}

#[test]
fn test_chunk_finish_serialize() {
    let chunk = ChatCompletionChunk::new_finish("deepseek-chat", "chatcmpl-123");
    assert_eq!(chunk.choices[0].finish_reason.as_deref(), Some("stop"));
    assert!(chunk.choices[0].delta.content.is_none());
}

#[test]
fn test_session_status_serialize() {
    let session = CdpSession::new();
    assert_eq!(session.status, SessionStatus::Idle);
    assert_eq!(session.id.len(), 36);
}

#[test]
fn role_names() {
    assert_eq!(Role::User.as_str(), "user");
    assert_eq!(Role::Assistant.as_str(), "assistant");
    assert_eq!(Role::System.as_str(), "system");
}

#[test]
fn completion_id_takes_the_first_hex_digits_of_the_uuid() {
    let id = completion_id_of("123e4567-e89b-12d3-a456-426614174000");
    assert_eq!(id, "chatcmpl-123e4567e89b12d3a4564266");
    let other = completion_id_of("ffffffff-0000-4000-8000-abcdefabcdef");
    assert_eq!(other, "chatcmpl-ffffffff000040008000abcd");
}

#[test]
fn tool_calls_response_carries_the_calls_and_usage() {
    let call = ToolCall {
        id: "call_1".into(),
        call_type: "function".into(),
        function: FunctionCall { name: "read_file".into(), arguments: "{}".into() },
    };
    let r = ToolCallsResponse::new("chatcmpl-x".into(), 7, "m".into(), vec![call], 3, 4);
    assert_eq!(r.id, "chatcmpl-x");
    assert_eq!(r.object, "chat.completion");
    assert_eq!(r.created, 7);
    assert_eq!(r.model, "m");
    assert_eq!(r.tool_calls.len(), 1);
    assert_eq!(r.tool_calls[0].function.name, "read_file");
    assert_eq!(r.finish_reason, "tool_calls");
    assert_eq!((r.usage.prompt_tokens, r.usage.completion_tokens, r.usage.total_tokens), (3, 4, 7));
    let capped = ToolCallsResponse::new("i".into(), 0, "m".into(), vec![], u32::MAX, 5);
    assert_eq!(capped.usage.total_tokens, u32::MAX);
}
