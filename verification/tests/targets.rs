use chatapi::shared::{ChatMessage, Role};
use chatapi::target::{Target, TargetConfig};
use chatapi::targets::{
    bearer, browser_response, browser_stub_error, build_prompt, completions_url, healthy_status, models_url,
    request_status, route_for, sse_chunk_text, stream_status, word_tokens, Route,
};
use chatapi::traits::TargetError;

#[test]
fn api_urls_and_headers() {
    assert_eq!(completions_url("https://api.x.com/v1//"), "https://api.x.com/v1/chat/completions");
    assert_eq!(completions_url("https://api.x.com/v1"), "https://api.x.com/v1/chat/completions");
    assert_eq!(models_url("http://h/"), "http://h/models");
    assert_eq!(bearer("k"), "Bearer k");
}

#[test]
fn statuses_are_read() {
    assert!(healthy_status(200));
    assert!(healthy_status(204));
    assert!(healthy_status(404));
    assert!(!healthy_status(500));
    assert!(request_status(200, "").is_ok());
    match request_status(401, "x") {
        Err(TargetError::RequestFailed(m)) => assert_eq!(m, "Unauthorized (401)"),
        other => panic!("unexpected {:?}", other),
    }
    match request_status(429, "x") {
        Err(TargetError::RequestFailed(m)) => assert_eq!(m, "Rate limited (429)"),
        other => panic!("unexpected {:?}", other),
    }
    match request_status(500, "oops") {
        Err(TargetError::RequestFailed(m)) => assert_eq!(m, "API returned 500 Internal Server Error: oops"),
        other => panic!("unexpected {:?}", other),
    }
    match stream_status(401, "no") {
        Err(TargetError::RequestFailed(m)) => assert_eq!(m, "API returned 401 Unauthorized: no"),
        other => panic!("unexpected {:?}", other),
    }
    assert!(stream_status(200, "").is_ok());
}

#[test]
fn streamed_chunks_give_their_tokens() {
    let chunk = "data: {\"choices\":[{\"delta\":{\"content\":\"Hel\"}}]}\n\ndata: {\"choices\":[{\"delta\":{\"content\":\"lo\"}}]}\n\ndata: [DONE]\n\n";
    assert_eq!(sse_chunk_text(chunk), "Hello");
    assert_eq!(sse_chunk_text("data: {\"choices\":[{\"delta\":{}}]}\r\n: ping\n"), "");
    assert_eq!(sse_chunk_text("data: {\"choices\":[{\"delta\":{\"content\":\"x\"}}]}\r\n"), "x");
    assert_eq!(sse_chunk_text(""), "");
}

#[test]
fn browser_prompt_and_answer() {
    let msgs = vec![
        ChatMessage { role: Role::System, content: "s".into() },
        ChatMessage { role: Role::User, content: "u".into() },
        ChatMessage { role: Role::Assistant, content: "a".into() },
    ];
    assert_eq!(build_prompt(&msgs), "System: s\n\nUser: u\n\nAssistant: a");
    assert_eq!(build_prompt(&Vec::new()), "");
    let r = browser_response("m".into(), "abcd", "hello".into());
    assert_eq!(r.model, "m");
    assert_eq!(r.choices[0].message.content, "hello");
    assert_eq!(r.usage.prompt_tokens, 1);
    assert_eq!(r.usage.completion_tokens, 2);
    assert_eq!(r.usage.total_tokens, 3);
}

#[test]
fn browser_answer_streams_word_by_word() {
    assert_eq!(word_tokens("  hello  world\n"), vec!["hello ".to_string(), "world ".to_string()]);
    assert!(word_tokens(" \t ").is_empty());
    assert_eq!(word_tokens("one"), vec!["one ".to_string()]);
}

#[test]
fn routing_follows_the_config() {
    assert!(matches!(route_for(&TargetConfig::default()), Route::BrowserStub));
    let c = TargetConfig { target: Target::Api, api_endpoint: "e".into(), api_key: None, model: "m".into() };
    match route_for(&c) {
        Route::Api { endpoint, api_key, model } => {
            assert_eq!(endpoint, "e");
            assert_eq!(api_key, "");
            assert_eq!(model, "m");
        }
        other => panic!("unexpected {:?}", other),
    }
    match browser_stub_error() {
        TargetError::ConnectionFailed(m) => {
            assert_eq!(m, "Browser target not connected. Start Chrome with --remote-debugging-port=9222")
        }
        other => panic!("unexpected {:?}", other),
    }
}
