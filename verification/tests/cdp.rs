use chatapi::cdp::discovery::{
    chrome_search_paths, devtools_active_port, expand_search_path, parse_devtools_active_port, version_url,
};
use chatapi::cdp::engine::{
    char_to_code, chat_input_selectors, jitter_ms, jitter_of, parse_chat_token, root_node, selected_node, ResponseWait,
};
use chatapi::cdp::events::{
    await_response, classify_message, command_text, event_in, parse_cdp_event, Awaited, CdpEvent, CdpMessage,
    CommandIds, WebSocketFrame,
};

fn frame(payload: &str, is_binary: bool) -> WebSocketFrame {
    WebSocketFrame { payload: payload.to_string(), is_binary }
}

#[test]
fn keys_map_to_codes() {
    assert_eq!(char_to_code('a'), "KeyA");
    assert_eq!(char_to_code('Z'), "KeyA");
    assert_eq!(char_to_code('7'), "Digit0");
    assert_eq!(char_to_code(' '), "Space");
    assert_eq!(char_to_code('\r'), "Enter");
    assert_eq!(char_to_code('?'), "Slash");
    assert_eq!(char_to_code('>'), "Period");
    assert_eq!(char_to_code('\u{20AC}'), "Unidentified");
}

#[test]
fn chat_tokens_from_frames() {
    assert_eq!(parse_chat_token(&frame("hello", true)), None);
    assert_eq!(
        parse_chat_token(&frame("data: {\"choices\":[{\"delta\":{\"content\":\"Hi\"}}]}\n\n", false)),
        Some("Hi".to_string())
    );
    assert_eq!(parse_chat_token(&frame("data: [DONE]\n\n", false)), None);
    assert_eq!(
        parse_chat_token(&frame("data: {\"choices\":[{\"delta\":{\"content\":\"\"}}],\"content\":\"g\"}", false)),
        Some("g".to_string())
    );
    assert_eq!(
        parse_chat_token(&frame("data: oops\ndata: {\"content\":\"y\"}", false)),
        Some("y".to_string())
    );
    assert_eq!(parse_chat_token(&frame("data: {\"other\":1}", false)), None);
    assert_eq!(parse_chat_token(&frame("{\"content\":\"x\",\"done\":false}", false)), Some("x".to_string()));
    assert_eq!(
        parse_chat_token(&frame("{\"choices\":[{\"delta\":{\"content\":\"\"}}]}", false)),
        Some(String::new())
    );
    assert_eq!(parse_chat_token(&frame("\"tok\"", false)), Some("tok".to_string()));
    assert_eq!(parse_chat_token(&frame("plain words", false)), Some("plain words".to_string()));
    assert_eq!(parse_chat_token(&frame("123", false)), Some("123".to_string()));
    assert_eq!(parse_chat_token(&frame("{bad", false)), None);
    assert_eq!(parse_chat_token(&frame("[1,2]", false)), None);
    assert_eq!(parse_chat_token(&frame("", false)), None);
}

#[test]
fn frame_events_are_read() {
    let e = parse_cdp_event(
        "Network.webSocketFrameReceived",
        "{\"requestId\":\"r1\",\"timestamp\":1.5,\"response\":{\"payloadData\":\"p\",\"opcode\":2}}",
    );
    match e {
        CdpEvent::WebSocketFrameReceived { request_id, timestamp, response } => {
            assert_eq!(request_id, "r1");
            assert_eq!(timestamp.as_deref(), Some("1.5"));
            assert_eq!(response.payload, "p");
            assert!(response.is_binary);
        }
        other => panic!("unexpected {:?}", other),
    }
    match parse_cdp_event("Network.webSocketFrameSent", "{\"response\":{\"opcode\":1}}") {
        CdpEvent::WebSocketFrameSent { request_id, timestamp, response } => {
            assert_eq!(request_id, "");
            assert!(timestamp.is_none());
            assert_eq!(response.payload, "");
            assert!(!response.is_binary);
        }
        other => panic!("unexpected {:?}", other),
    }
    match parse_cdp_event("Page.frameNavigated", "{\"frame\":{\"url\":\"https://x\"}}") {
        CdpEvent::PageNavigated { url } => assert_eq!(url, "https://x"),
        other => panic!("unexpected {:?}", other),
    }
    match parse_cdp_event("Page.loadEventFired", "{}") {
        CdpEvent::PageNavigated { url } => assert_eq!(url, "about:blank"),
        other => panic!("unexpected {:?}", other),
    }
    assert!(matches!(parse_cdp_event("DOM.documentUpdated", "{}"), CdpEvent::DomReady));
    assert!(matches!(parse_cdp_event("Page.domContentEventFired", "{}"), CdpEvent::DomReady));
    match parse_cdp_event("Runtime.consoleAPICalled", "{\"a\":1}") {
        CdpEvent::Unknown { method, params } => {
            assert_eq!(method, "Runtime.consoleAPICalled");
            assert_eq!(params, "{\"a\":1}");
        }
        other => panic!("unexpected {:?}", other),
    }
}

#[test]
fn socket_messages_are_classified() {
    match classify_message("{\"id\":3,\"result\":{\"a\":1}}") {
        Some(CdpMessage::Response { id, result, error }) => {
            assert_eq!(id, 3);
            assert_eq!(result, "{\"a\":1}");
            assert!(error.is_none());
        }
        other => panic!("unexpected {:?}", other),
    }
    match classify_message("{\"id\":4,\"error\":{\"code\":-32000,\"message\":\"bad\"}}") {
        Some(CdpMessage::Response { id, result, error }) => {
            assert_eq!(id, 4);
            assert_eq!(result, "null");
            assert_eq!(error, Some((-32000, "bad".to_string())));
        }
        other => panic!("unexpected {:?}", other),
    }
    match classify_message("{\"method\":\"X\",\"params\":{}}") {
        Some(CdpMessage::Event { method, params }) => {
            assert_eq!(method, "X");
            assert_eq!(params, "{}");
        }
        other => panic!("unexpected {:?}", other),
    }
    assert!(classify_message("{\"foo\":1}").is_none());
    assert!(classify_message("not json").is_none());
}

#[test]
fn waiting_for_a_command_response() {
    let err = "{\"id\":4,\"error\":{\"code\":-32000,\"message\":\"bad\"}}";
    match await_response(4, err) {
        Awaited::Failed(m) => assert_eq!(m, "CDP error -32000: bad"),
        other => panic!("unexpected {:?}", other),
    }
    match await_response(3, "{\"id\":3,\"result\":{\"a\":1}}") {
        Awaited::Result(r) => assert_eq!(r, "{\"a\":1}"),
        other => panic!("unexpected {:?}", other),
    }
    assert!(matches!(await_response(5, err), Awaited::Skip));
    assert!(matches!(await_response(1, "{\"method\":\"X\",\"params\":{}}"), Awaited::Skip));
    assert!(matches!(event_in("{\"method\":\"DOM.documentUpdated\",\"params\":{}}"), Some(CdpEvent::DomReady)));
    assert!(event_in(err).is_none());
}

#[test]
fn commands_are_numbered_and_written() {
    let mut ids = CommandIds::new();
    assert_eq!(ids.take(), 1);
    assert_eq!(ids.take(), 2);
    assert_eq!(command_text(1, "Page.enable", "{}"), "{\"id\":1,\"method\":\"Page.enable\",\"params\":{}}");
    let v: serde_json::Value = serde_json::from_str(&command_text(7, "DOM.focus", "{\"nodeId\":3}")).unwrap();
    assert_eq!(v["id"], 7);
    assert_eq!(v["method"], "DOM.focus");
    assert_eq!(v["params"]["nodeId"], 3);
}

#[test]
fn the_wait_ends_on_silence_or_reload() {
    let mut w = ResponseWait::new();
    match w.next_timeout(0) {
        Err(m) => assert_eq!(m, "Timed out waiting for response to start"),
        Ok(_) => panic!("no time left"),
    }
    assert_eq!(w.next_timeout(1200), Ok(1200));
    assert!(!w.on_silence());
    assert!(!w.on_event(&CdpEvent::DomReady));
    let ev = CdpEvent::WebSocketFrameReceived { request_id: "r".into(), timestamp: None, response: frame("Hel", false) };
    assert!(!w.on_event(&ev));
    let ev = CdpEvent::WebSocketFrameReceived { request_id: "r".into(), timestamp: None, response: frame("lo", false) };
    assert!(!w.on_event(&ev));
    assert_eq!(w.next_timeout(0), Ok(500));
    assert!(!w.on_event(&CdpEvent::PageNavigated { url: "x".into() }));
    assert!(w.on_silence());
    assert!(w.on_event(&CdpEvent::DomReady));
    assert_eq!(w.into_text(), "Hello");
}

#[test]
fn jitter_and_nodes() {
    for _ in 0..50 {
        let j = jitter_ms();
        assert!((2..=7).contains(&j));
    }
    assert_eq!(chat_input_selectors()[0], "textarea");
    assert_eq!(chat_input_selectors().len(), 5);
    assert_eq!(selected_node("{\"nodeId\":5}"), Some(5));
    assert_eq!(selected_node("{\"nodeId\":0}"), None);
    assert_eq!(selected_node("{}"), None);
    assert_eq!(root_node("{\"root\":{\"nodeId\":1,\"x\":2}}"), Some(Some(1)));
    assert_eq!(root_node("{\"root\":{}}"), Some(None));
    assert_eq!(root_node("{}"), None);
}

#[test]
fn devtools_active_port_file() {
    assert_eq!(devtools_active_port(), "DevToolsActivePort");
    assert_eq!(
        parse_devtools_active_port("9222\n/devtools/browser/abc\n"),
        Ok((9222, "/devtools/browser/abc".to_string()))
    );
    assert_eq!(parse_devtools_active_port(" 9222 \r\n /p \r\n"), Ok((9222, "/p".to_string())));
    assert_eq!(parse_devtools_active_port("+80\n/p"), Ok((80, "/p".to_string())));
    assert_eq!(parse_devtools_active_port("9222\n\n"), Ok((9222, String::new())));
    assert_eq!(parse_devtools_active_port(""), Err("DevToolsActivePort: missing port line".to_string()));
    assert_eq!(parse_devtools_active_port("9222"), Err("DevToolsActivePort: missing WebSocket path line".to_string()));
    assert_eq!(parse_devtools_active_port("9222\n"), Err("DevToolsActivePort: missing WebSocket path line".to_string()));
    assert_eq!(parse_devtools_active_port("x\n/y"), Err("Invalid port number: 'x'".to_string()));
    assert_eq!(parse_devtools_active_port("70000\n/y"), Err("Invalid port number: '70000'".to_string()));
    assert_eq!(parse_devtools_active_port("-1\n/y"), Err("Invalid port number: '-1'".to_string()));
}

#[test]
fn search_paths_and_urls() {
    assert_eq!(version_url(9222), "http://127.0.0.1:9222/json/version");
    assert_eq!(chrome_search_paths().len(), 11);
    assert_eq!(expand_search_path(Some("/home/u"), ".config/chromium"), "/home/u/.config/chromium");
    assert_eq!(expand_search_path(None, ".config/x"), "/root/.config/x");
    assert_eq!(expand_search_path(Some("/h/"), "a"), "/h/a");
    assert_eq!(expand_search_path(Some("/home/u"), "/tmp/chromium-profile"), "/tmp/chromium-profile");
    assert_eq!(expand_search_path(Some(""), "a/b"), "a/b");
}

#[test]
fn jitter_is_two_ms_and_the_number_modulo_six() {
    assert_eq!(jitter_of(0), 2);
    assert_eq!(jitter_of(5), 7);
    assert_eq!(jitter_of(6), 2);
    assert_eq!(jitter_of(u64::MAX), 5);
}

#[test]
fn socket_messages_in_array_form_are_classified() {
    match classify_message("[3]") {
        Some(CdpMessage::Response { id, result, error }) => {
            assert_eq!(id, 3);
            assert_eq!(result, "null");
            assert!(error.is_none());
        }
        other => panic!("unexpected {:?}", other),
    }
    match classify_message("[4, {\"a\":1}, [-32000, \"bad\"]]") {
        Some(CdpMessage::Response { id, result, error }) => {
            assert_eq!(id, 4);
            assert_eq!(result, "{\"a\":1}");
            assert_eq!(error, Some((-32000, "bad".to_string())));
        }
        other => panic!("unexpected {:?}", other),
    }
    match classify_message("[\"X\", {}]") {
        Some(CdpMessage::Event { method, params }) => {
            assert_eq!(method, "X");
            assert_eq!(params, "{}");
        }
        other => panic!("unexpected {:?}", other),
    }
    match classify_message("{\"id\":5,\"error\":[1, \"m\"]}") {
        Some(CdpMessage::Response { id, error, .. }) => {
            assert_eq!(id, 5);
            assert_eq!(error, Some((1, "m".to_string())));
        }
        other => panic!("unexpected {:?}", other),
    }
    assert!(classify_message("[\"X\"]").is_none());
    assert!(classify_message("[1, 2, null, 4]").is_none());
    assert!(classify_message("{\"id\":1,\"result\":1e400}").is_none());
    assert!(classify_message("{\"method\":\"X\",\"params\":{},\"n\":1e400}").is_none());
}
