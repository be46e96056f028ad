use chatapi::gateway::streaming::{Incoming, SseEvent, SseStep, SseStream};
use chatapi::tool_parser::parse_tool_calls_from_text;

fn content(step: &SseStep) -> Option<&str> {
    match step {
        SseStep::Emit(SseEvent::Content(t)) => Some(t.as_str()),
        _ => None,
    }
}

#[test]
fn small_tokens_are_gathered_and_flushed() {
    let mut s = SseStream::new("chatcmpl-1".into(), "m".into());
    assert_eq!(s.id(), "chatcmpl-1");
    assert_eq!(s.model(), "m");
    assert!(s.poll_ready().is_none());
    assert!(matches!(s.on_incoming(Incoming::Token("Hel".into())), SseStep::Again));
    assert!(matches!(s.on_incoming(Incoming::Token("lo".into())), SseStep::Again));
    let step = s.on_incoming(Incoming::Empty);
    assert_eq!(content(&step), Some("Hello"));
    assert!(matches!(s.on_incoming(Incoming::Empty), SseStep::Wait));
    assert!(matches!(s.on_incoming(Incoming::Closed), SseStep::Emit(SseEvent::Stop)));
    assert!(matches!(s.poll_ready(), Some(SseStep::Emit(SseEvent::Done))));
    assert!(matches!(s.poll_ready(), Some(SseStep::End)));
    assert!(matches!(s.poll_ready(), Some(SseStep::End)));
}

#[test]
fn a_full_buffer_goes_out_at_once() {
    let mut s = SseStream::new("id".into(), "m".into());
    let long = "x".repeat(64);
    let step = s.on_incoming(Incoming::Token(long.clone()));
    assert_eq!(content(&step), Some(long.as_str()));
    assert!(matches!(s.on_incoming(Incoming::Token("tail".into())), SseStep::Again));
    // the buffer is sent as a last content chunk when the target is done
    let step = s.on_incoming(Incoming::Closed);
    assert_eq!(content(&step), Some("tail"));
    assert!(matches!(s.poll_ready(), Some(SseStep::Emit(SseEvent::Stop))));
    assert!(matches!(s.poll_ready(), Some(SseStep::Emit(SseEvent::Done))));
    assert!(matches!(s.poll_ready(), Some(SseStep::End)));
}

#[test]
fn tool_calls_replace_the_pending_content() {
    let text = "Let me read that file for you right away.\n```json\n{\"name\": \"read_file\", \"arguments\": {\"path\": \"a\"}}\n```";
    assert!(text.len() >= 64);
    let expected = parse_tool_calls_from_text(text);
    assert_eq!(expected.tool_calls.len(), 1);
    let mut s = SseStream::new("id".into(), "m".into());
    let first = s.on_incoming(Incoming::Token(text.into()));
    assert_eq!(content(&first), Some(text));
    let mut events = Vec::new();
    let mut step = s.on_incoming(Incoming::Closed);
    loop {
        match step {
            SseStep::Emit(e) => events.push(e),
            SseStep::End => break,
            _ => panic!("unexpected step"),
        }
        step = s.poll_ready().unwrap();
    }
    let mut i = 0;
    if !expected.prefix_text.is_empty() {
        match &events[0] {
            SseEvent::Content(t) => assert_eq!(t, &expected.prefix_text),
            other => panic!("unexpected {:?}", other),
        }
        i = 1;
    }
    match &events[i] {
        SseEvent::ToolCallStart { index, id, call_type, name } => {
            assert_eq!(*index, 0);
            assert_eq!(id, "call_1");
            assert_eq!(call_type, "function");
            assert_eq!(name, "read_file");
        }
        other => panic!("unexpected {:?}", other),
    }
    match &events[i + 1] {
        SseEvent::ToolCallArguments { index, arguments } => {
            assert_eq!(*index, 0);
            assert_eq!(arguments, "{\"path\":\"a\"}");
        }
        other => panic!("unexpected {:?}", other),
    }
    assert!(matches!(events[events.len() - 2], SseEvent::ToolCallsStop));
    assert!(matches!(events[events.len() - 1], SseEvent::Done));
}

#[test]
fn an_empty_answer_still_ends() {
    let mut s = SseStream::new("id".into(), "m".into());
    s.flush_final();
    s.flush_final();
    assert!(matches!(s.poll_ready(), Some(SseStep::Emit(SseEvent::Stop))));
    assert!(matches!(s.poll_ready(), Some(SseStep::Emit(SseEvent::Done))));
    assert!(matches!(s.poll_ready(), Some(SseStep::End)));
}

#[test]
fn a_call_in_the_unsent_tail_is_counted_once() {
    let mut s = SseStream::new("id".into(), "m".into());
    let tail = "```json\n{\"name\": \"a\"}\n```";
    assert!(tail.len() < 64);
    assert!(matches!(s.on_incoming(Incoming::Token(tail.into())), SseStep::Again));
    let mut events = Vec::new();
    let mut step = s.on_incoming(Incoming::Closed);
    loop {
        match step {
            SseStep::Emit(e) => events.push(e),
            SseStep::End => break,
            _ => panic!("unexpected step"),
        }
        step = s.poll_ready().unwrap();
    }
    let starts = events.iter().filter(|e| matches!(e, SseEvent::ToolCallStart { .. })).count();
    assert_eq!(starts, 1);
    assert!(!events.iter().any(|e| matches!(e, SseEvent::Content(_))));
    assert!(matches!(events[events.len() - 2], SseEvent::ToolCallsStop));
}

#[test]
fn checked_steps_run_like_plain_ones_when_the_calls_fit() {
    let text = "Reading.\n```json\n{\"name\": \"read_file\", \"arguments\": {\"path\": \"a\"}}\n```";
    let mut s = SseStream::new("id".into(), "m".into());
    assert!(matches!(s.try_on_incoming(Incoming::Token(text.into())), Some(SseStep::Emit(SseEvent::Content(_)))));
    assert!(matches!(s.try_on_incoming(Incoming::Empty), Some(SseStep::Wait)));
    let mut events = Vec::new();
    let mut step = s.try_on_incoming(Incoming::Closed).unwrap();
    loop {
        match step {
            SseStep::Emit(e) => events.push(e),
            SseStep::End => break,
            _ => panic!("unexpected step"),
        }
        step = s.poll_ready().unwrap();
    }
    assert!(matches!(&events[0], SseEvent::Content(t) if t == "Reading."));
    assert!(matches!(&events[1], SseEvent::ToolCallStart { index: 0, id, name, .. } if id == "call_1" && name == "read_file"));
    assert!(matches!(&events[2], SseEvent::ToolCallArguments { index: 0, arguments } if arguments == "{\"path\":\"a\"}"));
    assert!(matches!(events[3], SseEvent::ToolCallsStop));
    assert!(matches!(events[4], SseEvent::Done));
    assert_eq!(events.len(), 5);
}
