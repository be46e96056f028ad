use chatapi::gateway::rate_limit::RateLimiter;
use chatapi::gateway::routes::{estimate_tokens, tool_result_text, truncate_output};
use chatapi::traits::ToolResult;

const SEC: u64 = 1_000_000_000;

#[test]
fn truncate_output_ascii() {
    let result = truncate_output("hello world", 5);
    assert!(result.contains("hello"));
    assert!(result.contains("truncated"));
    assert_eq!(result, "hello\n\n[...truncated at 5 bytes]");
}

#[test]
fn truncate_output_utf8_emoji_boundary() {
    let text = "Hello \u{1F600}world";
    let result = truncate_output(text, 8);
    assert!(result.contains("Hello"));
    assert!(!result.is_empty());
    assert_eq!(result, "Hello \n\n[...truncated at 8 bytes]");
}

#[test]
fn truncate_output_noop_when_under_limit() {
    let text = "short text";
    let result = truncate_output(text, 100);
    assert_eq!(result, text);
}

#[test]
fn estimate_tokens_rounds_up() {
    assert_eq!(estimate_tokens(""), 0);
    assert_eq!(estimate_tokens("abcd"), 1);
    assert_eq!(estimate_tokens("abcde"), 2);
}

#[test]
fn tool_results_are_reported() {
    let (t, e) = tool_result_text(&ToolResult::Error { message: "nope".into(), recoverable: true }, 10);
    assert_eq!((t.as_str(), e), ("Error: nope", true));
    let (t, e) = tool_result_text(&ToolResult::Diff { old: "a".into(), new: "b".into(), path: "f.rs".into() }, 1000);
    assert_eq!(t, "Diff for f.rs:\n--- old\na\n+++ new\nb");
    assert!(!e);
}

#[test]
fn rate_limiter_grants_up_to_the_limit_then_waits() {
    let mut rl = RateLimiter::new(2, 60);
    assert_eq!(rl.check("ip", 0), Ok(1));
    assert_eq!(rl.check("ip", SEC), Ok(0));
    assert_eq!(rl.check("ip", 10 * SEC), Err(50));
    assert_eq!(rl.check("other", 10 * SEC), Ok(1));
    // a new window opens after 60 seconds
    assert_eq!(rl.check("ip", 61 * SEC), Ok(1));
}

#[test]
fn rate_limiter_wait_is_at_least_one_second() {
    let mut rl = RateLimiter::new(0, 1);
    assert_eq!(rl.check("k", 0), Err(1));
}

use chatapi::gateway::rate_limit::{client_ip, rejection, TwoTierRateLimiter};
use chatapi::gateway::routes::{
    allowed_tool_names, chat_tool_report_text, check_tool_request, gate_tool_call, path_blocked_text, reply_action, try_reply_action,
    ReplyAction, ToolGate,
};
use chatapi::gateway::ws::{input_step, output_step, shell_program, InputStep, OutputStep, TerminalInput};
use chatapi::rules::config::ChatApiConfig;
use chatapi::shared::ChatApiError;
use chatapi::traits::ToolError;

fn rules(allowed: &[&str], blocked: &[&str]) -> ChatApiConfig {
    let mut c = ChatApiConfig::default();
    c.rules.allowed_tools = allowed.iter().map(|s| s.to_string()).collect();
    c.rules.blocked_paths = blocked.iter().map(|s| s.to_string()).collect();
    c
}

#[test]
fn tool_calls_are_gated() {
    let c = rules(&["read_file", "run_command"], &["/etc"]);
    assert_eq!(gate_tool_call("write_file", "{}", &c), ToolGate::NotAllowed);
    assert_eq!(gate_tool_call("read_file", "{\"path\": \"/etc/passwd\"}", &c), ToolGate::PathBlocked);
    assert_eq!(gate_tool_call("run_command", "{\"command\": \"ls\", \"cwd\": \"/etc\"}", &c), ToolGate::PathBlocked);
    assert_eq!(gate_tool_call("read_file", "{\"path\": \"src/main.rs\"}", &c), ToolGate::Run);
    assert_eq!(gate_tool_call("read_file", "not json", &c), ToolGate::Run);
    assert_eq!(gate_tool_call("read_file", "{\"path\": 3}", &c), ToolGate::Run);
    assert_eq!(path_blocked_text(), "Error: path blocked by config");
}

#[test]
fn direct_tool_requests_are_checked() {
    let c = rules(&["read_file"], &["/etc"]);
    match check_tool_request("write_file", "{}", &c) {
        Err(ChatApiError::InvalidRequest(m)) => assert_eq!(m, "Tool 'write_file' is not allowed by config"),
        other => panic!("unexpected {:?}", other),
    }
    match check_tool_request("read_file", "{\"path\":\"/etc/hosts\"}", &c) {
        Err(ChatApiError::InvalidRequest(m)) => assert_eq!(m, "Path '/etc/hosts' is blocked by config"),
        other => panic!("unexpected {:?}", other),
    }
    match check_tool_request("read_file", "{\"cwd\":\"/etc\"}", &c) {
        Err(ChatApiError::InvalidRequest(m)) => assert_eq!(m, "Path '/etc' is blocked by config"),
        other => panic!("unexpected {:?}", other),
    }
    assert!(check_tool_request("read_file", "{\"path\":\"a\"}", &c).is_ok());
}

#[test]
fn offered_tools_follow_the_rules() {
    let names: Vec<String> = ["read_file", "write_file", "git_diff"].iter().map(|s| s.to_string()).collect();
    assert_eq!(allowed_tool_names(&names, &rules(&[], &[])), names);
    assert_eq!(allowed_tool_names(&names, &rules(&["git_*"], &[])), vec!["git_diff".to_string()]);
}

#[test]
fn chat_tool_reports() {
    let (t, e) = chat_tool_report_text(&Ok(ToolResult::Error { message: "x".into(), recoverable: true }), 100);
    assert_eq!(t, "Error: x");
    assert!(!e);
    let (t, e) = chat_tool_report_text(&Err(ToolError::InvalidArgs("bad".into())), 100);
    assert_eq!(t, "Tool error: invalid arguments: bad");
    assert!(e);
    let (t, _) = chat_tool_report_text(&Ok(ToolResult::Text("abcdef".into())), 3);
    assert_eq!(t, "abc\n\n[...truncated at 3 bytes]");
}

#[test]
fn replies_are_classified() {
    assert!(matches!(reply_action(false, false, 3, Some("x")), ReplyAction::AnswerText));
    assert!(matches!(reply_action(true, true, 3, Some("x")), ReplyAction::AnswerText));
    assert!(matches!(reply_action(true, false, 1, None), ReplyAction::RunNativeCalls));
    assert!(matches!(reply_action(true, false, 0, Some("plain text")), ReplyAction::AnswerText));
    let text = "```json\n{\"name\": \"read_file\", \"arguments\": {\"path\": \"a\"}}\n```";
    match reply_action(true, false, 0, Some(text)) {
        ReplyAction::AnswerTextCalls(p) => {
            assert_eq!(p.tool_calls.len(), 1);
            assert_eq!(p.tool_calls[0].function.name, "read_file");
        }
        other => panic!("unexpected {:?}", other),
    }
    assert!(matches!(reply_action(true, false, 0, None), ReplyAction::AnswerText));
}

#[test]
fn checked_replies_are_classified_alike() {
    assert!(matches!(try_reply_action(false, false, 3, Some("x")), Some(ReplyAction::AnswerText)));
    assert!(matches!(try_reply_action(true, false, 1, None), Some(ReplyAction::RunNativeCalls)));
    let text = "Sure.\n```json\n[{\"name\": \"a\"}, {\"name\": \"b\", \"arguments\": \"{}\"}]\n```";
    match try_reply_action(true, false, 0, Some(text)) {
        Some(ReplyAction::AnswerTextCalls(p)) => {
            assert_eq!(p.tool_calls.len(), 2);
            assert_eq!(p.tool_calls[1].id, "call_2");
            assert_eq!(p.prefix_text, "Sure.");
        }
        other => panic!("unexpected {:?}", other),
    }
}

#[test]
fn two_tiers_count_separately() {
    let mut l = TwoTierRateLimiter::new(1, 2);
    assert_eq!(l.check("/v1/chat/completions", "ip", 0), Ok(0));
    assert_eq!(l.check("/v1/chat/completions", "ip", SEC), Err(59));
    assert_eq!(l.check("/sessions", "ip", SEC), Ok(1));
    assert_eq!(l.check("/sessions", "ip", 2 * SEC), Ok(0));
    assert_eq!(l.check("/sessions", "ip", 3 * SEC), Err(58));
    assert_eq!(l.check("/v1/chat/completions", "ip", 61 * SEC), Ok(0));
}

#[test]
fn clients_are_keyed_by_address() {
    assert_eq!(client_ip(Some(" 1.2.3.4 , 5.6.7.8"), Some("9.9.9.9")), "1.2.3.4");
    assert_eq!(client_ip(Some("10.0.0.1"), None), "10.0.0.1");
    assert_eq!(client_ip(None, Some("9.9.9.9")), "9.9.9.9");
    assert_eq!(client_ip(None, None), "global");
    let (h, b) = rejection(42);
    assert_eq!(h, "42");
    assert_eq!(b, "{\"error\":\"rate_limit_exceeded\",\"retry_after\":42}");
}

#[test]
fn terminal_pumps() {
    assert_eq!(shell_program(None), "/bin/bash");
    assert_eq!(shell_program(Some("/bin/zsh".into())), "/bin/zsh");
    assert_eq!(output_step(true, Some(0)), OutputStep::Stop);
    assert_eq!(output_step(false, Some(0)), OutputStep::Continue);
    assert_eq!(output_step(false, Some(5)), OutputStep::Forward);
    assert_eq!(output_step(true, None), OutputStep::Stop);
    match input_step(TerminalInput::Text("l\u{e9}".into())) {
        InputStep::Write(b) => assert_eq!(b, "l\u{e9}".as_bytes().to_vec()),
        other => panic!("unexpected {:?}", other),
    }
    match input_step(TerminalInput::Binary(vec![1, 2])) {
        InputStep::Write(b) => assert_eq!(b, vec![1, 2]),
        other => panic!("unexpected {:?}", other),
    }
    assert!(matches!(input_step(TerminalInput::Close), InputStep::Stop));
    assert!(matches!(input_step(TerminalInput::Failed), InputStep::Stop));
    assert!(matches!(input_step(TerminalInput::Other), InputStep::Continue));
}

use chatapi::gateway::bodies::{
    apply_rule_updates, branch_point, session_model, session_not_found, string_array_of, task_description,
    task_not_found,
};
use chatapi::gateway::files::{entry_path, listing_dir, readable_file, shown_entry, sort_listing, starts_with_path};

#[test]
fn rule_updates_replace_what_they_name() {
    let mut config = rules(&["read_file"], &["/etc"]);
    apply_rule_updates(
        &mut config,
        r#"{"rules": {"system_prompt": "Be brief", "allowed_tools": ["grep_code", 3, "git_status"]}}"#,
    );
    assert_eq!(config.rules.system_prompt.as_deref(), Some("Be brief"));
    assert_eq!(config.rules.allowed_tools, vec!["grep_code".to_string(), "git_status".to_string()]);
    assert_eq!(config.rules.blocked_paths, vec!["/etc".to_string()]);

    apply_rule_updates(&mut config, r#"{"rules": {"blocked_paths": [], "system_prompt": 7}}"#);
    assert_eq!(config.rules.system_prompt.as_deref(), Some("Be brief"));
    assert!(config.rules.blocked_paths.is_empty());

    apply_rule_updates(&mut config, r#"{"target": {"mode": "api"}}"#);
    assert_eq!(config.rules.allowed_tools.len(), 2);
    apply_rule_updates(&mut config, "not json");
    assert_eq!(config.rules.allowed_tools.len(), 2);
}

#[test]
fn string_arrays_keep_only_strings() {
    assert_eq!(string_array_of(r#"["a", null, "b", {"c": 1}]"#), Some(vec!["a".to_string(), "b".to_string()]));
    assert_eq!(string_array_of(r#"{"a": 1}"#), None);
    assert_eq!(string_array_of("[]"), Some(vec![]));
}

#[test]
fn session_bodies() {
    assert_eq!(session_model(r#"{"model": "gpt-4"}"#), "gpt-4");
    assert_eq!(session_model(r#"{"model": 4}"#), "deepseek-chat");
    assert_eq!(session_model("{}"), "deepseek-chat");
    assert_eq!(branch_point(r#"{"at_message": 3}"#), Some(3));
    assert_eq!(branch_point(r#"{"at_message": -1}"#), None);
    assert_eq!(branch_point("{}"), None);
    match session_not_found("abc") {
        ChatApiError::InvalidRequest(m) => assert_eq!(m, "Session not found: abc"),
        other => panic!("unexpected {:?}", other),
    }
}

#[test]
fn task_bodies() {
    assert_eq!(task_description(r#"{"description": "fix the bug"}"#).unwrap(), "fix the bug");
    match task_description(r#"{"title": "x"}"#) {
        Err(ChatApiError::InvalidRequest(m)) => assert_eq!(m, "description required"),
        other => panic!("unexpected {:?}", other),
    }
    match task_not_found("t1") {
        ChatApiError::InvalidRequest(m) => assert_eq!(m, "Task t1 not found"),
        other => panic!("unexpected {:?}", other),
    }
}

#[test]
fn file_paths_stay_inside_the_working_dir() {
    assert!(starts_with_path("/w/src/main.rs", "/w"));
    assert!(!starts_with_path("/etc/passwd", "/w"));
    assert!(!starts_with_path("/work", "/w"));
    assert_eq!(listing_dir("/w", None).unwrap(), "/w/.");
    assert_eq!(listing_dir("/w", Some("src")).unwrap(), "/w/src");
    match listing_dir("/w", Some("/etc")) {
        Err(ChatApiError::InvalidRequest(m)) => assert_eq!(m, "Path outside working directory"),
        other => panic!("unexpected {:?}", other),
    }
    match readable_file("/w", None) {
        Err(ChatApiError::InvalidRequest(m)) => assert_eq!(m, "Missing 'path' parameter"),
        other => panic!("unexpected {:?}", other),
    }
    assert_eq!(readable_file("/w", Some("a.txt")).unwrap(), "/w/a.txt");
    assert!(readable_file("/w", Some("/etc/passwd")).is_err());
}

#[test]
fn listings_show_and_order_entries() {
    assert!(shown_entry("src"));
    assert!(shown_entry(".knowledge"));
    assert!(!shown_entry(".git"));
    assert_eq!(entry_path(".", "a.rs"), "a.rs");
    assert_eq!(entry_path("src", "a.rs"), "src/a.rs");
    let items = vec![
        ("b.txt".to_string(), false),
        ("src".to_string(), true),
        ("a.txt".to_string(), false),
        ("docs".to_string(), true),
    ];
    let sorted = sort_listing(&items);
    let names: Vec<&str> = sorted.iter().map(|(n, _)| n.as_str()).collect();
    assert_eq!(names, vec!["docs", "src", "a.txt", "b.txt"]);
}

use chatapi::gateway::routes::{check_request_messages, MessageShape};
use chatapi::paths::{canonical_path_of, inside_dir};
use chatapi::rules::filter::is_path_blocked;

#[test]
fn traversal_out_of_the_working_dir_is_refused() {
    for rel in ["../../etc", "src/../../etc", "./../w2", ".."] {
        match listing_dir("/w", Some(rel)) {
            Err(ChatApiError::InvalidRequest(m)) => assert_eq!(m, "Path outside working directory"),
            other => panic!("{rel}: unexpected {:?}", other),
        }
        assert!(readable_file("/w", Some(rel)).is_err());
    }
    assert_eq!(listing_dir("/w", Some("src/../docs")).unwrap(), "/w/src/../docs");
    assert!(inside_dir("/w/a/../b", "/w"));
    assert!(!inside_dir("/w/../etc", "/w"));
    assert!(inside_dir("/w/x", "/w/y/.."));
    assert!(!inside_dir("../x", "."));
    assert!(inside_dir("./x", "."));
}

#[test]
fn blocked_paths_are_matched_in_canonical_form() {
    let config = rules(&[], &["secrets/*"]);
    assert!(is_path_blocked("secrets/keys.json", &config));
    assert!(is_path_blocked("./secrets/keys.json", &config));
    assert!(is_path_blocked("src/../secrets/keys.json", &config));
    assert!(is_path_blocked("src\\..\\secrets\\keys.json", &config));
    assert!(!is_path_blocked("src/secrets/keys.json", &config));
    assert_eq!(canonical_path_of("./a//b/./c/../d/"), "a/b/d");
    assert_eq!(canonical_path_of("/x/../../y"), "/y");
    assert_eq!(canonical_path_of("../a"), "../a");
    assert_eq!(canonical_path_of("a/.."), "");
}

#[test]
fn tool_results_must_name_their_call() {
    let user = MessageShape { is_tool_result: false, has_tool_call_id: false };
    let answered = MessageShape { is_tool_result: true, has_tool_call_id: true };
    let unanswered = MessageShape { is_tool_result: true, has_tool_call_id: false };
    assert!(check_request_messages(&vec![user, answered]).is_ok());
    match check_request_messages(&vec![]) {
        Err(ChatApiError::InvalidRequest(m)) => assert_eq!(m, "messages must not be empty"),
        other => panic!("unexpected {:?}", other),
    }
    match check_request_messages(&vec![user, unanswered]) {
        Err(ChatApiError::InvalidRequest(m)) => assert_eq!(m, "tool messages must include tool_call_id"),
        other => panic!("unexpected {:?}", other),
    }
}
