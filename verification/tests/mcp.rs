use chatapi::mcp::{call_outcome, client_name, mcp_error, protocol_version, spawn_error, tool_description, tool_schema};
use chatapi::traits::ToolResult;

#[test]
fn call_results_join_texts() {
    let content = vec![Some("a".to_string()), None, Some("b".to_string())];
    match call_outcome(false, &content) {
        ToolResult::Text(t) => assert_eq!(t, "a\nb"),
        other => panic!("unexpected {:?}", other),
    }
    match call_outcome(true, &content) {
        ToolResult::Error { message, recoverable } => {
            assert_eq!(message, "a\nb");
            assert!(recoverable);
        }
        other => panic!("unexpected {:?}", other),
    }
    match call_outcome(false, &Vec::new()) {
        ToolResult::Text(t) => assert_eq!(t, ""),
        other => panic!("unexpected {:?}", other),
    }
}

#[test]
fn mcp_texts() {
    assert_eq!(tool_description(&None), "");
    assert_eq!(tool_description(&Some("d".into())), "d");
    assert_eq!(tool_schema(&None), "{}");
    assert_eq!(mcp_error(-32601, "Method not found"), "MCP error -32601: Method not found");
    assert_eq!(mcp_error(7, "x"), "MCP error 7: x");
    assert_eq!(protocol_version(), "2024-11-05");
    assert_eq!(client_name(), "chatapi");
    assert_eq!(spawn_error("fs", "not found"), "Failed to spawn MCP server 'fs': not found");
}
