use chatapi::tool_parser::{
    contains_tool_call_pattern, parse_tool_calls_from_text, tool_calls_fit, try_parse_tool_calls_from_text, ToolCallParser,
};

#[test]
fn test_parse_single_json_code_block() {
    let text = r#"I'll edit the file for you.

```json
{"name": "edit_file", "arguments": {"path": "src/main.rs", "old_text": "fn main()", "new_text": "fn main() {\n    println!(\"hello\");\n}"}}
```

Done!"#;

    let result = parse_tool_calls_from_text(text);
    assert!(result.has_tool_calls);
    assert_eq!(result.tool_calls.len(), 1);
    assert_eq!(result.tool_calls[0].function.name, "edit_file");
    assert!(result.prefix_text.contains("I'll edit"));
    assert!(result.suffix_text.contains("Done"));
}

#[test]
fn test_parse_array_of_tool_calls() {
    let text = r#"Let me fix both files.

```json
[{"name": "edit_file", "arguments": {"path": "a.rs", "old_text": "old", "new_text": "new"}}, {"name": "edit_file", "arguments": {"path": "b.rs", "old_text": "old2", "new_text": "new2"}}]
```"#;

    let result = parse_tool_calls_from_text(text);
    assert!(result.has_tool_calls);
    assert_eq!(result.tool_calls.len(), 2);
    assert_eq!(result.tool_calls[0].function.name, "edit_file");
    assert_eq!(result.tool_calls[1].function.name, "edit_file");
}

#[test]
fn test_parse_raw_json_no_fences() {
    let text = r#"Here's the fix:
{"name": "edit_file", "arguments": {"path": "main.rs", "old_text": "bug", "new_text": "fixed"}}"#;

    let result = parse_tool_calls_from_text(text);
    assert!(result.has_tool_calls);
    assert_eq!(result.tool_calls.len(), 1);
    assert_eq!(result.tool_calls[0].function.name, "edit_file");
}

#[test]
fn test_parse_xml_style() {
    let text = r#"I'll help you with that.

<tool_calls>[{"name": "read_file", "arguments": {"path": "Cargo.toml"}}]</tool_calls>"#;

    let result = parse_tool_calls_from_text(text);
    assert!(result.has_tool_calls);
    assert_eq!(result.tool_calls.len(), 1);
    assert_eq!(result.tool_calls[0].function.name, "read_file");
}

#[test]
fn test_no_tool_calls() {
    let text = "I'll help you with that. Here's the code:\n\n```rust\nfn main() {}\n```";
    let result = parse_tool_calls_from_text(text);
    assert!(!result.has_tool_calls);
}

#[test]
fn test_prefix_text_preserved() {
    let text = r#"I'll read the file first.

```json
{"name": "read_file", "arguments": {"path": "src/main.rs"}}
```"#;

    let result = parse_tool_calls_from_text(text);
    assert!(result.has_tool_calls);
    assert!(result.prefix_text.contains("I'll read"));
}

#[test]
fn test_streaming_parser() {
    let mut parser = ToolCallParser::new();

    parser.feed("I'll edit the file.\n\n```json\n");
    parser.feed("{\"name\": \"edit_file\", \"arguments\": {\"path\": \"main.rs\", \"old_text\": \"old\", \"new_text\": \"new\"}}");
    parser.feed("\n```");

    let result = parser.finish();
    assert!(result.has_tool_calls);
    assert_eq!(result.tool_calls.len(), 1);
    assert_eq!(result.tool_calls[0].function.name, "edit_file");
}

#[test]
fn test_contains_tool_call_pattern() {
    assert!(contains_tool_call_pattern("```json"));
    assert!(contains_tool_call_pattern(r#"{"name":"foo""#));
    assert!(contains_tool_call_pattern("<tool_calls>"));
    assert!(!contains_tool_call_pattern("Hello, how can I help?"));
}

#[test]
fn test_arguments_as_string() {
    let text = r#"```json
{"name": "edit_file", "arguments": "{\"path\": \"main.rs\", \"old_text\": \"old\", \"new_text\": \"new\"}"}
```"#;

    let result = parse_tool_calls_from_text(text);
    assert!(result.has_tool_calls);
    assert_eq!(result.tool_calls.len(), 1);
    assert!(result.tool_calls[0].function.arguments.contains("main.rs"));
}

#[test]
fn tool_call_ids_count_up_from_one() {
    let text = "```json\n[{\"name\": \"a\"}, {\"name\": \"b\", \"arguments\": null}, {\"name\": \"c\", \"arguments\": {\"x\": 1}}]\n```";
    let result = parse_tool_calls_from_text(text);
    assert_eq!(result.tool_calls.len(), 3);
    assert_eq!(result.tool_calls[0].id, "call_1");
    assert_eq!(result.tool_calls[1].id, "call_2");
    assert_eq!(result.tool_calls[2].id, "call_3");
    assert_eq!(result.tool_calls[0].call_type, "function");
    assert_eq!(result.tool_calls[0].function.arguments, "{}");
    assert_eq!(result.tool_calls[1].function.arguments, "{}");
    assert_eq!(result.tool_calls[2].function.arguments, "{\"x\":1}");
}

#[test]
fn plain_text_is_given_back_trimmed() {
    let result = parse_tool_calls_from_text("  just words \n");
    assert!(!result.has_tool_calls);
    assert!(result.tool_calls.is_empty());
    assert_eq!(result.prefix_text, "");
    assert_eq!(result.suffix_text, "just words");
}

#[test]
fn call_without_string_name_is_not_a_call() {
    let result = parse_tool_calls_from_text("```json\n{\"name\": 5}\n```");
    assert!(!result.has_tool_calls);
}

#[test]
fn empty_xml_block_is_consumed() {
    let result = parse_tool_calls_from_text("before <tool_calls>[]</tool_calls> after");
    assert!(!result.has_tool_calls);
    assert_eq!(result.prefix_text, "before");
    assert_eq!(result.suffix_text, "after");
}

#[test]
fn streaming_keeps_first_prefix_and_collects_later_blocks() {
    let mut parser = ToolCallParser::new();
    parser.feed("First.\n```json\n{\"name\": \"a\"}\n```");
    parser.feed("Second.\n```json\n{\"name\": \"b\"}\n```tail");
    let result = parser.finish();
    assert_eq!(result.tool_calls.len(), 2);
    assert_eq!(result.tool_calls[1].id, "call_2");
    assert_eq!(result.prefix_text, "First.");
    assert_eq!(result.suffix_text, "tail");
}

#[test]
fn test_build_tool_system_prompt() {
    let defs = "[\n  {\n    \"description\": \"Edit a file\",\n    \"name\": \"edit_file\",\n    \"parameters\": {\n      \"properties\": {\n        \"path\": {\n          \"type\": \"string\"\n        }\n      },\n      \"type\": \"object\"\n    }\n  }\n]";
    let prompt = chatapi::tool_parser::build_tool_system_prompt(defs);
    assert!(prompt.contains("edit_file"));
    assert!(prompt.contains("```json"));
    assert!(prompt.contains("Available tools"));
    assert!(prompt.ends_with(defs));
}

#[test]
fn array_elements_may_list_the_fields_in_order() {
    let text = "```json\n[[\"read_file\", {\"path\": \"a\"}], [\"git_status\"]]\n```";
    let r = parse_tool_calls_from_text(text);
    assert_eq!(r.tool_calls.len(), 2);
    assert_eq!(r.tool_calls[0].function.name, "read_file");
    assert_eq!(r.tool_calls[0].function.arguments, "{\"path\":\"a\"}");
    assert_eq!(r.tool_calls[1].function.name, "git_status");
    assert_eq!(r.tool_calls[1].function.arguments, "{}");
    let too_long = "```json\n[[\"a\", {}, 1]]\n```";
    assert!(!parse_tool_calls_from_text(too_long).has_tool_calls);
}

#[test]
fn plain_text_in_pieces_holds_no_calls() {
    let mut p = ToolCallParser::new();
    for piece in ["  Hello, ", "this is ", "plain text.  "] {
        p.feed(piece);
    }
    let r = p.finish();
    assert!(!r.has_tool_calls);
    assert!(r.tool_calls.is_empty());
    assert_eq!(r.prefix_text, "");
    assert_eq!(r.suffix_text, "Hello, this is plain text.");
}

#[test]
fn arguments_out_of_range_refuse_the_call() {
    let text = "```json\n{\"name\": \"a\", \"arguments\": {\"x\": 1e400}}\n```";
    let r = parse_tool_calls_from_text(text);
    assert!(!r.has_tool_calls);
    assert!(r.tool_calls.is_empty());
    assert_eq!(r.prefix_text, "");
    assert_eq!(r.suffix_text, text);
    let in_array = "```json\n[[\"a\", [1e999]]]\n```";
    assert!(!parse_tool_calls_from_text(in_array).has_tool_calls);
    let in_range = "```json\n{\"name\": \"a\", \"arguments\": {\"x\": 12}}\n```";
    let ok = parse_tool_calls_from_text(in_range);
    assert_eq!(ok.tool_calls.len(), 1);
    assert_eq!(ok.tool_calls[0].function.arguments, "{\"x\":12}");
}

#[test]
fn checked_parsing_numbers_calls_as_plain_parsing() {
    let mut p = ToolCallParser::new();
    assert!(p.try_feed("Hi.\n```json\n{\"name\": \"a\"}\n```"));
    assert!(p.try_feed(" then ```json\n{\"name\": \"b\", \"arguments\": [1]}\n``` bye"));
    let r = p.try_finish().expect("the calls fit");
    assert_eq!(r.tool_calls.len(), 2);
    assert_eq!(r.tool_calls[0].id, "call_1");
    assert_eq!(r.tool_calls[1].id, "call_2");
    assert_eq!(r.tool_calls[1].function.arguments, "[1]");
    assert_eq!(r.prefix_text, "Hi.");
    assert_eq!(r.suffix_text, "bye");
    let text = "x {\"name\": \"c\"} y";
    assert!(tool_calls_fit(text));
    let checked = try_parse_tool_calls_from_text(text).expect("the calls fit");
    let plain = parse_tool_calls_from_text(text);
    assert_eq!(checked.tool_calls.len(), 1);
    assert_eq!(checked.tool_calls[0].function.name, plain.tool_calls[0].function.name);
    assert_eq!(checked.prefix_text, "x");
    assert_eq!(checked.suffix_text, "y");
}
