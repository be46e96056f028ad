use chatapi::rules::config::{ChatApiConfig, ContextSection};
use chatapi::rules::filter::{is_path_blocked, is_tool_allowed};
use chatapi::rules::prompt::build_system_prompt;
use chatapi::target::{Target, TargetConfig};

fn config_with_tools(allowed: Vec<&str>) -> ChatApiConfig {
    let mut config = ChatApiConfig::default();
    config.rules.allowed_tools = allowed.into_iter().map(String::from).collect();
    config
}

fn config_with_blocked(blocked: Vec<&str>) -> ChatApiConfig {
    let mut config = ChatApiConfig::default();
    config.rules.blocked_paths = blocked.into_iter().map(String::from).collect();
    config
}

#[test]
fn test_default_config() {
    let config = ChatApiConfig::default();
    assert_eq!(config.target.mode, "browser");
    assert_eq!(config.target.model, "deepseek-chat");
    assert_eq!(config.sessions.store, "memory");
    assert_eq!(config.dashboard_port(), 8091);
}

#[test]
fn test_load_or_default_missing_file() {
    // "/nonexistent/config.toml" cannot be read, so nothing was loaded.
    let config = ChatApiConfig::load_or_default(None);
    assert_eq!(config.target.mode, "browser");
}

#[test]
fn load_or_default_keeps_a_loaded_config() {
    let mut loaded = ChatApiConfig::default();
    loaded.target.mode = "api".to_string();
    loaded.dashboard.port = Some(9000);
    let config = ChatApiConfig::load_or_default(Some(loaded));
    assert_eq!(config.target.mode, "api");
    assert_eq!(config.dashboard_port(), 9000);
}

#[test]
fn security_section_defaults_without_toml_key() {
    let config = ChatApiConfig::default();
    assert_eq!(config.security.chat_rate_limit, 60);
    assert_eq!(config.security.api_rate_limit, 120);
    assert_eq!(config.security.max_tool_output_bytes, 102_400);
}

#[test]
fn working_dir_prefers_the_configured_one() {
    let mut config = ChatApiConfig::default();
    assert_eq!(config.working_dir(Some("/cwd".to_string())), "/cwd");
    assert_eq!(config.working_dir(None), ".");
    config.rules.working_dir = Some("/project".to_string());
    assert_eq!(config.working_dir(Some("/cwd".to_string())), "/project");
}

#[test]
fn test_empty_allowed_means_all() {
    let config = ChatApiConfig::default();
    assert!(is_tool_allowed("anything", &config));
}

#[test]
fn test_exact_match() {
    let config = config_with_tools(vec!["read_file", "edit_file"]);
    assert!(is_tool_allowed("read_file", &config));
    assert!(is_tool_allowed("edit_file", &config));
    assert!(!is_tool_allowed("run_command", &config));
}

#[test]
fn test_glob_pattern() {
    let config = config_with_tools(vec!["read_file", "git_*"]);
    assert!(is_tool_allowed("read_file", &config));
    assert!(is_tool_allowed("git_status", &config));
    assert!(is_tool_allowed("git_diff", &config));
    assert!(is_tool_allowed("git_commit", &config));
    assert!(!is_tool_allowed("edit_file", &config));
}

#[test]
fn invalid_glob_falls_back_to_equality() {
    let config = config_with_tools(vec!["a***b"]);
    assert!(is_tool_allowed("a***b", &config));
    assert!(!is_tool_allowed("ab", &config));
}

#[test]
fn test_blocked_exact() {
    let config = config_with_blocked(vec![".env", ".git/config"]);
    assert!(is_path_blocked(".env", &config));
    assert!(is_path_blocked(".git/config", &config));
    assert!(!is_path_blocked("src/main.rs", &config));
}

#[test]
fn test_blocked_glob() {
    let config = config_with_blocked(vec!["secrets/*"]);
    assert!(is_path_blocked("secrets/keys.json", &config));
    assert!(is_path_blocked("secrets/api_key.txt", &config));
}

#[test]
fn blocked_prefix_and_backslashes() {
    let config = config_with_blocked(vec!["secrets/*"]);
    assert!(is_path_blocked("secrets/", &config));
    assert!(is_path_blocked("secrets\\deep\\key.pem", &config));
    assert!(!is_path_blocked("public/secrets", &config));
}

#[test]
fn test_no_blocked_paths() {
    let config = ChatApiConfig::default();
    assert!(!is_path_blocked("anything", &config));
}

#[test]
fn test_basic_system_prompt() {
    let mut config = ChatApiConfig::default();
    config.rules.system_prompt = Some("You are helpful.".to_string());
    let prompt = build_system_prompt(&config, None, &Vec::new(), "/work");
    assert!(prompt.contains("You are helpful."));
    assert!(prompt.contains("Working directory:"));
}

#[test]
fn test_no_system_prompt() {
    let config = ChatApiConfig::default();
    let prompt = build_system_prompt(&config, None, &Vec::new(), "/work");
    assert!(prompt.contains("Working directory:"));
    assert!(!prompt.is_empty());
    assert_eq!(prompt, "Working directory: /work");
}

#[test]
fn prompt_parts_in_order() {
    let mut config = ChatApiConfig::default();
    config.rules.system_prompt = Some("Be brief.".to_string());
    config.rules.context = Some(ContextSection { include_files: vec!["*.txt".to_string()], max_context_tokens: None });
    let groups = vec![vec![("a.txt".to_string(), "fn main() {}".to_string())]];
    let prompt = build_system_prompt(&config, Some("[]".to_string()), &groups, "/w");
    let expected = "Be brief.\n\nYou have access to the following tools. To call a tool, output a JSON code block:\n\n```json\n{\"name\": \"function_name\", \"arguments\": {\"param\": \"value\"}}\n```\n\nFor multiple calls, use an array.\n\nAvailable tools:\n[]\n\nWorkspace context:\n\n### a.txt\n```\nfn main() {}\n```\n\nWorking directory: /w";
    assert_eq!(prompt, expected);
}

#[test]
fn test_context_files_respect_token_limit() {
    let mut config = ChatApiConfig::default();
    config.rules.context = Some(ContextSection { include_files: vec!["big.txt".to_string()], max_context_tokens: Some(10) });
    let groups = vec![vec![("big.txt".to_string(), "x".repeat(1000))]];
    let prompt = build_system_prompt(&config, None, &groups, "/w");
    assert!(!prompt.contains("xxxxx"));
    assert!(!prompt.contains("Workspace context:"));
}

#[test]
fn context_budget_stops_a_group_but_not_the_next() {
    let mut config = ChatApiConfig::default();
    config.rules.context = Some(ContextSection { include_files: vec!["a".into(), "b".into()], max_context_tokens: Some(20) });
    // budget 80 bytes; each file costs path + content + 20
    let groups = vec![
        vec![("p1".to_string(), "x".repeat(40)), ("p2".to_string(), "y".repeat(40)), ("p3".to_string(), "z".to_string())],
        vec![("q1".to_string(), "w".to_string())],
    ];
    let prompt = build_system_prompt(&config, None, &groups, "/w");
    assert!(prompt.contains("### p1"));
    assert!(!prompt.contains("### p2"));
    assert!(!prompt.contains("### p3"));
    assert!(!prompt.contains("### q1"));
    let small = vec![vec![("p1".to_string(), "x".to_string())], vec![("q1".to_string(), "w".to_string())]];
    let prompt = build_system_prompt(&config, None, &small, "/w");
    assert!(prompt.contains("### p1") && prompt.contains("### q1"));
}

#[test]
fn test_default_is_browser() {
    let config = TargetConfig::default();
    assert!(config.is_browser());
    assert!(!config.is_api());
}

#[test]
fn test_api_requires_key() {
    let config = TargetConfig {
        target: Target::Api,
        api_endpoint: "https://api.deepseek.com/v1".to_string(),
        api_key: None,
        model: "deepseek-chat".to_string(),
    };
    assert!(config.validate().is_err());
}

#[test]
fn test_api_with_key_validates() {
    let config = TargetConfig {
        target: Target::Api,
        api_endpoint: "https://api.deepseek.com/v1".to_string(),
        api_key: Some("sk-xxx".to_string()),
        model: "deepseek-chat".to_string(),
    };
    assert!(config.validate().is_ok());
}

#[test]
fn test_browser_always_validates() {
    let config = TargetConfig::default();
    assert!(config.validate().is_ok());
}

#[test]
fn api_key_error_text() {
    let config = TargetConfig { target: Target::Api, ..TargetConfig::default() };
    assert_eq!(config.validate().unwrap_err(), "api_key is required when target = 'api'");
}

#[test]
fn test_with_tools() {
    let config = ChatApiConfig::default();
    let tool = serde_json::to_string_pretty(&vec![serde_json::Value::from(serde_json::Map::from_iter([
        ("name".to_string(), serde_json::Value::from("read_file")),
        ("description".to_string(), serde_json::Value::from("Read a file")),
    ]))])
    .unwrap();
    let prompt = build_system_prompt(&config, Some(tool), &Vec::new(), "/w");
    assert!(prompt.contains("read_file"));
    assert!(prompt.contains("JSON code block"));
}

#[test]
fn test_with_context_files() {
    let mut config = ChatApiConfig::default();
    config.rules.context = Some(ContextSection { include_files: vec!["test.txt".to_string()], max_context_tokens: None });
    // The file that the pattern matched, as read from disk.
    let groups = vec![vec![("test.txt".to_string(), "fn main() {}".to_string())]];
    let prompt = build_system_prompt(&config, None, &groups, "/w");
    assert!(prompt.contains("fn main()"));
    assert!(prompt.contains("Workspace context:"));
}
