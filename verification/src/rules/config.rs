//! The configuration file's sections, with their defaults.
use vstd::prelude::*;

verus! {

#[derive(Debug, Clone)]
pub struct ApiSection {
    pub endpoint: String,
    pub api_key_env: String,
}

#[derive(Debug, Clone)]
pub struct McpServerConfig {
    pub name: String,
    pub command: String,
    pub args: Vec<String>,
    /// Environment variables for the server, as (name, value) pairs.
    pub env: Vec<(String, String)>,
}

#[derive(Debug, Clone)]
pub struct McpSection {
    pub servers: Vec<McpServerConfig>,
}

impl Default for McpSection {
    fn default() -> (r: Self)
        ensures
            r.servers@.len() == 0,
    {
        McpSection { servers: Vec::new() }
    }
}

#[derive(Debug, Clone)]
pub struct TargetSection {
    pub mode: String,
    pub model: String,
    pub api: Option<ApiSection>,
    pub mcp: Option<McpSection>,
}

pub fn default_mode() -> (r: String)
    ensures
        r@ == "browser"@,
{
    String::from_str("browser")
}

pub fn default_model() -> (r: String)
    ensures
        r@ == "deepseek-chat"@,
{
    String::from_str("deepseek-chat")
}

pub fn default_store() -> (r: String)
    ensures
        r@ == "memory"@,
{
    String::from_str("memory")
}

impl Default for TargetSection {
    fn default() -> (r: Self)
        ensures
            r.mode@ == "browser"@,
            r.model@ == "deepseek-chat"@,
            r.api is None,
            r.mcp is None,
    {
        TargetSection { mode: default_mode(), model: default_model(), api: None, mcp: None }
    }
}

#[derive(Debug, Clone)]
pub struct ContextSection {
    pub include_files: Vec<String>,
    pub max_context_tokens: Option<u64>,
}

impl Default for ContextSection {
    fn default() -> (r: Self)
        ensures
            r.include_files@.len() == 0,
            r.max_context_tokens is None,
    {
        ContextSection { include_files: Vec::new(), max_context_tokens: None }
    }
}

#[derive(Debug, Clone)]
pub struct RulesSection {
    pub system_prompt: Option<String>,
    pub working_dir: Option<String>,
    pub allowed_tools: Vec<String>,
    pub blocked_paths: Vec<String>,
    pub context: Option<ContextSection>,
}

impl Default for RulesSection {
    fn default() -> (r: Self)
        ensures
            r.system_prompt is None,
            r.working_dir is None,
            r.allowed_tools@.len() == 0,
            r.blocked_paths@.len() == 0,
            r.context is None,
    {
        RulesSection {
            system_prompt: None,
            working_dir: None,
            allowed_tools: Vec::new(),
            blocked_paths: Vec::new(),
            context: None,
        }
    }
}

#[derive(Debug, Clone)]
pub struct SessionsSection {
    pub store: String,
    pub path: Option<String>,
}

impl Default for SessionsSection {
    fn default() -> (r: Self)
        ensures
            r.store@ == "memory"@,
            r.path is None,
    {
        SessionsSection { store: default_store(), path: None }
    }
}

#[derive(Debug, Clone)]
pub struct DashboardSection {
    pub port: Option<u16>,
    pub theme: Option<String>,
}

impl Default for DashboardSection {
    fn default() -> (r: Self)
        ensures
            r.port is None,
            r.theme is None,
    {
        DashboardSection { port: None, theme: None }
    }
}

#[derive(Debug, Clone)]
pub struct ModelEntry {
    pub id: String,
    pub name: String,
    pub max_tokens: Option<u32>,
}

#[derive(Debug, Clone)]
pub struct ModelProvider {
    pub name: String,
    pub endpoint: String,
    pub api_key_env: String,
    pub models: Vec<ModelEntry>,
}

#[derive(Debug, Clone)]
pub struct ModelsSection {
    pub providers: Vec<ModelProvider>,
}

impl Default for ModelsSection {
    fn default() -> (r: Self)
        ensures
            r.providers@.len() == 0,
    {
        ModelsSection { providers: Vec::new() }
    }
}

/// Limits that protect the gateway: requests per minute for chat and for the
/// rest of the API, and the largest tool output handed back.
#[derive(Debug, Clone, Copy)]
pub struct SecuritySection {
    pub chat_rate_limit: u32,
    pub api_rate_limit: u32,
    pub max_tool_output_bytes: usize,
}

impl Default for SecuritySection {
    fn default() -> (r: Self)
        ensures
            r.chat_rate_limit == 60,
            r.api_rate_limit == 120,
            r.max_tool_output_bytes == 102_400,
    {
        SecuritySection { chat_rate_limit: 60, api_rate_limit: 120, max_tool_output_bytes: 102_400 }
    }
}

#[derive(Debug, Clone)]
pub struct ChatApiConfig {
    pub target: TargetSection,
    pub rules: RulesSection,
    pub sessions: SessionsSection,
    pub dashboard: DashboardSection,
    pub models: ModelsSection,
    pub security: SecuritySection,
}

/// The configuration used when no file gives one.
pub open spec fn is_default_config(c: ChatApiConfig) -> bool {
    &&& c.target.mode@ == "browser"@
    &&& c.target.model@ == "deepseek-chat"@
    &&& c.target.api is None
    &&& c.target.mcp is None
    &&& c.rules.system_prompt is None
    &&& c.rules.working_dir is None
    &&& c.rules.allowed_tools@.len() == 0
    &&& c.rules.blocked_paths@.len() == 0
    &&& c.rules.context is None
    &&& c.sessions.store@ == "memory"@
    &&& c.sessions.path is None
    &&& c.dashboard.port is None
    &&& c.dashboard.theme is None
    &&& c.models.providers@.len() == 0
    &&& c.security.chat_rate_limit == 60
    &&& c.security.api_rate_limit == 120
    &&& c.security.max_tool_output_bytes == 102_400
}

impl Default for ChatApiConfig {
    fn default() -> (r: Self)
        ensures
            is_default_config(r),
    {
        ChatApiConfig {
            target: TargetSection::default(),
            rules: RulesSection::default(),
            sessions: SessionsSection::default(),
            dashboard: DashboardSection::default(),
            models: ModelsSection::default(),
            security: SecuritySection::default(),
        }
    }
}

impl ChatApiConfig {
    /// The configuration that a load gave, or the defaults where the load
    /// failed (no file, unreadable, or not a valid configuration).
    pub fn load_or_default(loaded: Option<ChatApiConfig>) -> (r: Self)
        ensures
            loaded matches Some(c) ==> r == c,
            loaded is None ==> is_default_config(r),
    {
        match loaded {
            Some(c) => c,
            None => ChatApiConfig::default(),
        }
    }

    /// The effective working directory: the configured one, else the process's
    /// current directory when it could be read, else `.`.
    pub fn working_dir(&self, current_dir: Option<String>) -> (r: String)
        ensures
            self.rules.working_dir matches Some(w) ==> r@ == w@,
            self.rules.working_dir is None ==> r@ == (match current_dir { Some(d) => d@, None => "."@ }),
    {
        match &self.rules.working_dir {
            Some(w) => w.clone(),
            None => match current_dir {
                Some(d) => d,
                None => String::from_str("."),
            },
        }
    }

    /// The dashboard port: the configured one, else 8091.
    pub fn dashboard_port(&self) -> (r: u16)
        ensures
            r == (match self.dashboard.port { Some(p) => p, None => 8091 }),
    {
        match self.dashboard.port {
            Some(p) => p,
            None => 8091,
        }
    }
}

} // verus!
