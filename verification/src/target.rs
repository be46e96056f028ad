//! Where requests are routed: a browser chat driven over CDP (the default) or
//! a native OpenAI-compatible API, which needs a key.
use vstd::prelude::*;

verus! {

#[derive(Debug, Clone, Copy, PartialEq, Eq, Structural)]
pub enum Target {
    /// Automate a free browser chat via CDP.
    Browser,
    /// Use a native API with API key.
    Api,
}

impl Default for Target {
    fn default() -> (r: Self)
        ensures
            r == Target::Browser,
    {
        Target::Browser
    }
}

/// Configuration for the target provider.
#[derive(Debug, Clone)]
pub struct TargetConfig {
    pub target: Target,
    pub api_endpoint: String,
    pub api_key: Option<String>,
    pub model: String,
}

pub fn default_api_endpoint() -> (r: String)
    ensures
        r@ == "https://api.deepseek.com/v1"@,
{
    String::from_str("https://api.deepseek.com/v1")
}

pub fn default_model() -> (r: String)
    ensures
        r@ == "deepseek-chat"@,
{
    String::from_str("deepseek-chat")
}

impl Default for TargetConfig {
    fn default() -> (r: Self)
        ensures
            r.target == Target::Browser,
            r.api_endpoint@ == "https://api.deepseek.com/v1"@,
            r.api_key is None,
            r.model@ == "deepseek-chat"@,
    {
        TargetConfig {
            target: Target::Browser,
            api_endpoint: default_api_endpoint(),
            api_key: None,
            model: default_model(),
        }
    }
}

impl TargetConfig {
    /// Whether this config uses the native API (with tool_calls support).
    pub fn is_api(&self) -> (r: bool)
        ensures
            r == (self.target == Target::Api),
    {
        self.target == Target::Api
    }

    /// Whether this config drives a browser (its text needs tool call parsing).
    pub fn is_browser(&self) -> (r: bool)
        ensures
            r == (self.target == Target::Browser),
    {
        self.target == Target::Browser
    }

    /// The API mode needs a key; the browser mode needs nothing.
    pub fn validate(&self) -> (r: Result<(), String>)
        ensures
            r is Err <==> (self.target == Target::Api && self.api_key is None),
            r matches Err(m) ==> m@ == "api_key is required when target = 'api'"@,
    {
        match self.target {
            Target::Api => {
                if self.api_key.is_none() {
                    return Err(String::from_str("api_key is required when target = 'api'"));
                }
                Ok(())
            },
            Target::Browser => Ok(()),
        }
    }
}

} // verus!
