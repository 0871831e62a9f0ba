//! Which LLM providers to use and how to reach them.

use vstd::prelude::*;

verus! {

/// An LLM provider.
#[derive(Debug, Clone, Copy, PartialEq, Eq, Hash, Structural)]
pub enum Provider {
    OpenAI,
    Anthropic,
}

impl Default for Provider {
    fn default() -> (p: Self)
        ensures
            p == Provider::OpenAI,
    {
        Provider::OpenAI
    }
}

/// Settings for the LLM clients.
#[derive(Debug)]
pub struct LLMConfig {
    pub default_provider: Provider,
    pub openai_api_key: Option<String>,
    pub openai_base_url: Option<String>,
    pub anthropic_api_key: Option<String>,
    pub anthropic_base_url: Option<String>,
    pub default_model: String,
    pub timeout_seconds: u64,
    pub max_retries: u32,
    pub fallback_provider: Option<Provider>,
}

/// The view of an optional string.
pub open spec fn opt_view(o: Option<String>) -> Option<Seq<char>> {
    match o {
        Some(s) => Some(s@),
        None => None,
    }
}

impl LLMConfig {
    /// The defaults: OpenAI, no keys or base URLs, model `gpt-4o`, a
    /// 30-second timeout, three retries and no fallback provider.
    pub open spec fn is_default(&self) -> bool {
        &&& self.default_provider == Provider::OpenAI
        &&& self.openai_api_key is None
        &&& self.openai_base_url is None
        &&& self.anthropic_api_key is None
        &&& self.anthropic_base_url is None
        &&& self.default_model@ == "gpt-4o"@
        &&& self.timeout_seconds == 30
        &&& self.max_retries == 3
        &&& self.fallback_provider is None
    }

    pub fn new() -> (c: Self)
        ensures
            c.is_default(),
    {
        LLMConfig {
            default_provider: Provider::OpenAI,
            openai_api_key: None,
            openai_base_url: None,
            anthropic_api_key: None,
            anthropic_base_url: None,
            default_model: String::from_str("gpt-4o"),
            timeout_seconds: 30,
            max_retries: 3,
            fallback_provider: None,
        }
    }

    pub fn with_default_provider(self, provider: Provider) -> (c: Self)
        ensures
            c == (LLMConfig { default_provider: provider, ..self }),
    {
        LLMConfig { default_provider: provider, ..self }
    }

    pub fn with_openai_key(self, key: &str) -> (c: Self)
        ensures
            opt_view(c.openai_api_key) == Some(key@),
            c == (LLMConfig { openai_api_key: c.openai_api_key, ..self }),
    {
        LLMConfig { openai_api_key: Some(String::from_str(key)), ..self }
    }

    pub fn with_openai_base_url(self, url: &str) -> (c: Self)
        ensures
            opt_view(c.openai_base_url) == Some(url@),
            c == (LLMConfig { openai_base_url: c.openai_base_url, ..self }),
    {
        LLMConfig { openai_base_url: Some(String::from_str(url)), ..self }
    }

    pub fn with_anthropic_key(self, key: &str) -> (c: Self)
        ensures
            opt_view(c.anthropic_api_key) == Some(key@),
            c == (LLMConfig { anthropic_api_key: c.anthropic_api_key, ..self }),
    {
        LLMConfig { anthropic_api_key: Some(String::from_str(key)), ..self }
    }

    pub fn with_anthropic_base_url(self, url: &str) -> (c: Self)
        ensures
            opt_view(c.anthropic_base_url) == Some(url@),
            c == (LLMConfig { anthropic_base_url: c.anthropic_base_url, ..self }),
    {
        LLMConfig { anthropic_base_url: Some(String::from_str(url)), ..self }
    }

    pub fn with_default_model(self, model: &str) -> (c: Self)
        ensures
            c.default_model@ == model@,
            c == (LLMConfig { default_model: c.default_model, ..self }),
    {
        LLMConfig { default_model: String::from_str(model), ..self }
    }

    pub fn with_timeout(self, seconds: u64) -> (c: Self)
        ensures
            c == (LLMConfig { timeout_seconds: seconds, ..self }),
    {
        LLMConfig { timeout_seconds: seconds, ..self }
    }

    pub fn with_max_retries(self, retries: u32) -> (c: Self)
        ensures
            c == (LLMConfig { max_retries: retries, ..self }),
    {
        LLMConfig { max_retries: retries, ..self }
    }

    pub fn with_fallback_provider(self, provider: Provider) -> (c: Self)
        ensures
            c == (LLMConfig { fallback_provider: Some(provider), ..self }),
    {
        LLMConfig { fallback_provider: Some(provider), ..self }
    }
}

impl Default for LLMConfig {
    fn default() -> (c: Self)
        ensures
            c.is_default(),
    {
        LLMConfig::new()
    }
}

} // verus!
