//! Settings of an OpenAI-compatible endpoint: base URL, optional API key,
//! model name and extra headers, and presets for common local servers.

use std::collections::HashMap;
use vstd::prelude::*;
use vstd::string::StringExecFns;

verus! {

/// Where and how to reach an OpenAI-compatible chat-completions endpoint.
#[derive(Debug)]
pub struct ProviderConfig {
    pub base_url: String,
    pub api_key: Option<String>,
    pub model: String,
    pub extra_headers: HashMap<String, String>,
}

impl ProviderConfig {
    /// Settings for `model` at `base_url`, without an API key or extra
    /// headers.
    pub fn new(base_url: &str, model: &str) -> (c: ProviderConfig)
        ensures
            c.base_url@ == base_url@,
            c.model@ == model@,
            c.api_key is None,
            c.extra_headers@.len() == 0,
    {
        let extra_headers: HashMap<String, String> = HashMap::new();
        ProviderConfig {
            base_url: String::from_str(base_url),
            api_key: None,
            model: String::from_str(model),
            extra_headers,
        }
    }

    /// The same settings with `key` as the API key.
    pub fn with_api_key(self, key: &str) -> (c: ProviderConfig)
        ensures
            c.base_url == self.base_url,
            c.model == self.model,
            c.extra_headers == self.extra_headers,
            c.api_key matches Some(k) && k@ == key@,
    {
        let mut c = self;
        c.api_key = Some(String::from_str(key));
        c
    }
}

/// Common presets for hosted and local OpenAI-compatible servers.
#[derive(Debug, Clone, Copy, PartialEq, Eq, Structural)]
pub enum Preset {
    OpenAi,
    Ollama,
    LmStudio,
    Custom,
}

impl Preset {
    /// The base URL that a preset starts from (empty for a custom server).
    pub open spec fn base_url_text(self) -> Seq<char> {
        match self {
            Preset::OpenAi => "https://api.openai.com/v1"@,
            Preset::Ollama => "http://localhost:11434/v1"@,
            Preset::LmStudio => "http://localhost:1234/v1"@,
            Preset::Custom => ""@,
        }
    }

    /// The base URL that a preset starts from (empty for a custom server).
    pub fn default_base_url(self) -> (s: &'static str)
        ensures
            s@ == self.base_url_text(),
    {
        match self {
            Preset::OpenAi => "https://api.openai.com/v1",
            Preset::Ollama => "http://localhost:11434/v1",
            Preset::LmStudio => "http://localhost:1234/v1",
            Preset::Custom => "",
        }
    }

    /// Settings for `model` at the preset's base URL.
    pub fn config_with_model(self, model: &str) -> (c: ProviderConfig)
        ensures
            c.base_url@ == self.base_url_text(),
            c.model@ == model@,
            c.api_key is None,
            c.extra_headers@.len() == 0,
    {
        ProviderConfig::new(self.default_base_url(), model)
    }
}

} // verus!
