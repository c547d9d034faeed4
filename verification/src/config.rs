//! Server configuration: API key, endpoint, model, memory service, listen address.
//!
//! Reading and writing the configuration file is done by the application; the
//! library holds the values and the rules that fill and describe them.
use vstd::prelude::*;
use crate::text::{
    chars_to_string, contains_seq, copy_string, decimal, push_decimal, push_str_chars, str_contains,
};

verus! {

/// Z.AI coding-plan endpoint, the default base URL.
pub open spec fn coding_plan_base_url() -> Seq<char> {
    "https://api.z.ai/api/coding/paas/v4"@
}

/// The default model.
pub open spec fn coding_plan_model() -> Seq<char> {
    "glm-5-turbo"@
}

/// The default listen host.
pub open spec fn default_host() -> Seq<char> {
    "0.0.0.0"@
}

/// The default listen port.
pub const DEFAULT_SERVER_PORT: u16 = 3710;

pub fn default_base_url() -> (r: String)
    ensures
        r@ == coding_plan_base_url(),
{
    copy_string("https://api.z.ai/api/coding/paas/v4")
}

pub fn default_model() -> (r: String)
    ensures
        r@ == coding_plan_model(),
{
    copy_string("glm-5-turbo")
}

pub fn default_server_host() -> (r: String)
    ensures
        r@ == default_host(),
{
    copy_string("0.0.0.0")
}

pub fn default_server_port() -> (r: u16)
    ensures
        r == DEFAULT_SERVER_PORT,
{
    3710
}

/// The server configuration.
#[derive(Clone, Debug)]
pub struct Config {
    pub api_key: String,
    pub base_url: String,
    pub model: String,
    pub deneb_url: Option<String>,
    pub server_host: String,
    pub server_port: u16,
}

/// A configuration with the given key and every other field at its default.
pub open spec fn is_default_with_key(c: Config, key: Seq<char>) -> bool {
    &&& c.api_key@ == key
    &&& c.base_url@ == coding_plan_base_url()
    &&& c.model@ == coding_plan_model()
    &&& c.deneb_url is None
    &&& c.server_host@ == default_host()
    &&& c.server_port == DEFAULT_SERVER_PORT
}

/// How the service behind a base URL is named to the user.
pub open spec fn display_url_spec(base_url: Seq<char>) -> Seq<char> {
    if contains_seq(base_url, "z.ai/api/coding"@) {
        "Z.AI 코딩플랜"@
    } else if contains_seq(base_url, "z.ai"@) {
        "Z.AI"@
    } else if contains_seq(base_url, "bigmodel.cn"@) {
        "智谱AI"@
    } else {
        base_url
    }
}

/// `host:port`.
pub open spec fn listen_addr_spec(host: Seq<char>, port: u16) -> Seq<char> {
    host + seq![':'] + decimal(port as nat)
}

/// A non-empty value read from the environment.
pub open spec fn env_override(v: Option<String>) -> Option<Seq<char>> {
    match v {
        Some(s) => if s@.len() > 0 {
            Some(s@)
        } else {
            None
        },
        None => None,
    }
}

impl Config {
    pub fn default() -> (r: Self)
        ensures
            is_default_with_key(r, seq![]),
    {
        Config {
            api_key: String::new(),
            base_url: default_base_url(),
            model: default_model(),
            deneb_url: None,
            server_host: default_server_host(),
            server_port: default_server_port(),
        }
    }

    /// A fresh configuration for `api_key`, every other setting at its
    /// default. The application saves it.
    pub fn init_with_key(api_key: String) -> (r: Self)
        ensures
            is_default_with_key(r, api_key@),
    {
        Config {
            api_key,
            base_url: default_base_url(),
            model: default_model(),
            deneb_url: None,
            server_host: default_server_host(),
            server_port: default_server_port(),
        }
    }

    /// The configuration loaded from the file, after the environment is
    /// consulted: a non-empty `ZHIPUAI_API_KEY` replaces the API key, a
    /// non-empty `DENEB_URL` sets the memory service; without an API key there
    /// is no usable configuration.
    pub fn with_environment(
        self,
        env_api_key: Option<String>,
        env_deneb_url: Option<String>,
    ) -> (r: Option<Self>)
        ensures
            ({
                let key = match env_override(env_api_key) {
                    Some(k) => k,
                    None => self.api_key@,
                };
                match r {
                    None => key.len() == 0,
                    Some(c) => {
                        &&& key.len() > 0
                        &&& c.api_key@ == key
                        &&& c.deneb_url == (match env_override(env_deneb_url) {
                            Some(_) => env_deneb_url,
                            None => self.deneb_url,
                        })
                        &&& c.base_url == self.base_url
                        &&& c.model == self.model
                        &&& c.server_host == self.server_host
                        &&& c.server_port == self.server_port
                    },
                }
            }),
    {
        let mut config = self;
        if let Some(key) = env_api_key {
            if key.as_str().is_empty() == false {
                config.api_key = key;
            }
        }
        if let Some(url) = env_deneb_url {
            if url.as_str().is_empty() == false {
                config.deneb_url = Some(url);
            }
        }
        if config.api_key.as_str().is_empty() {
            return None;
        }
        Some(config)
    }

    /// How the configured service is named to the user.
    pub fn display_url(&self) -> (r: String)
        ensures
            r@ == display_url_spec(self.base_url@),
    {
        if str_contains(self.base_url.as_str(), "z.ai/api/coding") {
            copy_string("Z.AI 코딩플랜")
        } else if str_contains(self.base_url.as_str(), "z.ai") {
            copy_string("Z.AI")
        } else if str_contains(self.base_url.as_str(), "bigmodel.cn") {
            copy_string("智谱AI")
        } else {
            copy_string(self.base_url.as_str())
        }
    }

    /// The address the server listens on: `host:port`.
    pub fn listen_addr(&self) -> (r: String)
        ensures
            r@ == listen_addr_spec(self.server_host@, self.server_port),
    {
        let mut v: Vec<char> = Vec::new();
        push_str_chars(&mut v, self.server_host.as_str());
        v.push(':');
        push_decimal(&mut v, self.server_port as u64);
        chars_to_string(v.as_slice())
    }
}

} // verus!
