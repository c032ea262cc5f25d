use vstd::prelude::*;

use crate::text::{prefixed_display, trim_spec, trim_str};

verus! {

/// Why the configuration could not be used.
#[derive(Debug)]
pub enum ConfigError {
    Io(std::io::Error),
    Decode(serde_json::Error),
    Invalid(String),
}

impl ConfigError {
    /// The error's text, as its `Display` writes it.
    pub fn message(&self) -> (s: String)
        ensures
            match self {
                ConfigError::Io(e) => prefixed_display(s@, "read config: "@, e),
                ConfigError::Decode(e) => prefixed_display(s@, "decode config: "@, e),
                ConfigError::Invalid(m) => s@ == "invalid config: "@ + m@,
            },
    {
        match self {
            ConfigError::Io(e) => {
                let d = e.to_string();
                let mut s = String::from_str("read config: ");
                s.append(d.as_str());
                s
            },
            ConfigError::Decode(e) => {
                let d = e.to_string();
                let mut s = String::from_str("decode config: ");
                s.append(d.as_str());
                s
            },
            ConfigError::Invalid(m) => {
                let mut s = String::from_str("invalid config: ");
                s.append(m.as_str());
                s
            },
        }
    }
}

/// Where the upstream Milky gateway is and how to authenticate to it.
#[derive(Debug)]
pub struct MilkyConfig {
    pub ws_endpoint: String,
    pub token: String,
}

/// The OneBot side: listen address, access token, endpoint switches and
/// reverse connections.
#[derive(Debug)]
pub struct OneBotConfig {
    pub host: String,
    pub port: u16,
    pub access_token: String,
    pub enable_http_api: bool,
    pub enable_ws_api: bool,
    pub enable_ws_event: bool,
    pub enable_ws_universal: bool,
    pub reverse: OneBotReverseConfig,
}

/// Reverse websocket connections that the bridge dials out to.
#[derive(Debug)]
pub struct OneBotReverseConfig {
    pub enable: bool,
    pub url: String,
    pub api_url: String,
    pub event_url: String,
    pub use_universal_client: bool,
    pub reconnect_interval_ms: u64,
}

/// Bridge behaviour: identity override, message format, heartbeat, logging
/// and cache size.
#[derive(Debug)]
pub struct BridgeConfig {
    pub self_id: i64,
    pub message_format: String,
    pub heartbeat_interval_ms: u64,
    pub log_level: String,
    pub cache_size: usize,
}

/// The whole configuration file.
#[derive(Debug)]
pub struct Config {
    pub milky: MilkyConfig,
    pub onebot: OneBotConfig,
    pub bridge: BridgeConfig,
}

pub fn default_host() -> (s: String)
    ensures
        s@ == "0.0.0.0"@,
{
    String::from_str("0.0.0.0")
}

pub fn default_port() -> (p: u16)
    ensures
        p == 6700,
{
    6700
}

pub fn default_true() -> (b: bool)
    ensures
        b,
{
    true
}

pub fn default_reconnect_interval_ms() -> (n: u64)
    ensures
        n == 3000,
{
    3000
}

pub fn default_message_format() -> (s: String)
    ensures
        s@ == "array"@,
{
    String::from_str("array")
}

pub fn default_heartbeat_interval_ms() -> (n: u64)
    ensures
        n == 15000,
{
    15000
}

pub fn default_log_level() -> (s: String)
    ensures
        s@ == "info"@,
{
    String::from_str("info")
}

pub fn default_cache_size() -> (n: usize)
    ensures
        n == 2048,
{
    2048
}

/// A reverse configuration with every field at its default.
pub open spec fn reverse_is_default(r: OneBotReverseConfig) -> bool {
    &&& !r.enable
    &&& r.url@.len() == 0
    &&& r.api_url@.len() == 0
    &&& r.event_url@.len() == 0
    &&& !r.use_universal_client
    &&& r.reconnect_interval_ms == 3000
}

/// A OneBot configuration with every field at its default.
pub open spec fn onebot_is_default(c: OneBotConfig) -> bool {
    &&& c.host@ == "0.0.0.0"@
    &&& c.port == 6700
    &&& c.access_token@.len() == 0
    &&& !c.enable_http_api
    &&& c.enable_ws_api
    &&& c.enable_ws_event
    &&& c.enable_ws_universal
    &&& reverse_is_default(c.reverse)
}

/// A bridge configuration with every field at its default.
pub open spec fn bridge_is_default(c: BridgeConfig) -> bool {
    &&& c.self_id == 0
    &&& c.message_format@ == "array"@
    &&& c.heartbeat_interval_ms == 15000
    &&& c.log_level@ == "info"@
    &&& c.cache_size == 2048
}

impl Default for MilkyConfig {
    fn default() -> (r: Self)
        ensures
            r.ws_endpoint@.len() == 0,
            r.token@.len() == 0,
    {
        MilkyConfig { ws_endpoint: String::new(), token: String::new() }
    }
}

impl Default for OneBotReverseConfig {
    fn default() -> (r: Self)
        ensures
            reverse_is_default(r),
    {
        OneBotReverseConfig {
            enable: false,
            url: String::new(),
            api_url: String::new(),
            event_url: String::new(),
            use_universal_client: false,
            reconnect_interval_ms: default_reconnect_interval_ms(),
        }
    }
}

impl Default for OneBotConfig {
    fn default() -> (r: Self)
        ensures
            onebot_is_default(r),
    {
        OneBotConfig {
            host: default_host(),
            port: default_port(),
            access_token: String::new(),
            enable_http_api: false,
            enable_ws_api: default_true(),
            enable_ws_event: default_true(),
            enable_ws_universal: default_true(),
            reverse: OneBotReverseConfig::default(),
        }
    }
}

impl Default for BridgeConfig {
    fn default() -> (r: Self)
        ensures
            bridge_is_default(r),
    {
        BridgeConfig {
            self_id: 0,
            message_format: default_message_format(),
            heartbeat_interval_ms: default_heartbeat_interval_ms(),
            log_level: default_log_level(),
            cache_size: default_cache_size(),
        }
    }
}

impl Default for Config {
    fn default() -> (r: Self)
        ensures
            r.milky.ws_endpoint@.len() == 0,
            r.milky.token@.len() == 0,
            onebot_is_default(r.onebot),
            bridge_is_default(r.bridge),
    {
        Config {
            milky: MilkyConfig::default(),
            onebot: OneBotConfig::default(),
            bridge: BridgeConfig::default(),
        }
    }
}

impl Clone for OneBotReverseConfig {
    fn clone(&self) -> (r: Self)
        ensures
            r == *self,
    {
        OneBotReverseConfig {
            enable: self.enable,
            url: self.url.clone(),
            api_url: self.api_url.clone(),
            event_url: self.event_url.clone(),
            use_universal_client: self.use_universal_client,
            reconnect_interval_ms: self.reconnect_interval_ms,
        }
    }
}

impl Clone for OneBotConfig {
    fn clone(&self) -> (r: Self)
        ensures
            r == *self,
    {
        OneBotConfig {
            host: self.host.clone(),
            port: self.port,
            access_token: self.access_token.clone(),
            enable_http_api: self.enable_http_api,
            enable_ws_api: self.enable_ws_api,
            enable_ws_event: self.enable_ws_event,
            enable_ws_universal: self.enable_ws_universal,
            reverse: self.reverse.clone(),
        }
    }
}

/// Whether a string is empty once trimmed.
pub open spec fn blank(s: Seq<char>) -> bool {
    trim_spec(s).len() == 0
}

/// The first rule that `c` breaks, by its message, or `None` when `c` is
/// usable.
pub open spec fn config_problem(c: Config) -> Option<Seq<char>> {
    if blank(c.milky.ws_endpoint@) {
        Some("milky.ws_endpoint is required"@)
    } else if c.onebot.port == 0 {
        Some("onebot.port must be between 1 and 65535"@)
    } else if blank(c.onebot.host@) {
        Some("onebot.host is required"@)
    } else if c.bridge.message_format@ != "array"@ && c.bridge.message_format@ != "string"@ {
        Some("bridge.message_format must be array or string"@)
    } else if c.bridge.heartbeat_interval_ms == 0 {
        Some("bridge.heartbeat_interval_ms must be positive"@)
    } else if c.bridge.cache_size == 0 {
        Some("bridge.cache_size must be positive"@)
    } else if c.onebot.reverse.enable && c.onebot.reverse.reconnect_interval_ms == 0 {
        Some("onebot.reverse.reconnect_interval_ms must be positive"@)
    } else if c.onebot.reverse.enable && blank(c.onebot.reverse.url@) && blank(
        c.onebot.reverse.api_url@,
    ) && blank(c.onebot.reverse.event_url@) {
        if c.onebot.reverse.use_universal_client {
            Some("onebot.reverse requires url when universal reverse ws is enabled"@)
        } else {
            Some("onebot.reverse requires url/api_url/event_url when reverse ws is enabled"@)
        }
    } else {
        None
    }
}

fn invalid(msg: &str) -> (e: ConfigError)
    ensures
        e matches ConfigError::Invalid(m) && m@ == msg@,
{
    ConfigError::Invalid(String::from_str(msg))
}

fn is_blank(s: &String) -> (b: bool)
    ensures
        b == blank(s@),
{
    trim_str(s.as_str()).len() == 0
}

impl Config {
    /// Checks the configuration's rules in order and reports the first one
    /// broken.
    pub fn validate(&self) -> (r: Result<(), ConfigError>)
        ensures
            r is Ok <==> config_problem(*self) is None,
            r matches Err(e) ==> (e matches ConfigError::Invalid(m) && config_problem(*self)
                == Some(m@)),
    {
        if is_blank(&self.milky.ws_endpoint) {
            return Err(invalid("milky.ws_endpoint is required"));
        }
        if self.onebot.port == 0 {
            return Err(invalid("onebot.port must be between 1 and 65535"));
        }
        if is_blank(&self.onebot.host) {
            return Err(invalid("onebot.host is required"));
        }
        let format = self.bridge.message_format.as_str();
        if !crate::text::str_eq(format, "array") && !crate::text::str_eq(format, "string") {
            return Err(invalid("bridge.message_format must be array or string"));
        }
        if self.bridge.heartbeat_interval_ms == 0 {
            return Err(invalid("bridge.heartbeat_interval_ms must be positive"));
        }
        if self.bridge.cache_size == 0 {
            return Err(invalid("bridge.cache_size must be positive"));
        }
        if self.onebot.reverse.enable && self.onebot.reverse.reconnect_interval_ms == 0 {
            return Err(invalid("onebot.reverse.reconnect_interval_ms must be positive"));
        }
        if self.onebot.reverse.enable {
            let url = is_blank(&self.onebot.reverse.url);
            let api = is_blank(&self.onebot.reverse.api_url);
            let event = is_blank(&self.onebot.reverse.event_url);
            if url && api && event {
                if self.onebot.reverse.use_universal_client {
                    return Err(
                        invalid("onebot.reverse requires url when universal reverse ws is enabled"),
                    );
                } else {
                    return Err(
                        invalid(
                            "onebot.reverse requires url/api_url/event_url when reverse ws is enabled",
                        ),
                    );
                }
            }
        }
        Ok(())
    }
}

/// What validation accepts: a configuration with an upstream endpoint, a
/// listening host and a non-zero port, the `array` or `string` message
/// format, a positive heartbeat interval and cache size, and reverse
/// connections off, is valid; without an endpoint it is refused for that
/// first, and otherwise a zero port is refused; enabled reverse
/// connections with no address are refused.
pub proof fn law_config_rules(c: Config)
    ensures
        blank(c.milky.ws_endpoint@) ==> config_problem(c) == Some("milky.ws_endpoint is required"@),
        !blank(c.milky.ws_endpoint@) && c.onebot.port == 0 ==> config_problem(c) == Some(
            "onebot.port must be between 1 and 65535"@,
        ),
        !blank(c.milky.ws_endpoint@) && c.onebot.port != 0 && !blank(c.onebot.host@) && (
        c.bridge.message_format@ == "array"@ || c.bridge.message_format@ == "string"@)
            && c.bridge.heartbeat_interval_ms != 0 && c.bridge.cache_size != 0
            && !c.onebot.reverse.enable ==> config_problem(c) is None,
        c.onebot.reverse.enable && blank(c.onebot.reverse.url@) && blank(c.onebot.reverse.api_url@)
            && blank(c.onebot.reverse.event_url@) ==> config_problem(c) is Some,
        c.bridge.message_format@ != "array"@ && c.bridge.message_format@ != "string"@
            ==> config_problem(c) is Some,
{
}

} // verus!
