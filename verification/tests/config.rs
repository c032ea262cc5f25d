use milky_ob11_bridge::cli::{parse_args, usage, CliOutcome};
use milky_ob11_bridge::config::{BridgeConfig, Config, ConfigError, MilkyConfig, OneBotConfig};

fn valid() -> Config {
    Config {
        milky: MilkyConfig {
            ws_endpoint: "ws://x".into(),
            token: String::new(),
        },
        onebot: OneBotConfig::default(),
        bridge: BridgeConfig::default(),
    }
}

fn invalid_text(c: &Config) -> String {
    match c.validate() {
        Err(ConfigError::Invalid(m)) => m,
        Err(_) => panic!("expected an invalid-config error"),
        Ok(()) => panic!("expected the config to be refused"),
    }
}

#[test]
fn defaults_apply_when_fields_missing() {
    let cfg = Config::default();
    assert_eq!(cfg.onebot.host, "0.0.0.0");
    assert_eq!(cfg.onebot.port, 6700);
    assert!(cfg.onebot.enable_ws_api);
    assert_eq!(cfg.bridge.message_format, "array");
    assert_eq!(cfg.bridge.heartbeat_interval_ms, 15000);
    assert_eq!(cfg.bridge.log_level, "info");
    assert_eq!(cfg.bridge.cache_size, 2048);
    assert_eq!(cfg.onebot.reverse.reconnect_interval_ms, 3000);
}

#[test]
fn valid_config_passes() {
    assert!(valid().validate().is_ok());
}

#[test]
fn missing_ws_endpoint_rejected() {
    let mut c = valid();
    c.milky.ws_endpoint = "  ".into();
    assert_eq!(invalid_text(&c), "milky.ws_endpoint is required");
}

#[test]
fn reverse_ws_requires_url() {
    let mut c = valid();
    c.onebot.reverse.enable = true;
    assert_eq!(
        invalid_text(&c),
        "onebot.reverse requires url/api_url/event_url when reverse ws is enabled"
    );
    c.onebot.reverse.use_universal_client = true;
    assert_eq!(
        invalid_text(&c),
        "onebot.reverse requires url when universal reverse ws is enabled"
    );
    c.onebot.reverse.event_url = "ws://e".into();
    assert!(c.validate().is_ok());
}

#[test]
fn each_rule_has_its_message() {
    let mut c = valid();
    c.onebot.port = 0;
    assert_eq!(invalid_text(&c), "onebot.port must be between 1 and 65535");
    let mut c = valid();
    c.onebot.host = String::new();
    assert_eq!(invalid_text(&c), "onebot.host is required");
    let mut c = valid();
    c.bridge.message_format = "xml".into();
    assert_eq!(invalid_text(&c), "bridge.message_format must be array or string");
    let mut c = valid();
    c.bridge.message_format = "string".into();
    assert!(c.validate().is_ok());
    let mut c = valid();
    c.bridge.heartbeat_interval_ms = 0;
    assert_eq!(invalid_text(&c), "bridge.heartbeat_interval_ms must be positive");
    let mut c = valid();
    c.bridge.cache_size = 0;
    assert_eq!(invalid_text(&c), "bridge.cache_size must be positive");
    let mut c = valid();
    c.onebot.reverse.enable = true;
    c.onebot.reverse.reconnect_interval_ms = 0;
    assert_eq!(
        invalid_text(&c),
        "onebot.reverse.reconnect_interval_ms must be positive"
    );
}

#[test]
fn config_error_texts() {
    assert_eq!(
        ConfigError::Invalid("x".into()).message(),
        "invalid config: x"
    );
    let io = std::io::Error::new(std::io::ErrorKind::NotFound, "gone");
    assert_eq!(ConfigError::Io(io).message(), "read config: gone");
}

fn args(v: &[&str]) -> Vec<String> {
    v.iter().map(|s| s.to_string()).collect()
}

#[test]
fn command_line_cases() {
    assert!(matches!(parse_args(&args(&[])), CliOutcome::Run { config_path } if config_path == "config.json"));
    assert!(matches!(parse_args(&args(&["-c", "a.json"])), CliOutcome::Run { config_path } if config_path == "a.json"));
    assert!(matches!(parse_args(&args(&["--config", "a.json", "-config", "b.json"])), CliOutcome::Run { config_path } if config_path == "b.json"));
    assert!(matches!(parse_args(&args(&["--config=--config=c.json"])), CliOutcome::Run { config_path } if config_path == "c.json"));
    assert!(matches!(parse_args(&args(&["-h", "--bogus"])), CliOutcome::Help));
    assert!(matches!(parse_args(&args(&["--config"])), CliOutcome::Fail { message } if message == "--config requires a value"));
    assert!(matches!(parse_args(&args(&["--bogus"])), CliOutcome::Fail { message } if message == "unknown argument: --bogus"));
    assert_eq!(usage(), "Usage: milky-ob11-bridge [--config <path>]");
}
