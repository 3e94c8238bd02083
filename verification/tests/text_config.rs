use shellshock::config::{Config, ConfigError, ConfigSource};
use shellshock::text::{chars_of, contains_str, join_lines, parse_decimal, replace_underscores};

fn source() -> ConfigSource {
    ConfigSource {
        port: None,
        solana_rpc_http_url: None,
        solana_rpc_ws_url: None,
        program_id: None,
        cors_origin: None,
        turn_timeout_seconds: None,
    }
}

#[test]
fn decimal_parsing() {
    assert_eq!(parse_decimal("8080", 65535), Some(8080));
    assert_eq!(parse_decimal("+42", 65535), Some(42));
    assert_eq!(parse_decimal("65535", 65535), Some(65535));
    assert_eq!(parse_decimal("65536", 65535), None);
    assert_eq!(parse_decimal("", 65535), None);
    assert_eq!(parse_decimal("+", 65535), None);
    assert_eq!(parse_decimal("-1", 65535), None);
    assert_eq!(parse_decimal("12a", 65535), None);
    assert_eq!(parse_decimal("18446744073709551615", u64::MAX), Some(u64::MAX));
    assert_eq!(parse_decimal("18446744073709551616", u64::MAX), None);
    assert_eq!(parse_decimal("007", 10), Some(7));
}

#[test]
fn text_helpers() {
    assert_eq!(replace_underscores("round_end_now"), "round end now");
    assert_eq!(join_lines(&["a".to_string(), "b".to_string(), "c".to_string()]), "a\nb\nc");
    assert_eq!(join_lines(&[]), "");
    let hay = chars_of("héllo world");
    assert_eq!(hay.len(), 11);
    assert!(contains_str(&hay, "world"));
    assert!(contains_str(&hay, ""));
    assert!(!contains_str(&hay, "worlds"));
}

#[test]
fn config_defaults() {
    let c = Config::from_source(source()).expect("defaults");
    assert_eq!(c.port, 8080);
    assert_eq!(c.solana_rpc_http_url, "https://api.devnet.solana.com");
    assert_eq!(c.solana_rpc_ws_url, "wss://api.devnet.solana.com");
    assert_eq!(c.program_id, "11111111111111111111111111111111");
    assert_eq!(c.cors_origin, "http://localhost:5173");
    assert_eq!(c.turn_timeout_seconds, 90);
    let p = c.public();
    assert_eq!(p.websocket_path, "/ws");
    assert_eq!(p.turn_timeout_seconds, 90);
    assert_eq!(p.program_id, c.program_id);
    assert_eq!(c.validate_program_id().expect("valid").len(), 32);
}

#[test]
fn config_errors() {
    let mut s = source();
    s.port = Some("80a".to_string());
    assert_eq!(Config::from_source(s).unwrap_err(), ConfigError::InvalidPort);
    let mut s = source();
    s.port = Some("70000".to_string());
    assert_eq!(Config::from_source(s).unwrap_err(), ConfigError::InvalidPort);
    let mut s = source();
    s.turn_timeout_seconds = Some("soon".to_string());
    assert_eq!(Config::from_source(s).unwrap_err(), ConfigError::InvalidTurnTimeout);
    let mut s = source();
    s.port = Some("3000".to_string());
    s.program_id = Some("bad!".to_string());
    let c = Config::from_source(s).expect("config");
    assert_eq!(c.port, 3000);
    assert_eq!(c.validate_program_id().unwrap_err(), ConfigError::InvalidProgramId);
}
