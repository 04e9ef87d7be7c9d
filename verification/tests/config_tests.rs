use trojan_rust::config::{
    default_bind_addr, default_fallback_addr, default_log_level, default_max_connections,
    default_tcp_timeout, default_udp_bind_addr, default_udp_timeout, Config,
};
use trojan_rust::protocol::{Address, Command, Header};
use trojan_rust::TrojanError;

fn sample_config() -> Config {
    Config {
        bind_addr: default_bind_addr(),
        tls_cert: "certs/cert.pem".to_string(),
        tls_key: "certs/key.pem".to_string(),
        passwords: vec!["5fd924625f6ab16a19cc9807c7c506ae1813490e4ba675f843d5a10e".to_string()],
        udp_bind_addr: default_udp_bind_addr(),
        log_level: default_log_level(),
        tcp_timeout: default_tcp_timeout(),
        udp_timeout: default_udp_timeout(),
        max_connections: default_max_connections(),
        fallback_addr: default_fallback_addr(),
    }
}

fn config_message(r: Result<(), TrojanError>) -> String {
    match r {
        Err(TrojanError::Config(m)) => m,
        other => panic!("expected a config error, got {:?}", other),
    }
}

#[test]
fn test_default_config() {
    let config = sample_config();

    assert_eq!(config.bind_addr, "0.0.0.0:443");
    assert_eq!(config.log_level, "info");
    assert_eq!(config.tcp_timeout, 300);
    assert_eq!(config.udp_timeout, 60);
    assert_eq!(config.max_connections, 1024);
    assert_eq!(config.udp_bind_addr, "0.0.0.0:0");
}

#[test]
fn default_fallback_is_local_web_server() {
    assert_eq!(default_fallback_addr(), "127.0.0.1:80");
}

#[test]
fn validate_accepts_good_config() {
    assert!(sample_config().validate(true, true, true).is_ok());
}

#[test]
fn validate_accepts_upper_case_hex_password() {
    let mut config = sample_config();
    config.passwords = vec!["5FD924625F6AB16A19CC9807C7C506AE1813490E4BA675F843D5A10E".to_string()];
    assert!(config.validate(true, true, true).is_ok());
}

#[test]
fn validate_requires_a_password() {
    let mut config = sample_config();
    config.passwords.clear();
    // The password check comes first, before the file checks.
    assert_eq!(
        config_message(config.validate(false, false, false)),
        "At least one password must be configured"
    );
}

#[test]
fn validate_reports_missing_certificate() {
    let config = sample_config();
    assert_eq!(
        config_message(config.validate(false, true, true)),
        "TLS certificate file not found: certs/cert.pem"
    );
}

#[test]
fn validate_reports_missing_key() {
    let config = sample_config();
    assert_eq!(
        config_message(config.validate(true, false, true)),
        "TLS key file not found: certs/key.pem"
    );
}

#[test]
fn validate_rejects_plain_text_password() {
    let mut config = sample_config();
    config.passwords.push("hunter2".to_string());
    assert_eq!(
        config_message(config.validate(true, true, true)),
        "All passwords must be SHA-224 hex strings (56 hex chars)"
    );
}

#[test]
fn validate_rejects_non_hex_password_of_right_length() {
    let mut config = sample_config();
    config.passwords = vec!["g".repeat(56)];
    assert!(matches!(config.validate(true, true, true), Err(TrojanError::Config(_))));
}

#[test]
fn validate_reports_bad_udp_bind_addr() {
    let mut config = sample_config();
    config.udp_bind_addr = "0.0.0.0".to_string();
    assert_eq!(
        config_message(config.validate(true, true, false)),
        "Invalid udp_bind_addr socket address: 0.0.0.0"
    );
}

#[test]
fn config_clone_keeps_fields() {
    let config = sample_config();
    let copy = config.clone();
    assert_eq!(copy.passwords, config.passwords);
    assert_eq!(copy.fallback_addr, config.fallback_addr);
    assert_eq!(copy.max_connections, config.max_connections);
}

#[test]
fn hashed_password_is_a_valid_config_and_authenticates() {
    let hash = Header::hash_password("correct horse battery staple");
    let mut config = sample_config();
    config.passwords = vec![hash.clone()];
    assert!(config.validate(true, true, true).is_ok());

    let mut raw = hash.as_bytes().to_vec();
    raw.extend_from_slice(&Header::CRLF);
    raw.push(Command::Connect.as_u8());
    raw.extend_from_slice(&Address::Domain("example.net".to_string(), 80).encode().unwrap());
    raw.extend_from_slice(&Header::CRLF);
    let header = Header::try_parse_from_buf(&raw).unwrap().unwrap();
    assert!(header.verify_password(&config.passwords));
    assert!(!header.verify_password(&[Header::hash_password("another password")]));
}
