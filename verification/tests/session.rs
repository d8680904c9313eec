use sqlite_cms::session::{resolve_session_key, resolve_session_secret, session_key_bytes, AppConfig, DEV_SESSION_SECRET};

#[test]
fn resolve_session_secret_uses_config_when_set() {
    let mut config = AppConfig::default();
    config.security.session_secret = Some("my-production-secret".to_string());
    assert_eq!(resolve_session_secret(&config), "my-production-secret");
}

#[test]
fn resolve_session_secret_falls_back_for_dev() {
    let config = AppConfig::default();
    assert_eq!(resolve_session_secret(&config), DEV_SESSION_SECRET);
}

#[test]
fn session_key_is_made_from_the_secret() {
    let mut config = AppConfig::default();
    config.security.session_secret = Some("  abc  ".to_string());
    let key = resolve_session_key(&config);
    let expected: Vec<u8> = b"abc".iter().cycle().take(64).copied().collect();
    assert_eq!(key.master(), expected.as_slice());
    assert_eq!(session_key_bytes("abc"), expected);
    let fallback = resolve_session_key(&AppConfig::default());
    assert_eq!(fallback.master(), session_key_bytes(DEV_SESSION_SECRET).as_slice());
}
