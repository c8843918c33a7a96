use sonar_cli::auth::{apply_credentials, mask_token};
use sonar_cli::config::StoredConfig;

#[test]
fn test_mask_token_short() {
    assert_eq!(mask_token("abc"), "****");
    assert_eq!(mask_token("12345678"), "****");
}

#[test]
fn test_mask_token_long() {
    assert_eq!(mask_token("squ_abcdefgh1234"), "squ_...1234");
    assert_eq!(mask_token("123456789"), "1234...6789");
}

#[test]
fn test_mask_token_exactly_nine_chars() {
    assert_eq!(mask_token("123456789"), "1234...6789");
}

#[test]
fn mask_token_empty() {
    assert_eq!(mask_token(""), "****");
}

#[test]
fn test_apply_credentials_url_only() {
    let mut stored = StoredConfig::default();
    let result = apply_credentials(&mut stored, Some("https://sonar.example.com".to_string()), None);
    assert!(result.is_ok());
    assert_eq!(stored.url.as_deref(), Some("https://sonar.example.com"));
    assert!(stored.token.is_none());
}

#[test]
fn test_apply_credentials_token_only() {
    let mut stored = StoredConfig::default();
    let result = apply_credentials(&mut stored, None, Some("squ_abc123xyz".to_string()));
    assert!(result.is_ok());
    assert!(stored.url.is_none());
    assert_eq!(stored.token.as_deref(), Some("squ_abc123xyz"));
}

#[test]
fn test_apply_credentials_both() {
    let mut stored = StoredConfig::default();
    let result = apply_credentials(
        &mut stored,
        Some("https://sonar.example.com".to_string()),
        Some("squ_abc123".to_string()),
    );
    assert!(result.is_ok());
    assert_eq!(stored.url.as_deref(), Some("https://sonar.example.com"));
    assert_eq!(stored.token.as_deref(), Some("squ_abc123"));
}

#[test]
fn test_apply_credentials_neither_preserves_existing() {
    let mut stored = StoredConfig {
        url: Some("existing_url".to_string()),
        token: Some("existing_token".to_string()),
    };
    let result = apply_credentials(&mut stored, None, None);
    assert!(result.is_ok());
    assert_eq!(stored.url.as_deref(), Some("existing_url"));
    assert_eq!(stored.token.as_deref(), Some("existing_token"));
}

#[test]
fn test_apply_credentials_empty_token_returns_error() {
    let mut stored = StoredConfig::default();
    let result = apply_credentials(&mut stored, None, Some(String::new()));
    assert!(result.is_err());
    assert_eq!(result.unwrap_err(), "Token must not be empty.");
}

#[test]
fn test_apply_credentials_overwrites_url() {
    let mut stored = StoredConfig {
        url: Some("old_url".to_string()),
        token: Some("old_token".to_string()),
    };
    let result = apply_credentials(&mut stored, Some("new_url".to_string()), None);
    assert!(result.is_ok());
    assert_eq!(stored.url.as_deref(), Some("new_url"));
    assert_eq!(stored.token.as_deref(), Some("old_token"));
}

#[test]
fn empty_token_keeps_stored_token_but_takes_url() {
    let mut stored = StoredConfig {
        url: Some("old_url".to_string()),
        token: Some("old_token".to_string()),
    };
    let result = apply_credentials(&mut stored, Some("new_url".to_string()), Some(String::new()));
    assert!(result.is_err());
    assert_eq!(stored.url.as_deref(), Some("new_url"));
    assert_eq!(stored.token.as_deref(), Some("old_token"));
}
