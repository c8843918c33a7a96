use std::time::Duration;

use sonar_cli::client::SonarQubeConfig;

#[test]
fn test_config_builder() {
    let config = SonarQubeConfig::new("http://sonar.example.com")
        .with_token("my-token")
        .with_project("my-project")
        .with_timeout(Duration::from_secs(60));

    assert_eq!(config.url, "http://sonar.example.com");
    assert_eq!(config.token, Some("my-token".to_string()));
    assert_eq!(config.project_key, Some("my-project".to_string()));
    assert_eq!(config.timeout, Duration::from_secs(60));
}

#[test]
fn test_config_default() {
    let config = SonarQubeConfig::default();
    assert_eq!(config.url, "http://localhost:9000");
    assert!(config.token.is_none());
    assert_eq!(config.timeout, Duration::from_secs(30));
}

#[test]
fn config_with_branch_keeps_other_fields() {
    let config = SonarQubeConfig::new("http://h").with_branch("dev").with_token("t");
    assert_eq!(config.branch, Some("dev".to_string()));
    assert_eq!(config.token, Some("t".to_string()));
    assert_eq!(config.url, "http://h");
    assert!(config.project_key.is_none());
}
