use sonar_cli::measures::is_known_metric;

#[test]
fn known_metrics() {
    assert!(is_known_metric(&"coverage".to_string()));
    assert!(is_known_metric(&"sqale_rating".to_string()));
    assert!(!is_known_metric(&"unknown".to_string()));
    assert!(!is_known_metric(&String::new()));
}
