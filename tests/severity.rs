use sonar_cli::severity;
use sonar_cli::severity::build_severity_filter;

#[test]
fn test_build_severity_filter_none() {
    assert_eq!(build_severity_filter(None), None);
}

#[test]
fn test_build_severity_filter_critical() {
    let result = build_severity_filter(Some("CRITICAL"));
    assert!(result.is_some());
    let s = result.unwrap();
    assert!(s.contains("CRITICAL"));
    assert!(s.contains("BLOCKER"));
    assert!(!s.contains("MAJOR"));
}

#[test]
fn test_build_severity_filter_info() {
    let result = build_severity_filter(Some("INFO"));
    assert!(result.is_some());
    let s = result.unwrap();
    assert!(s.contains("INFO"));
    assert!(s.contains("BLOCKER"));
}

#[test]
fn severity_filter_exact_lists() {
    assert_eq!(build_severity_filter(Some("CRITICAL")).unwrap(), "CRITICAL,BLOCKER");
    assert_eq!(build_severity_filter(Some("INFO")).unwrap(), "INFO,MINOR,MAJOR,CRITICAL,BLOCKER");
    assert_eq!(build_severity_filter(Some("BLOCKER")).unwrap(), "BLOCKER");
    assert_eq!(build_severity_filter(Some("MAJOR")).unwrap(), "MAJOR,CRITICAL,BLOCKER");
}

#[test]
fn severity_filter_ignores_case() {
    assert_eq!(build_severity_filter(Some("critical")).unwrap(), "CRITICAL,BLOCKER");
    assert_eq!(build_severity_filter(Some("Minor")).unwrap(), "MINOR,MAJOR,CRITICAL,BLOCKER");
}

#[test]
fn severity_filter_unknown_name_selects_all() {
    assert_eq!(build_severity_filter(Some("nonsense")).unwrap(), "INFO,MINOR,MAJOR,CRITICAL,BLOCKER");
}

#[test]
fn test_severity_ordinal() {
    assert_eq!(severity::ordinal("INFO"), 0);
    assert_eq!(severity::ordinal("MINOR"), 1);
    assert_eq!(severity::ordinal("MAJOR"), 2);
    assert_eq!(severity::ordinal("CRITICAL"), 3);
    assert_eq!(severity::ordinal("BLOCKER"), 4);
}

#[test]
fn ordinal_of_unknown_is_zero() {
    assert_eq!(severity::ordinal("UNKNOWN"), 0);
    assert_eq!(severity::ordinal("blocker"), 0);
}

#[test]
fn all_levels_ascending() {
    assert_eq!(severity::ALL, ["INFO", "MINOR", "MAJOR", "CRITICAL", "BLOCKER"]);
    for (i, s) in severity::ALL.iter().enumerate() {
        assert_eq!(severity::ordinal(s), i);
    }
}
