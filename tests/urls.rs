use sonar_cli::client::{IssueSearchParams, RuleSearchParams, SonarQubeConfig};
use sonar_cli::urls::{
    branch_param, get_component_tree_url, get_duplications_url, get_hotspots_url, get_measures_history_url,
    get_measures_url, get_quality_gate_url, get_source_raw_url, get_source_show_url, get_status_url, get_task_url,
    search_issues_url, search_projects_url, search_rules_url,
};

fn config() -> SonarQubeConfig {
    SonarQubeConfig::new("http://h")
}

#[test]
fn branch_param_only_with_branch() {
    assert_eq!(branch_param(&config()), "");
    assert_eq!(branch_param(&config().with_branch("dev")), "&branch=dev");
}

#[test]
fn issues_url_defaults() {
    let url = search_issues_url(&config(), "proj", 1, 100, &IssueSearchParams::default());
    assert_eq!(url, "http://h/api/issues/search?componentKeys=proj&p=1&ps=100&statuses=OPEN,CONFIRMED,REOPENED");
}

#[test]
fn issues_url_with_filters_and_branch() {
    let params = IssueSearchParams {
        severities: Some("CRITICAL,BLOCKER"),
        types: Some("BUG"),
        statuses: Some("RESOLVED"),
        languages: Some("rust"),
        ..Default::default()
    };
    let url = search_issues_url(&config().with_branch("main"), "proj", 12, 50, &params);
    assert_eq!(
        url,
        "http://h/api/issues/search?componentKeys=proj&p=12&ps=50&statuses=RESOLVED&branch=main&severities=CRITICAL,BLOCKER&types=BUG&languages=rust"
    );
}

#[test]
fn quality_gate_and_measures_urls() {
    assert_eq!(get_quality_gate_url(&config(), "p"), "http://h/api/qualitygates/project_status?projectKey=p");
    assert_eq!(
        get_measures_url(&config().with_branch("b"), "p", &["ncloc", "bugs"]),
        "http://h/api/measures/component?component=p&metricKeys=ncloc,bugs&branch=b"
    );
}

#[test]
fn component_tree_url() {
    assert_eq!(
        get_component_tree_url(&config(), "p", &["coverage"], 3, 100),
        "http://h/api/measures/component_tree?component=p&metricKeys=coverage&qualifiers=FIL&p=3&ps=100"
    );
}

#[test]
fn duplication_hotspot_project_urls() {
    assert_eq!(get_duplications_url(&config(), "p:a.rs"), "http://h/api/duplications/show?key=p:a.rs");
    assert_eq!(
        get_hotspots_url(&config(), "p", 1, 100, None),
        "http://h/api/hotspots/search?projectKey=p&p=1&ps=100&status=TO_REVIEW"
    );
    assert_eq!(
        search_projects_url(&config(), Some("abc"), None, 2, 100),
        "http://h/api/components/search?qualifiers=TRK&p=2&ps=100&q=abc"
    );
}

#[test]
fn history_rules_source_urls() {
    assert_eq!(
        get_measures_history_url(&config(), "p", "coverage", Some("2024-01-01"), None, 1, 100),
        "http://h/api/measures/search_history?component=p&metrics=coverage&p=1&ps=100&from=2024-01-01"
    );
    let params = RuleSearchParams { language: Some("java"), ..Default::default() };
    assert_eq!(search_rules_url(&config(), &params, 1, 100), "http://h/api/rules/search?p=1&ps=100&languages=java");
    assert_eq!(get_source_raw_url(&config(), "p:a.rs"), "http://h/api/sources/raw?key=p:a.rs");
    assert_eq!(
        get_source_show_url(&config(), "p:a.rs", Some(10), Some(20)),
        "http://h/api/sources/show?key=p:a.rs&from=10&to=20"
    );
    assert_eq!(get_status_url(&config()), "http://h/api/system/status");
    assert_eq!(get_task_url(&config(), "AX1"), "http://h/api/ce/task?id=AX1");
}
