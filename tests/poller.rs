use sonar_cli::client::SonarQubeError;
use sonar_cli::poller::{next_action, PollAction, PollEvent};
use sonar_cli::types::{AnalysisResponse, AnalysisTask};

fn task(status: &str, error: Option<&str>) -> AnalysisResponse {
    AnalysisResponse {
        task: AnalysisTask {
            id: "T1".to_string(),
            task_type: "REPORT".to_string(),
            status: status.to_string(),
            submitted_at: "2024-01-01T00:00:00+0000".to_string(),
            executed_at: None,
            analysis_id: None,
            error_message: error.map(|e| e.to_string()),
        },
    }
}

fn fetched(status: &str, error: Option<&str>) -> PollAction {
    next_action(1000, PollEvent::Fetched(Ok(task(status, error))))
}

#[test]
fn poll_success_returns_task() {
    match fetched("SUCCESS", None) {
        PollAction::Finish(Ok(t)) => assert_eq!(t.id, "T1"),
        _ => panic!("expected the task"),
    }
}

#[test]
fn poll_failed_carries_message() {
    match fetched("FAILED", Some("crashed")) {
        PollAction::Finish(Err(SonarQubeError::Analysis(m))) => assert!(m.contains("crashed")),
        _ => panic!("expected an analysis failure"),
    }
}

#[test]
fn poll_failed_without_message_is_empty() {
    match fetched("FAILED", None) {
        PollAction::Finish(Err(SonarQubeError::Analysis(m))) => assert_eq!(m, ""),
        _ => panic!("expected an analysis failure"),
    }
}

#[test]
fn poll_canceled_has_fixed_message() {
    match fetched("CANCELED", Some("ignored")) {
        PollAction::Finish(Err(SonarQubeError::Analysis(m))) => assert_eq!(m, "Analysis was canceled"),
        _ => panic!("expected an analysis failure"),
    }
}

#[test]
fn poll_unknown_status_retries_like_pending() {
    assert!(matches!(fetched("PENDING", None), PollAction::Retry));
    assert!(matches!(fetched("IN_PROGRESS", None), PollAction::Retry));
    assert!(matches!(fetched("SOMETHING_NEW", None), PollAction::Retry));
}

#[test]
fn poll_fetch_errors_retry() {
    assert!(matches!(
        next_action(1000, PollEvent::Fetched(Err(SonarQubeError::Http("down".to_string())))),
        PollAction::Retry
    ));
    assert!(matches!(
        next_action(
            1000,
            PollEvent::Fetched(Err(SonarQubeError::Api { status: 502, message: String::new() }))
        ),
        PollAction::Retry
    ));
    assert!(matches!(
        next_action(1000, PollEvent::Fetched(Err(SonarQubeError::Deserialize("bad".to_string())))),
        PollAction::Retry
    ));
}

#[test]
fn poll_deadline() {
    assert!(matches!(next_action(1000, PollEvent::Elapsed(1000)), PollAction::Fetch));
    assert!(matches!(
        next_action(1000, PollEvent::Elapsed(1001)),
        PollAction::Finish(Err(SonarQubeError::Timeout))
    ));
}

#[test]
fn poll_times_out_while_pending() {
    // A wait driven by a clock that advances 400 ms per round and a task that stays pending.
    let timeout = 1000;
    let mut elapsed = 0u128;
    let result = loop {
        match next_action(timeout, PollEvent::Elapsed(elapsed)) {
            PollAction::Finish(r) => break r,
            PollAction::Fetch => {}
            PollAction::Retry => unreachable!(),
        }
        match next_action(timeout, PollEvent::Fetched(Ok(task("PENDING", None)))) {
            PollAction::Finish(r) => break r,
            _ => elapsed += 400,
        }
    };
    assert!(matches!(result, Err(SonarQubeError::Timeout)));
}
