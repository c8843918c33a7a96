use sonar_cli::scanner::{build_scanner_args, extract_path, extract_task_id, ScannerConfig};

#[test]
fn test_extract_task_id() {
    let output = "INFO: Analysis report uploaded to server\nINFO: task?id=AYtest123 \nINFO: Done";
    assert_eq!(extract_task_id(output), Some("AYtest123".to_string()));
}

#[test]
fn test_extract_task_id_not_found() {
    assert_eq!(extract_task_id("no task here"), None);
}

#[test]
fn extract_task_id_at_end_of_line() {
    assert_eq!(extract_task_id("x task?id=\nnext"), Some(String::new()));
    assert_eq!(extract_task_id("url: http://h/api/ce/task?id=AB12\r\n"), Some("AB12".to_string()));
}

#[test]
fn scanner_test_extract_path() {
    assert_eq!(extract_path("my-project:src/main.rs", "my-project"), "src/main.rs");
    assert_eq!(extract_path("other:path.rs", "my-project"), "other:path.rs");
}

#[test]
fn test_build_scanner_args() {
    let config = ScannerConfig {
        sources: vec!["src".into(), "lib".into()],
        tests: vec!["tests".into()],
        exclusions: vec!["**/target/**".into()],
        ..Default::default()
    };
    let args = build_scanner_args(&config, "my-project");
    assert!(args.contains(&"-Dsonar.projectKey=my-project".to_string()));
    assert!(args.contains(&"-Dsonar.sources=src,lib".to_string()));
    assert!(args.contains(&"-Dsonar.tests=tests".to_string()));
    assert!(args.contains(&"-Dsonar.exclusions=**/target/**".to_string()));
}

#[test]
fn scanner_args_in_order_with_extras() {
    let config = ScannerConfig {
        coverage_report_path: Some("cov.xml".into()),
        extra_properties: vec![("a".into(), "1".into()), ("b".into(), "2".into())],
        ..Default::default()
    };
    let args = build_scanner_args(&config, "k");
    assert_eq!(
        args,
        vec![
            "-Dsonar.projectKey=k".to_string(),
            "-Dsonar.sources=src".to_string(),
            "-Dsonar.coverageReportPaths=coverage-sonar.xml".to_string(),
            "-Da=1".to_string(),
            "-Db=2".to_string(),
        ]
    );
}
