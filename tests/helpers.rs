use sonar_cli::helpers::{
    extract_duplication_blocks, extract_path, keep_duplicated, measure_u32, measure_value, parse_measure,
};
use sonar_cli::types::{Duplication, DuplicationBlock, DuplicationFile, DuplicationsResponse, Measure, TreeComponent};

fn measure(metric: &str, value: Option<&str>) -> Measure {
    Measure { metric: metric.to_string(), value: value.map(|v| v.to_string()), period: None }
}

#[test]
fn helpers_test_extract_path() {
    assert_eq!(extract_path("my-project:src/main.rs", "my-project"), "src/main.rs");
    assert_eq!(extract_path("other:path.rs", "my-project"), "other:path.rs");
}

#[test]
fn test_extract_path_no_prefix() {
    assert_eq!(extract_path("standalone", "my-project"), "standalone");
}

#[test]
fn test_parse_measure_found() {
    let measures = vec![measure("coverage", Some("85.5")), measure("bugs", Some("3"))];
    let coverage: f64 = parse_measure(&measures, "coverage");
    assert!((coverage - 85.5).abs() < 0.001);
    let bugs: u32 = parse_measure(&measures, "bugs");
    assert_eq!(bugs, 3);
}

#[test]
fn test_parse_measure_not_found() {
    let measures: Vec<Measure> = vec![];
    let val: u32 = parse_measure(&measures, "nonexistent");
    assert_eq!(val, 0);
}

#[test]
fn test_parse_measure_invalid_value() {
    let measures = vec![measure("coverage", Some("not-a-number"))];
    let val: f64 = parse_measure(&measures, "coverage");
    assert_eq!(val, 0.0_f64);
}

#[test]
fn test_parse_measure_none_value() {
    let measures = vec![measure("coverage", None)];
    let val: u32 = parse_measure(&measures, "coverage");
    assert_eq!(val, 0);
}

#[test]
fn measure_value_takes_first_match() {
    let measures = vec![measure("a", Some("1")), measure("a", Some("2"))];
    assert_eq!(measure_value(&measures, "a"), Some("1".to_string()));
    assert_eq!(measure_value(&measures, "b"), None);
}

fn component(key: &str, dup: Option<&str>) -> TreeComponent {
    TreeComponent {
        key: key.to_string(),
        name: None,
        path: None,
        qualifier: None,
        measures: vec![measure("duplicated_lines", dup)],
    }
}

#[test]
fn keep_duplicated_filters_zero_and_missing() {
    let kept = keep_duplicated(vec![
        component("a", Some("3")),
        component("b", Some("0")),
        component("c", None),
        component("d", Some("12")),
    ]);
    let keys: Vec<&str> = kept.iter().map(|c| c.key.as_str()).collect();
    assert_eq!(keys, vec!["a", "d"]);
}

fn file(key: &str, name: Option<&str>) -> DuplicationFile {
    DuplicationFile { key: key.to_string(), name: name.map(|n| n.to_string()) }
}

fn block(r: &str, from: u32, size: u32) -> DuplicationBlock {
    DuplicationBlock { file_ref: r.to_string(), from, size }
}

#[test]
fn duplication_group_with_only_current_block_yields_nothing() {
    let response = DuplicationsResponse {
        duplications: vec![Duplication { blocks: vec![block("1", 10, 5)] }],
        files: vec![("1".to_string(), file("proj:src/a.rs", Some("a.rs")))],
    };
    assert!(extract_duplication_blocks(&response, "proj:src/a.rs").is_empty());
}

#[test]
fn duplication_blocks_resolve_other_files() {
    let response = DuplicationsResponse {
        duplications: vec![
            Duplication { blocks: vec![block("1", 10, 5), block("2", 20, 5), block("3", 30, 5)] },
            Duplication { blocks: vec![block("2", 1, 4), block("1", 50, 4)] },
        ],
        files: vec![
            ("1".to_string(), file("proj:src/a.rs", Some("a.rs"))),
            ("2".to_string(), file("proj:src/b.rs", None)),
        ],
    };
    let out = extract_duplication_blocks(&response, "proj:src/a.rs");
    assert_eq!(out.len(), 2);
    assert_eq!(out[0].from_line, 10);
    assert_eq!(out[0].size, 5);
    assert_eq!(out[0].duplicated_in, "proj:src/b.rs");
    assert_eq!(out[0].duplicated_in_line, 20);
    assert_eq!(out[1].from_line, 50);
    assert_eq!(out[1].size, 4);
    assert_eq!(out[1].duplicated_in, "proj:src/b.rs");
    assert_eq!(out[1].duplicated_in_line, 1);
}

#[test]
fn duplication_blocks_use_display_name() {
    let response = DuplicationsResponse {
        duplications: vec![Duplication { blocks: vec![block("2", 7, 3), block("1", 9, 3)] }],
        files: vec![
            ("1".to_string(), file("proj:src/a.rs", None)),
            ("2".to_string(), file("proj:src/b.rs", Some("b.rs"))),
        ],
    };
    let out = extract_duplication_blocks(&response, "proj:src/a.rs");
    assert_eq!(out.len(), 1);
    assert_eq!(out[0].from_line, 9);
    assert_eq!(out[0].duplicated_in, "b.rs");
    assert_eq!(out[0].duplicated_in_line, 7);
}

#[test]
fn duplication_two_refs_to_current_file_are_not_reported() {
    let response = DuplicationsResponse {
        duplications: vec![Duplication { blocks: vec![block("1", 10, 5), block("9", 40, 5)] }],
        files: vec![
            ("1".to_string(), file("proj:src/a.rs", None)),
            ("9".to_string(), file("proj:src/a.rs", None)),
        ],
    };
    assert!(extract_duplication_blocks(&response, "proj:src/a.rs").is_empty());
}

#[test]
fn duplication_group_without_current_file_is_skipped() {
    let response = DuplicationsResponse {
        duplications: vec![Duplication { blocks: vec![block("2", 1, 2), block("3", 5, 2)] }],
        files: vec![
            ("2".to_string(), file("proj:src/b.rs", None)),
            ("3".to_string(), file("proj:src/c.rs", None)),
        ],
    };
    assert!(extract_duplication_blocks(&response, "proj:src/a.rs").is_empty());
}

#[test]
fn keep_duplicated_looks_at_every_duplicated_lines_measure() {
    let mut later_nonzero = component("a", Some("0"));
    later_nonzero.measures.push(measure("duplicated_lines", Some("5")));
    let mut missing_then_nonzero = component("b", None);
    missing_then_nonzero.measures.push(measure("duplicated_lines", Some("2")));
    let mut other_metric = component("c", Some("0"));
    other_metric.measures.push(measure("duplicated_blocks", Some("4")));
    let kept = keep_duplicated(vec![later_nonzero, missing_then_nonzero, other_metric]);
    let keys: Vec<&str> = kept.iter().map(|c| c.key.as_str()).collect();
    assert_eq!(keys, vec!["a", "b"]);
}

#[test]
fn measure_u32_reads_first_value() {
    let measures = vec![measure("duplicated_lines", Some("12")), measure("duplicated_lines", Some("3"))];
    assert_eq!(measure_u32(&measures, "duplicated_lines"), 12);
    assert_eq!(measure_u32(&[measure("x", Some("oops"))], "x"), 0);
    assert_eq!(measure_u32(&[measure("x", None)], "x"), 0);
    assert_eq!(measure_u32(&[], "x"), 0);
}
