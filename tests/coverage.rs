use sonar_cli::coverage::{
    combine_source_with_filename, extract_xml_attr, extract_xml_attr_u32, make_source_relative,
    make_source_relative_with_raw, process_class_element, process_line_element, process_source_element,
    with_trailing_slash,
};

#[test]
fn test_extract_xml_attr() {
    let line = r#"<class name="Foo" filename="src/foo.rs">"#;
    assert_eq!(extract_xml_attr(line, "filename"), Some("src/foo.rs".to_string()));
    assert_eq!(extract_xml_attr(line, "name"), Some("Foo".to_string()));
    assert_eq!(extract_xml_attr(line, "missing"), None);
}

#[test]
fn extract_xml_attr_without_closing_quote() {
    assert_eq!(extract_xml_attr(r#"<a b="unterminated"#, "b"), None);
}

#[test]
fn extract_xml_attr_u32_values() {
    assert_eq!(extract_xml_attr_u32(r#"<line number="42"/>"#, "number"), Some(42));
    assert_eq!(extract_xml_attr_u32(r#"<line number="x"/>"#, "number"), None);
    assert_eq!(extract_xml_attr_u32(r#"<line number="4294967296"/>"#, "number"), None);
    assert_eq!(extract_xml_attr_u32(r#"<line number="4294967295"/>"#, "number"), Some(4294967295));
}

#[test]
fn test_process_line_element() {
    let line = r#"<line number="42" hits="1" branch="false"/>"#;
    assert_eq!(process_line_element(line), Some((42, true)));

    let line = r#"<line number="10" hits="0"/>"#;
    assert_eq!(process_line_element(line), Some((10, false)));
}

#[test]
fn process_line_element_needs_both_attributes() {
    assert_eq!(process_line_element(r#"<line number="10"/>"#), None);
    assert_eq!(process_line_element(r#"<class number="1" hits="1"/>"#), None);
}

#[test]
fn test_process_source_element() {
    assert_eq!(
        process_source_element("  <source>/home/user/project</source>"),
        Some("/home/user/project".to_string())
    );
    assert_eq!(process_source_element("  <source></source>"), None);
    assert_eq!(process_source_element("not a source"), None);
}

#[test]
fn process_source_element_trims_and_rejects_reversed_tags() {
    assert_eq!(process_source_element("<source>  src  </source>"), Some("src".to_string()));
    assert_eq!(process_source_element("</source><source>"), None);
}

#[test]
fn process_class_element_reads_filename() {
    assert_eq!(
        process_class_element(r#"<class name="Foo" filename="src/foo.rs">"#),
        Some("src/foo.rs".to_string())
    );
    assert_eq!(process_class_element(r#"<package name="p">"#), None);
}

#[test]
fn test_combine_source_with_filename() {
    assert_eq!(
        combine_source_with_filename(&Some("src".to_string()), "main.rs".to_string()),
        "src/main.rs"
    );
    assert_eq!(combine_source_with_filename(&None, "main.rs".to_string()), "main.rs");
    assert_eq!(combine_source_with_filename(&Some("".to_string()), "main.rs".to_string()), "main.rs");
}

#[test]
fn combine_source_strips_trailing_separators() {
    assert_eq!(
        combine_source_with_filename(&Some("src//".to_string()), "a.rs".to_string()),
        "src/a.rs"
    );
    assert_eq!(combine_source_with_filename(&Some("/".to_string()), "a.rs".to_string()), "a.rs");
}

#[test]
fn make_source_relative_strips_work_dir() {
    assert_eq!(
        make_source_relative("/work/src".to_string(), "/work", "/work/"),
        "src"
    );
    assert_eq!(make_source_relative("/work".to_string(), "/work", "/work/"), "");
    assert_eq!(make_source_relative("/other/src".to_string(), "/work", "/work/"), "/other/src");
}

#[test]
fn make_source_relative_with_raw_uses_raw_dir() {
    assert_eq!(
        make_source_relative_with_raw("/link/src".to_string(), "/real", "/real/", "/link", "/link/"),
        "src"
    );
    assert_eq!(
        make_source_relative_with_raw("lib".to_string(), "/real", "/real/", "/link", "/link/"),
        "lib"
    );
}

#[test]
fn trailing_slash_is_single() {
    assert_eq!(with_trailing_slash("/a/b"), "/a/b/");
    assert_eq!(with_trailing_slash("/a/b///"), "/a/b/");
}

use sonar_cli::coverage::{is_cobertura_head, line_summary, render_file, CoberturaConverter, WorkDirs};

#[test]
fn line_summary_dedupes_and_sorts() {
    let s = line_summary(&[(5, false), (2, false), (5, true), (9, false), (2, false)]);
    assert_eq!(s, vec![(2, false), (5, true), (9, false)]);
    assert!(line_summary(&[]).is_empty());
}

#[test]
fn render_file_writes_sorted_elements() {
    let out = render_file("src/a.rs", &[(3, true), (1, false), (3, false)]);
    assert_eq!(
        out,
        "  <file path=\"src/a.rs\">\n    <lineToCover lineNumber=\"1\" covered=\"false\"/>\n    <lineToCover lineNumber=\"3\" covered=\"true\"/>\n  </file>\n"
    );
    assert_eq!(render_file("src/a.rs", &[]), "");
}

#[test]
fn cobertura_head_detection() {
    let lines = |v: &[&str]| v.iter().map(|s| s.to_string()).collect::<Vec<_>>();
    assert!(is_cobertura_head(&lines(&["<?xml version=\"1.0\"?>", "<!DOCTYPE coverage SYSTEM \"x\">"])));
    assert!(is_cobertura_head(&lines(&["<coverage line-rate=\"1\" branch-rate=\"0\">"])));
    assert!(!is_cobertura_head(&lines(&["<coverage version=\"1\">"])));
    assert!(!is_cobertura_head(&lines(&["a", "b", "c", "d", "e", "<!DOCTYPE coverage>"])));
    assert!(!is_cobertura_head(&[]));
}

#[test]
fn converter_groups_lines_by_class() {
    let dirs = WorkDirs {
        resolved: "/work".to_string(),
        resolved_prefix: "/work/".to_string(),
        raw: "/work".to_string(),
        raw_prefix: "/work/".to_string(),
    };
    let mut c = CoberturaConverter::new(dirs);
    assert_eq!(c.feed("<sources><source>/work/src</source></sources>"), None);
    assert_eq!(c.source_prefix.as_deref(), Some("src"));
    assert_eq!(c.feed(r#"<class name="a" filename="a.rs">"#), None);
    assert_eq!(c.feed(r#"<line number="2" hits="1"/>"#), None);
    assert_eq!(c.feed(r#"<line number="1" hits="0"/>"#), None);
    let first = c.feed(r#"<class name="b" filename="b.rs">"#).unwrap();
    assert_eq!(
        first,
        "  <file path=\"src/a.rs\">\n    <lineToCover lineNumber=\"1\" covered=\"false\"/>\n    <lineToCover lineNumber=\"2\" covered=\"true\"/>\n  </file>\n"
    );
    assert_eq!(c.current_file.as_deref(), Some("src/b.rs"));
    assert_eq!(c.finish(), Some(String::new()));
}
