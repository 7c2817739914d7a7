use buck_tui::buck::BuckTarget;
use buck_tui::buck::CoreError;
use buck_tui::buck::DetailOutcome;
use buck_tui::parse::classify_query_output;
use buck_tui::parse::parse_buck2_targets_output;
use buck_tui::parse::parse_target_query_output;
use buck_tui::strutil::str_contains;
use buck_tui::strutil::str_head_before_first;
use buck_tui::strutil::str_le;
use buck_tui::strutil::str_path_prefix_of;
use buck_tui::strutil::str_split_char;
use buck_tui::strutil::str_tail_after_last;
use buck_tui::strutil::str_trim;

fn target(name: &str, rule_type: &str) -> BuckTarget {
    BuckTarget {
        name: name.to_string(),
        rule_type: rule_type.to_string(),
        path: "/r/d".to_string(),
        deps: Vec::new(),
        details_loaded: false,
    }
}

#[test]
fn target_name_strips_package_and_colon() {
    assert_eq!(target("cell//pkg/sub:server", "x").target_name(), "server");
    assert_eq!(target("//pkg:tool", "x").target_name(), "tool");
    assert_eq!(target("bare", "x").target_name(), "bare");
}

#[test]
fn rule_language_drops_leading_underscore_and_suffix() {
    assert_eq!(target("x", "rust_library").get_rule_language(), "rust");
    assert_eq!(target("x", "_go_binary").get_rule_language(), "go");
    assert_eq!(target("x", "python").get_rule_language(), "python");
    assert_eq!(target("x", "").get_rule_language(), "");
}

#[test]
fn display_title_has_name_and_rule() {
    assert_eq!(
        target("//pkg:server", "rust_binary").display_title(),
        " server (rust_binary)"
    );
}

#[test]
fn substring_search() {
    assert!(str_contains("hello world", "lo w"));
    assert!(str_contains("abc", ""));
    assert!(!str_contains("abc", "abcd"));
    assert!(!str_contains("abc", "ac"));
}

#[test]
fn trimming_strips_unicode_white_space() {
    assert_eq!(str_trim("  label\t"), "label");
    assert_eq!(str_trim("\r\n"), "");
    assert_eq!(str_trim("x"), "x");
    assert_eq!(str_trim("\u{00A0}padded\u{2003}"), "padded");
}

#[test]
fn splitting_keeps_empty_pieces() {
    let pieces = str_split_char("a\n\nb\n", '\n');
    assert_eq!(pieces, vec!["a", "", "b", ""]);
    assert_eq!(str_split_char("", '\n'), vec![""]);
}

#[test]
fn suffix_and_prefix_extraction() {
    assert_eq!(str_tail_after_last("/a/b/c", "/"), "c");
    assert_eq!(str_tail_after_last("plain", "/"), "plain");
    assert_eq!(str_head_before_first("rust_library", '_'), "rust");
    assert_eq!(str_head_before_first("nounderscore", '_'), "nounderscore");
}

#[test]
fn lexicographic_order() {
    assert!(str_le("alpha", "beta"));
    assert!(str_le("abc", "abc"));
    assert!(str_le("ab", "abc"));
    assert!(!str_le("b", "alpha"));
}

#[test]
fn path_prefix_respects_components() {
    assert!(str_path_prefix_of("/a/b", "/a/b/c"));
    assert!(str_path_prefix_of("/a/b", "/a/b"));
    assert!(str_path_prefix_of("/a/b/", "/a/b/c"));
    assert!(!str_path_prefix_of("/a/b", "/a/bc"));
    assert!(!str_path_prefix_of("/a/bc", "/a/b"));
}

#[test]
fn target_listing_parses_lines() {
    let out = "  //d:a  \n\n//d:b\n   \n";
    let targets = parse_buck2_targets_output(out, &"/r/d".to_string());
    assert_eq!(targets.len(), 2);
    assert_eq!(targets[0].name, "//d:a");
    assert_eq!(targets[0].rule_type, "unknown");
    assert_eq!(targets[0].path, "/r/d");
    assert!(targets[0].deps.is_empty());
    assert!(!targets[0].details_loaded);
    assert_eq!(targets[1].name, "//d:b");
    assert!(parse_buck2_targets_output("", &"/r/d".to_string()).is_empty());
}

#[test]
fn query_output_parses_rule_and_deps() {
    let json = r#"{"//d:a": {"buck.type": "rust_library", "buck.deps": ["//x:y", "//z:w"]}}"#;
    let details = parse_target_query_output(json, "//d:a").unwrap();
    assert_eq!(details.rule_type, "rust_library");
    assert_eq!(details.deps, vec!["//x:y".to_string(), "//z:w".to_string()]);
}

#[test]
fn query_output_defaults_missing_fields() {
    let json = r#"{"//d:a": {}}"#;
    let details = parse_target_query_output(json, "//d:a").unwrap();
    assert_eq!(details.rule_type, "unknown");
    assert!(details.deps.is_empty());
}

#[test]
fn query_output_skips_non_string_deps() {
    let json = r#"{"//d:a": {"buck.type": "x", "buck.deps": ["//k:l", 7, "//m:n"]}}"#;
    let details = parse_target_query_output(json, "//d:a").unwrap();
    assert_eq!(details.deps, vec!["//k:l".to_string(), "//m:n".to_string()]);
}

#[test]
fn query_output_errors_are_parse_failures() {
    assert_eq!(
        parse_target_query_output("not json", "//d:a").unwrap_err(),
        CoreError::ParseFailure
    );
    assert_eq!(
        parse_target_query_output(r#"{"//other": {}}"#, "//d:a").unwrap_err(),
        CoreError::ParseFailure
    );
}

#[test]
fn query_classification() {
    assert!(matches!(
        classify_query_output(false, "", "//d:a"),
        DetailOutcome::Failed(CoreError::ExternalCommandFailure)
    ));
    assert!(matches!(
        classify_query_output(true, "bad", "//d:a"),
        DetailOutcome::Failed(CoreError::ParseFailure)
    ));
    match classify_query_output(true, r#"{"//d:a": {"buck.type": "t"}}"#, "//d:a") {
        DetailOutcome::Loaded(d) => assert_eq!(d.rule_type, "t"),
        _ => panic!("expected parsed details"),
    }
}

#[test]
fn cell_table_loads_from_audit_output() {
    let mut p = buck_tui::buck::BuckProject::new("/repo".to_string(), true).unwrap();
    p.load_cells(Some(r#"{"root": "/repo", "cell": "/repo/cell"}"#));
    let mut cells = p.cells.clone();
    cells.sort();
    assert_eq!(
        cells,
        vec![
            ("cell".to_string(), "/repo/cell".to_string()),
            ("root".to_string(), "/repo".to_string()),
        ]
    );
    p.load_cells(Some("not json"));
    assert_eq!(p.cells.len(), 2);
    p.load_cells(None);
    assert_eq!(p.cells.len(), 2);
}
