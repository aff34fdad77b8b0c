use s3_turbo_list::hints::{
    boundary_warnings, check_toml_cache, inspect_plain_hints, inspect_toml_hints,
    looks_like_toml_hints, parse_as_plain, sorted_unique, toml_parse_error,
    validate_boundary_line, warn_bos_hinted_segments, HintsCache, HintsFormat,
};

fn cache(boundaries: &[&str]) -> HintsCache {
    HintsCache {
        bucket: "b".to_string(),
        region: Some("r".to_string()),
        prefix: None,
        total_objects: 10,
        boundaries: boundaries.iter().map(|s| s.to_string()).collect(),
        generated_at: "2026-01-01T00:00:00Z".to_string(),
        source_count: None,
        source_files: vec![],
        max_keys: None,
        max_prefix_entries: None,
        prefix_counts_truncated: false,
        scan_mode: None,
        sampled_objects: None,
        sampled_pages: None,
        sample_limit: None,
        max_pages: None,
        estimate_mode: None,
        segment_estimates: vec![],
    }
}

#[test]
fn test_looks_like_toml_boundaries_array() {
    assert!(looks_like_toml_hints("bucket = \"b\"\nboundaries = [\n    \"alpha\",\n]\n"));
}

#[test]
fn test_does_not_look_like_toml_plain_keys() {
    assert!(!looks_like_toml_hints("alpha/\nbeta/\ngamma/\n"));
}

#[test]
fn test_parse_toml_hints_clean() {
    let content = r#"bucket = "b"
region = "r"
total_objects = 10
boundaries = [
    "alpha/",
    "beta/file-05.txt",
    "logs/file with spaces.log",
    "logs/file+plus.log",
]
generated_at = "2026-01-01T00:00:00Z"
"#;
    assert!(looks_like_toml_hints(content));
    // The document as the application's TOML reader hands it over.
    let parsed = cache(&["alpha/", "beta/file-05.txt", "logs/file with spaces.log", "logs/file+plus.log"]);
    let result = check_toml_cache("hints.toml", parsed).unwrap().boundaries;
    assert_eq!(
        result,
        vec!["alpha/", "beta/file-05.txt", "logs/file with spaces.log", "logs/file+plus.log"]
    );
}

#[test]
fn test_parse_toml_hints_fails_on_malformed() {
    let content = "boundaries = [\n    alpha,\n    beta\n";
    assert!(looks_like_toml_hints(content));
    let err = content.parse::<toml::Table>().unwrap_err();
    let msg = toml_parse_error("hints.toml", &err.to_string());
    assert!(msg.contains("hints.toml"));
}

#[test]
fn test_parse_plain_hints_clean() {
    let content = "alpha/\nbeta/file-05.txt\n";
    let result = parse_as_plain("hints.txt", content).unwrap();
    assert_eq!(result, vec!["alpha/", "beta/file-05.txt"]);
}

#[test]
fn test_parse_plain_hints_skips_empty_and_comments() {
    let content = "\nalpha/\n# this is a comment\nbeta/\n  \n";
    let result = parse_as_plain("hints.txt", content).unwrap();
    assert_eq!(result, vec!["alpha/", "beta/"]);
}

#[test]
fn test_parse_plain_rejects_quoted_comma() {
    let content = "alpha/\n\"beta\",\n";
    assert!(!looks_like_toml_hints(content));
    let result = parse_as_plain("hints.txt", content);
    assert!(result.is_err());
    assert!(result.unwrap_err().contains("leaked TOML"));
}

#[test]
fn test_parse_plain_rejects_boundaries_eq_bracket() {
    let content = "boundaries = [\nalpha/\n]\n";
    // Read as TOML, the unquoted value does not parse.
    assert!(looks_like_toml_hints(content));
    assert!(content.parse::<toml::Table>().is_err());
    // Read as plain lines, the TOML syntax is refused too.
    assert!(parse_as_plain("hints.txt", content).is_err());
}

#[test]
fn test_inspect_plain_warns_duplicate_and_unsorted() {
    let content = "beta/\nalpha/\nalpha/\n";
    let report = inspect_plain_hints("hints.txt", content, 5).unwrap();
    assert_eq!(report.format, HintsFormat::Plain);
    assert_eq!(report.boundary_count, 2);
    assert!(report.warnings.iter().any(|w| w.contains("not sorted")));
    assert!(report.warnings.iter().any(|w| w.contains("duplicate")));
}

#[test]
fn test_inspect_toml_metadata() {
    let mut parsed = cache(&["a/", "b/"]);
    parsed.total_objects = 2;
    parsed.scan_mode = Some("sampled".to_string());
    parsed.sampled_objects = Some(2);
    parsed.sampled_pages = Some(1);
    parsed.sample_limit = Some(2);
    parsed.max_pages = Some(1);
    let report = inspect_toml_hints("hints.toml", parsed, 1).unwrap();
    let metadata = report.metadata.unwrap();
    assert_eq!(metadata.scan_mode.as_deref(), Some("sampled"));
    assert_eq!(metadata.sample_limit, Some(2));
    assert_eq!(report.first_boundaries, vec!["a/"]);
}

#[test]
fn sorted_unique_sorts_and_dedups() {
    let v: Vec<String> = ["c", "a", "b", "a"].iter().map(|s| s.to_string()).collect();
    assert_eq!(sorted_unique(&v), vec!["a", "b", "c"]);
    assert_eq!(sorted_unique(&[]), Vec::<String>::new());
}

#[test]
fn boundary_warnings_on_clean_set_is_empty() {
    let v: Vec<String> = ["a/", "b/"].iter().map(|s| s.to_string()).collect();
    assert!(boundary_warnings(&v).is_empty());
}

#[test]
fn validate_boundary_line_rejects_toml_syntax() {
    assert!(validate_boundary_line("alpha/", 1).is_ok());
    assert!(validate_boundary_line("\"alpha\",", 2).is_err());
}

#[test]
fn toml_cache_with_control_character_boundary_is_refused() {
    let err = check_toml_cache("hints.toml", cache(&["a/", "b\u{1}"])).unwrap_err();
    assert!(err.contains("control characters"));
    let err = check_toml_cache("hints.toml", cache(&["a/", "]"])).unwrap_err();
    assert!(err.contains("boundary 1 is malformed"));
}

#[test]
fn bos_hinted_segments_warn_only_for_bos_with_boundaries() {
    let v: Vec<String> = vec!["a/".to_string()];
    assert!(warn_bos_hinted_segments(Some("bos"), &v).is_some());
    assert!(warn_bos_hinted_segments(Some("minio"), &v).is_none());
    assert!(warn_bos_hinted_segments(Some("bos"), &[]).is_none());
    assert!(warn_bos_hinted_segments(None, &v).is_none());
}
