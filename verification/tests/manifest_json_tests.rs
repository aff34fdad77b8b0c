use s3_turbo_list::json::{get, JsonValue};
use s3_turbo_list::local_tools::ArtifactFileState;
use s3_turbo_list::manifest::{
    artifact_reads_parquet, manifest_artifacts, manifest_document, manifest_states_suit, manifest_summary_from,
};

const DOC: &str = r#"{
  "tool_version": "1.2.3",
  "status": "success",
  "exit_code": 0,
  "elapsed_secs": 1.5,
  "command": ["s3-turbo-list", 7, "--bucket"],
  "inputs": {"output_format": "parquet"},
  "metrics": {"streamed_rows": 10, "parquet_rows": 10, "received_objects": 12, "summary_only": false,
              "fatal_errors": 0, "output_errors": 0, "bytes_total": 99,
              "top_prefixes": [{"prefix": "a/", "objects": 3, "bytes": 30}, {"objects": 1}]},
  "outputs": {"parquet_file": "out.parquet"},
  "artifacts": [{"kind": "ks", "path": "", "exists": false}],
  "warnings": ["w1", null]
}"#;

#[test]
fn manifest_document_parses_numbers_by_kind() {
    let doc = manifest_document("m.json", r#"{"a": 5, "b": -3, "c": 2.5, "d": "x"}"#).unwrap();
    assert!(matches!(get(Some(&doc), "a"), Some(JsonValue::UInt(5))));
    assert!(matches!(get(Some(&doc), "b"), Some(JsonValue::NegInt(-3))));
    assert!(matches!(get(Some(&doc), "c"), Some(JsonValue::Float(_))));
    assert!(get(Some(&doc), "zz").is_none());
}

#[test]
fn manifest_document_reports_parse_errors_with_path() {
    let err = manifest_document("m.json", "{not json").unwrap_err();
    assert!(err.starts_with("failed to parse manifest 'm.json': "));
    assert!(err.len() > "failed to parse manifest 'm.json': ".len());
}

#[test]
fn manifest_summary_from_reads_fields_and_defaults() {
    let doc = manifest_document("run.json", DOC).unwrap();
    let arts = manifest_artifacts(&doc);
    assert_eq!(arts.len(), 1);
    assert_eq!(arts[0].kind, "ks");
    assert!(!artifact_reads_parquet(&arts[0], true));
    let states = vec![ArtifactFileState { exists: false, size_bytes: None, sha256: None, parquet: None }];
    assert!(manifest_states_suit(&doc, &states, false));
    let s = manifest_summary_from("run.json", &doc, &states, false).unwrap();
    assert_eq!(s.manifest_file, "run.json");
    assert_eq!(s.tool_version.as_deref(), Some("1.2.3"));
    assert_eq!(s.run_status, "success");
    assert_eq!(s.exit_code, Some(0));
    assert_eq!(s.command, vec!["s3-turbo-list".to_string(), "--bucket".to_string()]);
    assert_eq!(s.output_format.as_deref(), Some("parquet"));
    assert!(!s.summary_only);
    assert_eq!(s.received_objects, 12);
    assert_eq!(s.ks_entries, 0);
    assert_eq!(s.bytes_total, 99);
    assert_eq!(s.parquet_rows_match_streamed_rows, Some(true));
    assert_eq!(s.top_prefixes.len(), 2);
    assert_eq!((s.top_prefixes[0].prefix.as_str(), s.top_prefixes[0].objects, s.top_prefixes[0].bytes), ("a/", 3, 30));
    assert_eq!((s.top_prefixes[1].prefix.as_str(), s.top_prefixes[1].objects, s.top_prefixes[1].bytes), ("", 1, 0));
    assert_eq!(s.outputs.parquet_file.as_deref(), Some("out.parquet"));
    assert_eq!(s.outputs.ks_file, None);
    assert_eq!(s.warnings, vec!["w1".to_string()]);
    assert_eq!(s.check_passed, s.checks.iter().all(|c| c.status != "fail"));
    assert_eq!(s.check.ok, s.check_passed);
}

#[test]
fn manifest_summary_from_defaults_status_and_requires_metrics() {
    let doc = manifest_document("x.json", r#"{"metrics": {}}"#).unwrap();
    let s = manifest_summary_from("x.json", &doc, &vec![], false).unwrap();
    assert_eq!(s.run_status, "unknown");
    assert_eq!(s.exit_code, None);
    assert_eq!(s.streamed_rows, 0);
    assert_eq!(s.parquet_rows_match_streamed_rows, Some(true));
    assert!(s.artifacts.is_empty());
    let summary_only = manifest_document("y.json", r#"{"metrics": {"summary_only": true, "streamed_rows": 3}}"#).unwrap();
    let t = manifest_summary_from("y.json", &summary_only, &vec![], false).unwrap();
    assert_eq!(t.parquet_rows_match_streamed_rows, None);
    let missing = manifest_document("z.json", r#"{"status": "success"}"#).unwrap();
    let err = manifest_summary_from("z.json", &missing, &vec![], false).unwrap_err();
    assert_eq!(err, "manifest 'z.json' does not contain metrics");
}
