use s3_turbo_list::agent::{
    conventional_hints_path, doctor_report, list_writes_artifacts, output_stem_with_timestamp,
    parent_dir_check, plan_warnings, redact_command_args, runtime_guardrail_warnings,
    sanitize_path_component, DoctorFacts, ListOutputFormat, PlanCommand,
};
use s3_turbo_list::config::S3TurboConfig;
use s3_turbo_list::diff::{diff_complete_notice, init_diff_state};

fn facts() -> DoctorFacts {
    DoctorFacts {
        cwd: "/work".to_string(),
        local_config_exists: false,
        aws_profile: None,
        output_parquet_parent_exists: true,
        output_ks_parent_exists: true,
        log_parent_exists: true,
        trace_parent_exists: true,
    }
}

#[test]
fn doctor_report_default_config_is_ok() {
    let cfg = S3TurboConfig::default();
    let report = doctor_report(true, &cfg, facts(), "1.2.3");
    assert_eq!(report.status, "ok");
    let names: Vec<&str> = report.checks.iter().map(|c| c.name.as_str()).collect();
    assert_eq!(
        names,
        vec![
            "binary_version",
            "working_directory",
            "config_parse",
            "config_file",
            "aws_profile",
            "endpoint_profile",
            "endpoint_url",
            "network",
        ]
    );
    assert_eq!(report.checks[0].message, "1.2.3");
    assert_eq!(report.checks[3].status, "warn");
    assert_eq!(report.checks[7].status, "skipped");
    assert_eq!(report.cwd, "/work");
}

#[test]
fn doctor_report_missing_parent_is_an_error() {
    let mut cfg = S3TurboConfig::default();
    cfg.output.parquet_file = Some("missing/out.parquet".to_string());
    cfg.output.ks_file = Some("out.ks".to_string());
    cfg.s3.profile = Some("minio".to_string());
    let mut f = facts();
    f.output_parquet_parent_exists = false;
    f.aws_profile = Some("minio".to_string());
    let report = doctor_report(false, &cfg, f, "1.2.3");
    assert_eq!(report.status, "error");
    let parquet = report.checks.iter().find(|c| c.name == "output_parquet_parent").unwrap();
    assert_eq!(parquet.status, "error");
    assert_eq!(parquet.message, "parent directory does not exist: missing");
    let ks = report.checks.iter().find(|c| c.name == "output_ks_parent").unwrap();
    assert_eq!(ks.message, "path is relative to current directory");
    assert!(report.checks.iter().any(|c| c.name == "aws_profile_endpoint_preset_name"));
    let endpoint = report.checks.iter().find(|c| c.name == "endpoint_url").unwrap();
    assert_eq!(endpoint.status, "warn");
    assert_eq!(endpoint.message, "profile 'minio' requires --endpoint-url or s3.endpoint_url in config");
    let network = report.checks.iter().find(|c| c.name == "network").unwrap();
    assert_eq!(network.status, "warn");
}

#[test]
fn parent_dir_check_messages() {
    let ok = parent_dir_check("log_parent", "logs/run.log", true);
    assert_eq!(ok.status, "ok");
    assert_eq!(ok.message, "parent directory exists: logs");
}

#[test]
fn plan_warnings_in_order() {
    let cfg_warnings = vec!["from config".to_string()];
    let guard = vec!["guardrail".to_string()];
    let w = plan_warnings(&cfg_warnings, &guard, PlanCommand::List, "list", "single_segment_fallback", true, true, true);
    assert_eq!(w.len(), 6);
    assert_eq!(w[0], "from config");
    assert_eq!(w[1], "guardrail");
    assert!(w[2].starts_with("list is planned as a single ListObjectsV2 chain"));
    assert!(w[3].starts_with("--delimiter '' means recursive listing"));
    assert!(w[4].starts_with("summary-only will scan"));
    assert!(w[5].starts_with("continuation-token resumes"));
    let probe = plan_warnings(&vec![], &vec![], PlanCommand::CompatProbe, "probe", "hints_file", false, false, false);
    assert_eq!(probe, vec!["compat-probe will contact the configured endpoint when not run with --dry-run"]);
}

#[test]
fn runtime_guardrails_for_preset_profile() {
    let mut cfg = S3TurboConfig::default();
    cfg.s3.profile = Some("r2".to_string());
    let w = runtime_guardrail_warnings(PlanCommand::Diff, &cfg, false, None, false, false, false);
    assert!(w[0].starts_with("--profile 'r2' is an endpoint compatibility preset only"));
    assert!(w[0].ends_with("set AWS_PROFILE=r2."));
    assert_eq!(
        w.last().unwrap(),
        "diff partitions each side automatically; explicit --hints-file and --resume are intentionally unsupported for diff"
    );
    let quiet = runtime_guardrail_warnings(PlanCommand::Other, &cfg, false, None, false, false, false);
    assert!(quiet.is_empty());
    let probe = runtime_guardrail_warnings(
        PlanCommand::CompatProbe,
        &S3TurboConfig::default(),
        true,
        Some("https://<account-id>.example"),
        true,
        true,
        true,
    );
    assert_eq!(probe.len(), 4);
    assert!(probe[0].starts_with("endpoint URL 'https://<account-id>.example' still contains template placeholders"));
    assert!(probe[1].starts_with("--summary-only does not write"));
    assert!(probe[2].starts_with("--output-format tsv/ndjson streams"));
    assert_eq!(probe[3], "output path flags are ignored when --output-format is tsv or ndjson");
}

#[test]
fn output_stems() {
    assert_eq!(
        output_stem_with_timestamp(Some("us-east-1"), "my bucket", None, None, "20260101000000"),
        "us-east-1_my_bucket_20260101000000"
    );
    assert_eq!(
        output_stem_with_timestamp(Some(""), "a", Some("eu"), Some("b/c"), "ts"),
        "a_eu_b_c_ts"
    );
}

#[test]
fn artifacts_written_by_format() {
    assert!(list_writes_artifacts(false, None));
    assert!(list_writes_artifacts(false, Some(ListOutputFormat::Parquet)));
    assert!(!list_writes_artifacts(false, Some(ListOutputFormat::Tsv)));
    assert!(!list_writes_artifacts(true, Some(ListOutputFormat::Parquet)));
    assert!(ListOutputFormat::Ndjson.writes_stdout_rows());
    assert_eq!(ListOutputFormat::Ndjson.as_str(), "ndjson");
}

#[test]
fn redaction_twice_is_redaction_once() {
    let args = ["s3-turbo-list", "--endpoint", "https://x", "--continuation-token=abc", "list"];
    let once = redact_command_args(&args);
    let once_refs: Vec<&str> = once.iter().map(|s| s.as_str()).collect();
    let twice = redact_command_args(&once_refs);
    assert_eq!(once, twice);
}

#[test]
fn sanitize_and_hints_path() {
    assert_eq!(sanitize_path_component(""), "_");
    assert_eq!(sanitize_path_component("a b/c"), "a_b_c");
    assert_eq!(sanitize_path_component(&sanitize_path_component("a b/c")), "a_b_c");
    assert_eq!(conventional_hints_path("bkt", Some("us-east-1")), "us-east-1_bkt_hints.toml");
    assert_eq!(conventional_hints_path("bkt", None), "bkt_hints.toml");
}

#[test]
fn diff_notice() {
    init_diff_state();
    assert_eq!(diff_complete_notice(), "diff mode comparison complete — data_map will finalize output");
}
