use s3_turbo_list::local_tools::{
    checks_passed, ensure_can_write, init_config_report, init_config_template,
    init_config_warnings, manifest_check_status, manifest_check_summary, manifest_checks,
    manifest_row_check_applies, normalize_check_status, render_guide, render_init_config_text,
    render_quickstart, render_recipe, ArtifactFileState, CurrentParquetSummary,
    ManifestArtifactSummary, GUIDE_OVERVIEW,
};

fn artifact(kind: &str, path: &str) -> ManifestArtifactSummary {
    ManifestArtifactSummary {
        kind: kind.to_string(),
        path: path.to_string(),
        exists: true,
        size_bytes: Some(10),
        sha256: Some("abc".to_string()),
        parquet_row_count: None,
        parquet_schema_fields: vec![],
    }
}

fn state(exists: bool, size: Option<u64>, sha: Option<&str>) -> ArtifactFileState {
    ArtifactFileState {
        exists,
        size_bytes: size,
        sha256: sha.map(|s| s.to_string()),
        parquet: None,
    }
}

#[test]
fn manifest_checks_of_a_clean_run_pass() {
    let arts = vec![artifact("ks", "out/a.ks")];
    let states = vec![state(true, Some(10), Some("abc"))];
    let checks = manifest_checks("success", Some(0), 0, 0, None, false, 5, 5, &arts, &states, true);
    let names: Vec<&str> = checks.iter().map(|c| c.name.as_str()).collect();
    assert_eq!(
        names,
        vec![
            "run_status",
            "exit_code",
            "fatal_errors",
            "output_errors",
            "parquet_rows_match_streamed_rows",
            "artifact_exists:ks",
            "artifact_size:ks",
            "artifact_sha256:ks",
        ]
    );
    assert!(checks.iter().all(|c| c.status == "ok"));
    assert!(checks_passed(&checks));
    assert_eq!(checks[1].message, "manifest exit_code is 0");
    assert_eq!(checks[4].message, "parquet_rows=5 streamed_rows=5");
    assert_eq!(checks[5].message, "out/a.ks recorded_exists=true current_exists=true");
}

#[test]
fn manifest_checks_report_failures() {
    let arts = vec![artifact("ks", "out/a.ks"), artifact("log", "")];
    let states = vec![state(true, Some(11), None), state(true, None, None)];
    let checks =
        manifest_checks("failed", Some(-3), 2, 0, Some("parquet"), false, 5, 4, &arts, &states, true);
    let failed: Vec<&str> =
        checks.iter().filter(|c| c.status == "fail").map(|c| c.name.as_str()).collect();
    assert_eq!(
        failed,
        vec![
            "run_status",
            "exit_code",
            "fatal_errors",
            "parquet_rows_match_streamed_rows",
            "artifact_size:ks",
            "artifact_sha256:ks",
            "artifact_exists:log",
        ]
    );
    assert_eq!(checks[1].message, "manifest exit_code is -3");
    let size = checks.iter().find(|c| c.name == "artifact_size:ks").unwrap();
    assert_eq!(size.message, "out/a.ks recorded_size=10 current_size=11");
    let sha = checks.iter().find(|c| c.name == "artifact_sha256:ks").unwrap();
    assert_eq!(sha.message, "out/a.ks recorded_sha256=abc current_sha256=unavailable");
    let summary = manifest_check_summary(checks_passed(&checks), &checks, &arts);
    assert!(!summary.ok);
    assert_eq!(summary.errors, 7);
    assert_eq!(summary.artifacts_checked, 2);
    assert_eq!(summary.artifacts_missing, 1);
    assert_eq!(summary.row_check, "fail");
    assert_eq!(summary.exit_code_check, "fail");
    assert_eq!(summary.parquet_schema_check, "not_applicable");
}

#[test]
fn manifest_checks_skip_rows_for_streamed_output() {
    let checks = manifest_checks("success", None, 0, 0, Some("tsv"), false, 5, 0, &vec![], &vec![], false);
    assert_eq!(checks[1].message, "manifest exit_code is missing");
    assert_eq!(checks[4].status, "skip");
    assert_eq!(checks[4].message, "row check is not applicable for tsv output");
    assert_eq!(checks[5].name, "artifact_parquet_metadata:parquet");
    let summary = manifest_check_summary(checks_passed(&checks), &checks, &[]);
    assert_eq!(summary.skipped, 2);
    assert_eq!(summary.row_check, "not_applicable");
}

#[test]
fn manifest_checks_compare_parquet_metadata() {
    let mut a = artifact("parquet", "out/a.parquet");
    a.parquet_row_count = Some(3);
    a.parquet_schema_fields = vec!["Key".to_string(), "Size".to_string()];
    let mut s = state(true, Some(10), Some("abc"));
    s.parquet = Some(Ok(CurrentParquetSummary {
        row_count: 3,
        schema_fields: vec!["Key".to_string(), "Size".to_string()],
    }));
    let checks = manifest_checks("success", Some(0), 0, 0, None, false, 3, 3, &vec![a.clone()], &vec![s], true);
    let schema = checks.iter().find(|c| c.name == "artifact_parquet_schema:parquet").unwrap();
    assert_eq!(schema.status, "ok");
    assert_eq!(
        schema.message,
        "out/a.parquet recorded_schema=[\"Key\", \"Size\"] current_schema=[\"Key\", \"Size\"]"
    );
    let rows = checks.iter().find(|c| c.name == "artifact_parquet_rows:parquet").unwrap();
    assert_eq!(rows.message, "out/a.parquet recorded_rows=3 current_rows=3");

    let mut bad = state(true, Some(10), Some("abc"));
    bad.parquet = Some(Err("not a parquet file".to_string()));
    let checks = manifest_checks("success", Some(0), 0, 0, None, false, 3, 3, &vec![a], &vec![bad], true);
    let meta = checks.iter().find(|c| c.status == "fail").unwrap();
    assert_eq!(meta.name, "artifact_parquet_metadata:parquet");
    assert_eq!(meta.message, "out/a.parquet metadata read failed: not a parquet file");
}

#[test]
fn row_check_applies_only_to_parquet_runs() {
    assert!(manifest_row_check_applies(None, false));
    assert!(manifest_row_check_applies(Some("parquet"), false));
    assert!(!manifest_row_check_applies(Some("ndjson"), false));
    assert!(!manifest_row_check_applies(None, true));
}

#[test]
fn check_status_is_normalized() {
    assert_eq!(normalize_check_status("skip"), "not_applicable");
    assert_eq!(normalize_check_status("warn"), "warn");
    assert_eq!(manifest_check_status(&[], "exit_code"), "not_applicable");
}

#[test]
fn init_config_warnings_by_profile() {
    assert_eq!(init_config_warnings("aws"), Vec::<String>::new());
    assert_eq!(
        init_config_warnings("r2"),
        vec!["r2 profile is documented but should be validated with compat-probe before production use"]
    );
    assert_eq!(init_config_warnings("bos").len(), 1);
}

#[test]
fn init_config_template_for_minio_and_unknown() {
    let minio = init_config_template("minio");
    assert!(minio.contains("endpoint_url = \"http://127.0.0.1:9000\"\nprofile = \"minio\"\naddressing_style = \"path\"\nforce_path_style = true\n"));
    assert!(minio.starts_with("# s3-turbo-list local config\n"));
    assert!(minio.ends_with("[channel]\ncapacity = 64\n"));
    let aws = init_config_template("aws");
    assert!(aws.contains("# endpoint_url = \"https://s3.amazonaws.com\"\n# profile = \"aws\"\naddressing_style = \"virtual\"\nforce_path_style = false\n"));
    let other = init_config_template("custom");
    assert!(other.contains("profile = \"custom\"\naddressing_style = \"auto\"\nforce_path_style = false"));
}

#[test]
fn init_config_report_and_text() {
    let report = init_config_report("cfg/s3.toml", Some("R2"), false);
    assert_eq!(report.profile, "r2");
    assert_eq!(report.status, "success");
    assert_eq!(report.warnings.len(), 1);
    let text = render_init_config_text(&report);
    assert!(text.starts_with("Config initialized:\n  Profile:         r2\n  Output:          cfg/s3.toml\n"));
    assert!(text.contains("  Warnings:\n    - r2 profile is documented"));
    assert_eq!(init_config_report("x", None, true).profile, "aws");
}

#[test]
fn ensure_can_write_refuses_existing_without_overwrite() {
    assert!(ensure_can_write("a.toml", false, false).is_ok());
    assert!(ensure_can_write("a.toml", true, true).is_ok());
    assert_eq!(
        ensure_can_write("a.toml", false, true).unwrap_err(),
        "Output file exists: a.toml\nNext step:\n  choose a different --output\n  or pass --overwrite"
    );
}

#[test]
fn guide_topics() {
    assert_eq!(render_guide(None).unwrap(), GUIDE_OVERVIEW);
    let aws = render_guide(Some("aws")).unwrap();
    assert!(aws.starts_with("AWS quickstart:\n"));
    assert!(aws.contains("\nEndpoint compatibility profile:\n  provider: AWS S3\n"));
    let b2 = render_guide(Some("b2")).unwrap();
    assert!(b2.starts_with("Endpoint compatibility profile:\n"));
    assert!(render_guide(Some("filter")).unwrap().starts_with("Object filters:\n"));
    assert_eq!(
        render_guide(Some("nope")).unwrap_err(),
        "unknown recipe 'nope'. Run 's3-turbo-list recipes' to list recipes."
    );
    assert_eq!(render_recipe(None).unwrap(), render_recipe(Some("list")).unwrap());
    assert_eq!(render_recipe(Some("ci")).unwrap(), render_recipe(Some("release-check")).unwrap());
    assert!(render_quickstart("b2").is_err());
}
