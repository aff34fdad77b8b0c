use s3_turbo_list::agent::{
    cli_config_overrides, command_flag_error, resolve_output_path, ConfigOverrideFlags,
    ListOutputFormat, PlanCommand, RunFlags,
};
use s3_turbo_list::auto_hints::{
    diff_side_discovery_applies, flat_discovery_target, list_discovery_applies,
    startup_discovery_target,
};

fn flags() -> RunFlags {
    RunFlags {
        summary_only: false,
        agent: false,
        dry_run: false,
        resume: false,
        start_after: false,
        hints_file: false,
        no_auto_hints: false,
    }
}

#[test]
fn plain_list_command_is_accepted() {
    let e = command_flag_error(
        PlanCommand::List,
        Some(ListOutputFormat::Parquet),
        flags(),
        None,
        "bucket",
        Some("us-east-1"),
        false,
    );
    assert_eq!(e, None);
}

#[test]
fn summary_only_is_list_only() {
    let f = RunFlags { summary_only: true, ..flags() };
    let e = command_flag_error(PlanCommand::Diff, None, f, None, "b", None, false);
    assert_eq!(e.unwrap(), "--summary-only is only supported with the list command");
    let e = command_flag_error(PlanCommand::List, Some(ListOutputFormat::Tsv), f, None, "b", None, false);
    assert_eq!(
        e.unwrap(),
        "--summary-only cannot be combined with --output-format tsv or ndjson"
    );
}

#[test]
fn agent_output_conflicts_with_streamed_rows_unless_dry_run() {
    let f = RunFlags { agent: true, ..flags() };
    let e = command_flag_error(PlanCommand::List, Some(ListOutputFormat::Ndjson), f, None, "b", None, false);
    assert!(e.unwrap().starts_with("--agent writes the run manifest to stdout"));
    let f = RunFlags { agent: true, dry_run: true, ..flags() };
    assert_eq!(
        command_flag_error(PlanCommand::List, Some(ListOutputFormat::Ndjson), f, None, "b", None, false),
        None
    );
}

#[test]
fn continuation_token_rules() {
    let e = command_flag_error(PlanCommand::List, None, flags(), Some("  "), "b", None, false);
    assert_eq!(e.unwrap(), "--continuation-token cannot be empty");
    let e = command_flag_error(PlanCommand::Diff, None, flags(), Some("t"), "b", None, false);
    assert_eq!(e.unwrap(), "--continuation-token is only supported with the list command");
    let f = RunFlags { resume: true, ..flags() };
    let e = command_flag_error(PlanCommand::List, None, f, Some("t"), "b", None, false);
    assert!(e.unwrap().starts_with("--continuation-token cannot be combined with --resume"));
    let f = RunFlags { start_after: true, ..flags() };
    let e = command_flag_error(PlanCommand::List, None, f, Some("t"), "b", None, false);
    assert_eq!(e.unwrap(), "--continuation-token cannot be combined with --start-after");
    let f = RunFlags { hints_file: true, ..flags() };
    let e = command_flag_error(PlanCommand::List, None, f, Some("t"), "b", None, false);
    assert_eq!(
        e.unwrap(),
        "--continuation-token is single-chain only and cannot be combined with --hints-file"
    );
    let e = command_flag_error(PlanCommand::List, None, flags(), Some("t"), "my-bucket", Some("eu-west-1"), true);
    assert_eq!(
        e.unwrap(),
        "--continuation-token is single-chain only, but conventional hints file 'eu-west-1_my-bucket_hints.toml' exists; pass --no-auto-hints to ignore it"
    );
    let f = RunFlags { no_auto_hints: true, ..flags() };
    assert_eq!(
        command_flag_error(PlanCommand::List, None, f, Some("t"), "my-bucket", None, true),
        None
    );
}

#[test]
fn diff_rejects_hints_file_and_resume() {
    let f = RunFlags { hints_file: true, ..flags() };
    let e = command_flag_error(PlanCommand::Diff, None, f, None, "b", None, false);
    assert!(e.unwrap().starts_with("diff with --hints-file is unsupported by design"));
    let f = RunFlags { resume: true, ..flags() };
    let e = command_flag_error(PlanCommand::Diff, None, f, None, "b", None, false);
    assert!(e.unwrap().starts_with("diff --resume is unsupported by design"));
}

#[test]
fn overrides_are_named_in_fixed_order() {
    let none = ConfigOverrideFlags {
        threads: false,
        concurrency: false,
        endpoint_url: false,
        addressing_style: false,
        profile: false,
        debug_s3: false,
        trace_compat: false,
        start_after: false,
        output_log_file: false,
        output_ks_file: false,
        output_parquet_file: false,
        compression: false,
        compression_level: false,
    };
    assert!(cli_config_overrides(none).is_empty());
    let some = ConfigOverrideFlags { compression_level: true, threads: true, profile: true, ..none };
    assert_eq!(cli_config_overrides(some), vec!["threads", "profile", "compression_level"]);
}

#[test]
fn output_paths_prefer_config_then_directory() {
    assert_eq!(resolve_output_path(Some("x.parquet"), Some("out"), "stem", ".parquet"), "x.parquet");
    assert_eq!(resolve_output_path(None, Some("out"), "stem", ".ks"), "out/stem.ks");
    assert_eq!(resolve_output_path(None, None, "stem", ".ks"), "stem.ks");
}

#[test]
fn discovery_targets_are_clamped() {
    assert_eq!(startup_discovery_target(1), 16);
    assert_eq!(startup_discovery_target(100), 200);
    assert_eq!(startup_discovery_target(1000), 512);
    assert_eq!(startup_discovery_target(usize::MAX), 512);
    assert_eq!(flat_discovery_target(2), 8);
    assert_eq!(flat_discovery_target(32), 32);
    assert_eq!(flat_discovery_target(500), 64);
}

#[test]
fn discovery_applies_only_to_unpinned_recursive_listings() {
    assert!(list_discovery_applies(false, false, None, false, "", false, false));
    assert!(!list_discovery_applies(true, false, None, false, "", false, false));
    assert!(!list_discovery_applies(false, false, Some("bos"), false, "", false, false));
    assert!(list_discovery_applies(false, false, Some("minio"), false, "", false, false));
    assert!(!list_discovery_applies(false, false, None, false, "/", false, false));
    assert!(!list_discovery_applies(false, false, None, false, "", true, false));
    assert!(diff_side_discovery_applies(false, "", None, false));
    assert!(!diff_side_discovery_applies(true, "", None, false));
    assert!(!diff_side_discovery_applies(false, "", Some("bos"), false));
    assert!(!diff_side_discovery_applies(false, "", None, true));
}
