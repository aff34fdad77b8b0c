use s3_turbo_list::config::config_search_paths;
use s3_turbo_list::config::install_filter;
use s3_turbo_list::config::{
    compile_filter, compile_filter_with_mode, AddressingStyle, S3TurboConfig, OBJECT_FILTER_MAX_LEN,
};
use s3_turbo_list::objects::{ObjectProps, RunMode};

#[test]
fn test_default_config() {
    let config = S3TurboConfig::default();
    assert_eq!(config.s3.max_attempts, 10);
    assert_eq!(config.s3.initial_backoff_secs, 30);
    assert_eq!(config.runtime.worker_threads, 10);
    assert_eq!(config.runtime.max_concurrency, 100);
    assert_eq!(config.output.row_group_size, 100000);
    assert_eq!(config.output.compression, "zstd");
    assert_eq!(config.output.compression_level, 1);
    assert_eq!(config.channel.capacity, 64);
    assert_eq!(config.s3.addressing_style, AddressingStyle::Auto);
    assert!(config.s3.profile.is_none());
    assert!(!config.s3.debug_s3);
    assert!(config.s3.trace_compat.is_none());
}

#[test]
fn test_addressing_style_from_str() {
    assert_eq!(
        "path".parse::<AddressingStyle>().unwrap(),
        AddressingStyle::Path
    );
    assert_eq!(
        "virtual".parse::<AddressingStyle>().unwrap(),
        AddressingStyle::Virtual
    );
    assert_eq!(
        "auto".parse::<AddressingStyle>().unwrap(),
        AddressingStyle::Auto
    );
    assert_eq!(
        "PATH".parse::<AddressingStyle>().unwrap(),
        AddressingStyle::Path
    );
    assert!("invalid".parse::<AddressingStyle>().is_err());
}

#[test]
fn test_addressing_style_display() {
    assert_eq!(AddressingStyle::Path.to_string(), "path");
    assert_eq!(AddressingStyle::Virtual.to_string(), "virtual");
    assert_eq!(AddressingStyle::Auto.to_string(), "auto");
}

#[test]
fn test_apply_cli_overrides() {
    let mut config = S3TurboConfig::default();
    config.apply_cli_overrides(
        Some(4),
        Some(200),
        Some("https://custom.example.com"),
        true,
        Some("path"),
        Some("test-profile"),
        true,
        Some("/tmp/trace.jsonl"),
        Some("after-key"),
        Some("log.txt"),
        Some("ks.csv"),
        Some("out.parquet"),
        Some("zstd"),
        Some(3),
    );
    assert_eq!(config.runtime.worker_threads, 4);
    assert_eq!(config.runtime.max_concurrency, 200);
    assert_eq!(
        config.s3.endpoint_url.as_deref(),
        Some("https://custom.example.com")
    );
    assert!(config.s3.force_path_style);
    assert_eq!(config.s3.addressing_style, AddressingStyle::Path);
    assert_eq!(config.s3.profile.as_deref(), Some("test-profile"));
    assert!(config.s3.debug_s3);
    assert_eq!(config.s3.trace_compat.as_deref(), Some("/tmp/trace.jsonl"));
    assert_eq!(config.s3.start_after.as_deref(), Some("after-key"));
    assert_eq!(config.output.log_file.as_deref(), Some("log.txt"));
    assert_eq!(config.output.ks_file.as_deref(), Some("ks.csv"));
    assert_eq!(config.output.parquet_file.as_deref(), Some("out.parquet"));
    assert_eq!(config.output.compression, "zstd");
    assert_eq!(config.output.compression_level, 3);
}

#[test]
fn test_apply_bos_profile_preset() {
    let mut config = S3TurboConfig::default();
    config.s3.profile = Some("bos".to_string());
    config.apply_profile_preset();
    assert_eq!(
        config.s3.endpoint_url.as_deref(),
        Some("https://s3.bj.bcebos.com")
    );
    assert_eq!(config.s3.addressing_style, AddressingStyle::Virtual);
    assert!(!config.s3.force_path_style);
}

#[test]
fn test_apply_bos_profile_preserves_explicit_path_style() {
    let mut config = S3TurboConfig::default();
    config.s3.profile = Some("bos".to_string());
    config.s3.addressing_style = AddressingStyle::Path;
    config.apply_profile_preset();
    config.normalize_addressing_style();
    assert_eq!(config.s3.addressing_style, AddressingStyle::Path);
    assert!(config.s3.force_path_style);
}

#[test]
fn test_normalize_addressing_style_path_forces_path_style() {
    let mut config = S3TurboConfig::default();
    config.s3.addressing_style = AddressingStyle::Path;
    config.normalize_addressing_style();
    assert!(config.s3.force_path_style);
}

#[test]
fn test_normalize_addressing_style_force_path_style_wins() {
    let mut config = S3TurboConfig::default();
    config.s3.addressing_style = AddressingStyle::Virtual;
    config.s3.force_path_style = true;
    config.normalize_addressing_style();
    assert_eq!(config.s3.addressing_style, AddressingStyle::Path);
    assert!(config.s3.force_path_style);
}

#[test]
fn test_endpoint_url_does_not_force_path_style() {
    let mut config = S3TurboConfig::default();
    config.apply_cli_overrides(
        None,
        None,
        Some("https://s3.bj.bcebos.com"),
        false,
        None,
        None,
        false,
        None,
        None,
        None,
        None,
        None,
        None,
        None,
    );
    config.normalize_addressing_style();
    assert_eq!(config.s3.addressing_style, AddressingStyle::Auto);
    assert!(!config.s3.force_path_style);
}

#[test]
fn test_cli_virtual_addressing_overrides_config_force_path_style() {
    let mut config = S3TurboConfig::default();
    config.s3.force_path_style = true;
    config.s3.addressing_style = AddressingStyle::Path;
    config.apply_cli_overrides(
        None,
        None,
        None,
        false,
        Some("virtual"),
        None,
        false,
        None,
        None,
        None,
        None,
        None,
        None,
        None,
    );
    config.normalize_addressing_style();
    assert_eq!(config.s3.addressing_style, AddressingStyle::Virtual);
    assert!(!config.s3.force_path_style);
}

#[test]
fn test_basic_filter_compile() {
    let filter = compile_filter("SOURCE.size > 1000").unwrap();
    let mut props = ObjectProps::default();
    props.size = 2000;
    assert_eq!(filter.evaluate(&props, None), Some(true));
}

#[test]
fn test_filter_compile_rejects_disallowed_property() {
    assert!(compile_filter("SOURCE.etag == \"abc\"").is_err());
}

#[test]
fn test_filter_compile_rejects_disallowed_variable() {
    assert!(compile_filter("OTHER > 5").is_err());
}

#[test]
fn test_filter_compile_accepts_boolean_comparison_chain() {
    let filter =
        compile_filter("SOURCE.size > 1000 && SOURCE.last_modified >= 1715700000").unwrap();
    let mut props = ObjectProps::default();
    props.size = 2048;
    props.last_modified = 1715700001;
    assert_eq!(filter.evaluate(&props, None), Some(true));
}

#[test]
fn test_filter_compile_rejects_long_expression() {
    let expr = format!("SOURCE.size > {}", "1".repeat(OBJECT_FILTER_MAX_LEN));
    let err = compile_filter(&expr).unwrap_err();
    assert!(err.contains("too long"), "{}", err);
}

#[test]
fn test_filter_compile_rejects_function_call() {
    let err = compile_filter("max(SOURCE.size, 1) > 0").unwrap_err();
    assert!(
        err.contains("unsupported syntax") || err.contains("not allowed"),
        "{}",
        err
    );
}

#[test]
fn test_filter_compile_rejects_string_literals() {
    let err = compile_filter("SOURCE.size > 0 && \"x\" == \"x\"").unwrap_err();
    assert!(
        err.contains("unsupported syntax")
            || err.contains("not supported")
            || err.contains("cannot contain"),
        "{}",
        err
    );
}

#[test]
fn test_filter_compile_with_mode_bidir() {
    let filter =
        compile_filter_with_mode("SOURCE.size > TARGET.size", &RunMode::BiDir).unwrap();
    let mut left = ObjectProps::default();
    left.size = 2000;
    let mut right = ObjectProps::default();
    right.size = 1000;
    assert_eq!(filter.evaluate(&left, Some(&right)), Some(true));
}

#[test]
fn install_filter_once_per_run() {
    let mut slot = None;
    assert!(install_filter(&mut slot, "SOURCE.size > 1", &RunMode::List).is_ok());
    assert!(slot.is_some());
    assert_eq!(
        install_filter(&mut slot, "SOURCE.size > 2", &RunMode::List).unwrap_err(),
        "Object filter already installed"
    );
    let mut empty = None;
    assert!(install_filter(&mut empty, "SOURCE.size > TARGET.size", &RunMode::List).is_err());
    assert!(empty.is_none());
}

#[test]
fn merge_and_overrides_keep_file_values() {
    let mut base = S3TurboConfig::default();
    let mut file = S3TurboConfig::default();
    file.s3.max_attempts = 5;
    file.runtime.max_concurrency = 50;
    base.merge(file);
    assert_eq!(base.s3.max_attempts, 5);
    assert_eq!(base.runtime.max_concurrency, 50);
    assert_eq!(base.s3.initial_backoff_secs, 30);
}

#[test]
fn config_load_merges_first_found_file() {
    let searched = config_search_paths(None, "/home/u/.s3-turbo-list.toml");
    assert_eq!(searched, vec!["./s3-turbo-list.toml", "/home/u/.s3-turbo-list.toml"]);
    let mut file = S3TurboConfig::default();
    file.s3.max_attempts = 5;
    let (cfg, summary) = S3TurboConfig::load(None, searched, Some((1, file)));
    assert_eq!(cfg.s3.max_attempts, 5);
    assert_eq!(summary.loaded_config.as_deref(), Some("/home/u/.s3-turbo-list.toml"));
    assert_eq!(summary.loaded_config_kind, "home");
    assert!(summary.warnings.is_empty());

    let explicit = config_search_paths(Some("my.toml"), "/home/u/.s3-turbo-list.toml");
    let (cfg, summary) = S3TurboConfig::load(Some("my.toml"), explicit, None);
    assert_eq!(cfg.s3.max_attempts, 10);
    assert_eq!(summary.loaded_config_kind, "none");
    assert_eq!(
        summary.warnings,
        vec!["explicit config file 'my.toml' was not found; using built-in defaults"]
    );
}
