use s3_turbo_list::agent::redact_command_args;

#[test]
fn redacts_sensitive_command_values() {
    let args = redact_command_args(&[
        "s3-turbo-list",
        "--endpoint-url",
        "https://account.example.com",
        "--continuation-token=token-123",
        "list",
        "--bucket",
        "bucket",
    ]);

    assert_eq!(
        args,
        vec![
            "s3-turbo-list",
            "--endpoint-url",
            "<redacted>",
            "--continuation-token=<redacted>",
            "list",
            "--bucket",
            "bucket",
        ]
    );
}

#[test]
fn redacts_endpoint_alias_and_preserves_diagnostic_values() {
    let args = redact_command_args(&[
        "s3-turbo-list",
        "--endpoint=https://account.example.com",
        "--profile",
        "r2",
        "list",
        "--bucket",
        "public-diagnostic-bucket",
        "--region",
        "auto",
    ]);

    assert_eq!(
        args,
        vec![
            "s3-turbo-list",
            "--endpoint=<redacted>",
            "--profile",
            "r2",
            "list",
            "--bucket",
            "public-diagnostic-bucket",
            "--region",
            "auto",
        ]
    );
}

#[test]
fn redacts_compat_probe_endpoint_value() {
    let args = redact_command_args(&[
        "s3-turbo-list",
        "compat-probe",
        "--endpoint",
        "https://account.example.com",
        "--bucket",
        "diagnostic-bucket",
    ]);

    assert_eq!(
        args,
        vec![
            "s3-turbo-list",
            "compat-probe",
            "--endpoint",
            "<redacted>",
            "--bucket",
            "diagnostic-bucket",
        ]
    );
}

#[test]
fn redacts_value_after_sensitive_flag_at_end_safely() {
    let args = redact_command_args(&["s3-turbo-list", "list", "--continuation-token"]);

    assert_eq!(args, vec!["s3-turbo-list", "list", "--continuation-token"]);
}

#[test]
fn redaction_hides_only_values_of_kept_sensitive_flags() {
    let args = redact_command_args(&["tool", "--endpoint", "--endpoint", "x", "--endpoint-url=http://h", "--bucket", "b"]);
    assert_eq!(
        args,
        vec!["tool", "--endpoint", "<redacted>", "x", "--endpoint-url=<redacted>", "--bucket", "b"]
    );
}
