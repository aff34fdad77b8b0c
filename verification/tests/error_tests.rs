use s3_turbo_list::error::{
    errno_to_name, s3_error_code_to_errno, FlatRuntimeError, ERROR_ACCESS_DENIED,
    ERROR_INTERNAL_ERROR, ERROR_NO_BUCKET, ERROR_S3_NEXT_STREAM_TIMEOUT,
    ERROR_SERVICE_UNAVAILABLE, ERROR_SLOW_DOWN, ERROR_TOO_MANY_REQUESTS, ERROR_UNKNOWN,
};

#[test]
fn test_flat_error_retryable() {
    let err = FlatRuntimeError::new(ERROR_S3_NEXT_STREAM_TIMEOUT, "timeout".into(), "key-42".into());
    assert!(err.continue_on_error());
    assert!(err.is_retryable());
    assert!(!err.is_fatal());
}

#[test]
fn test_flat_error_fatal() {
    let err = FlatRuntimeError::new(ERROR_NO_BUCKET, "no bucket".into(), "".into());
    assert!(!err.continue_on_error());
    assert!(err.is_fatal());
}

#[test]
fn test_flat_error_with_s3_details() {
    let err = FlatRuntimeError::new(ERROR_ACCESS_DENIED, "access denied".into(), "/".into())
        .with_s3_error_details(
            403,
            Some("AccessDenied".into()),
            Some("req-abc-123".into()),
            Some("<Error><Code>AccessDenied</Code></Error>".into()),
        );

    assert_eq!(err.http_status_code(), 403);
    assert_eq!(err.s3_error_code.as_deref(), Some("AccessDenied"));
    assert_eq!(err.request_id.as_deref(), Some("req-abc-123"));
    assert!(err.raw_body_excerpt.is_some());
    assert!(err.is_fatal());
}

#[test]
fn test_errno_to_name() {
    assert_eq!(errno_to_name(ERROR_NO_BUCKET), "NoSuchBucket");
    assert_eq!(errno_to_name(ERROR_SLOW_DOWN), "SlowDown");
    assert_eq!(errno_to_name(ERROR_SERVICE_UNAVAILABLE), "ServiceUnavailable");
    assert_eq!(errno_to_name(0xfe), "Unknown");
}

#[test]
fn test_s3_error_code_to_errno() {
    assert_eq!(s3_error_code_to_errno(Some("NoSuchBucket")), ERROR_NO_BUCKET);
    assert_eq!(s3_error_code_to_errno(Some("AccessDenied")), ERROR_ACCESS_DENIED);
    assert_eq!(s3_error_code_to_errno(Some("SlowDown")), ERROR_SLOW_DOWN);
    assert_eq!(s3_error_code_to_errno(Some("ThrottlingException")), ERROR_TOO_MANY_REQUESTS);
    assert_eq!(s3_error_code_to_errno(Some("InternalError")), ERROR_INTERNAL_ERROR);
    assert_eq!(s3_error_code_to_errno(Some("ServiceUnavailable")), ERROR_SERVICE_UNAVAILABLE);
    assert_eq!(s3_error_code_to_errno(Some("WeirdError")), ERROR_UNKNOWN);
    assert_eq!(s3_error_code_to_errno(None), ERROR_UNKNOWN);
}

#[test]
fn test_flat_error_next_start_defaults_to_slash() {
    let err = FlatRuntimeError::new(ERROR_UNKNOWN, "msg".into(), "".into());
    assert_eq!(err.next_start(), "/");
}

#[test]
fn test_flat_error_next_start_preserved() {
    let err = FlatRuntimeError::new(ERROR_UNKNOWN, "msg".into(), "prefix/obj".into());
    assert_eq!(err.next_start(), "prefix/obj");
}

#[test]
fn test_flat_error_display() {
    let _err = FlatRuntimeError::new(ERROR_NO_BUCKET, "The bucket does not exist".into(), "/".into())
        .with_http_status_code(404);
    let err = FlatRuntimeError {
        errno: ERROR_NO_BUCKET,
        errmsg: "The bucket does not exist".into(),
        next_start: "/".into(),
        http_status_code: 404,
        s3_error_code: Some("NoSuchBucket".into()),
        request_id: Some("rid-1".into()),
        raw_body_excerpt: None,
    };
    let display = err.to_string();
    assert!(display.contains("404"));
    assert!(display.contains("NoSuchBucket"));
    assert!(display.contains("rid-1"));
}

#[test]
fn with_http_status_code_keeps_the_rest() {
    let err = FlatRuntimeError::new(ERROR_SLOW_DOWN, "slow".into(), "k".into()).with_http_status_code(503);
    assert_eq!(err.http_status_code(), 503);
    assert_eq!(err.errno(), ERROR_SLOW_DOWN);
    assert_eq!(err.next_start(), "k");
    assert!(err.is_fatal());
    assert!(!err.is_retryable());
}
