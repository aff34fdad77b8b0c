use s3_turbo_list::trace::{NoopTraceWriter, S3CompatEvent, S3TraceWriter};

#[test]
fn test_noop_trace_writer_is_silent() {
    let writer = NoopTraceWriter;
    let event = S3CompatEvent::new("HeadBucket", "http://x", "b", "/");
    writer.write_event(event);
}

#[test]
fn new_event_has_neutral_defaults() {
    let event = S3CompatEvent::new("HeadBucket", "http://x", "b", "/");
    assert_eq!(event.operation, "HeadBucket");
    assert_eq!(event.addressing_style, "auto");
    assert_eq!(event.http_status, 0);
    assert!(!event.fatal);
    assert!(!event.is_truncated);
    assert_eq!(event.request_id, None);
}
