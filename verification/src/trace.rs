//! Structured trace events, one per S3 API call, and the writer interface
//! that receives them. The writers that serialise events to a file or to
//! stderr live with the application.
use crate::text::owned;
use vstd::prelude::*;

verus! {

/// The wall-clock time as RFC 3339 text (`chrono::Utc::now().to_rfc3339()`).
/// It depends on the clock, so nothing is stated of the result.
#[verifier::external_body]
fn now_rfc3339() -> (r: String) {
    chrono::Utc::now().to_rfc3339()
}

/// One trace event per S3 API call.
#[derive(Debug, Clone)]
pub struct S3CompatEvent {
    pub timestamp: String,
    pub operation: String,
    pub profile: Option<String>,
    pub endpoint_url: String,
    pub region: Option<String>,
    pub addressing_style: String,
    pub bucket: String,
    pub prefix: String,
    pub delimiter: Option<String>,
    pub start_after: Option<String>,
    pub max_keys: Option<i32>,
    pub continuation_token: Option<String>,
    pub http_status: u16,
    pub s3_error_code: Option<String>,
    pub s3_error_message: Option<String>,
    pub request_id: Option<String>,
    pub request_id_2: Option<String>,
    pub retry_attempt: u32,
    pub latency_ms: u64,
    pub retryable: bool,
    pub fatal: bool,
    pub is_truncated: bool,
    pub next_continuation_token: Option<String>,
    pub key_count: Option<i32>,
    pub contents_count: Option<i32>,
    pub common_prefixes_count: Option<i32>,
    pub next_continuation_token_present: Option<bool>,
    pub truncated_raw_body: Option<String>,
}

impl S3CompatEvent {
    /// A fresh event for `operation`, stamped with the current time:
    /// addressing style `auto`, status 0, every optional field absent and
    /// every flag false.
    pub fn new(operation: &str, endpoint_url: &str, bucket: &str, prefix: &str) -> (r: Self)
        ensures
            r.operation@ == operation@,
            r.endpoint_url@ == endpoint_url@,
            r.bucket@ == bucket@,
            r.prefix@ == prefix@,
            r.addressing_style@ == "auto"@,
            r.profile is None,
            r.region is None,
            r.delimiter is None,
            r.start_after is None,
            r.max_keys is None,
            r.continuation_token is None,
            r.http_status == 0,
            r.s3_error_code is None,
            r.s3_error_message is None,
            r.request_id is None,
            r.request_id_2 is None,
            r.retry_attempt == 0,
            r.latency_ms == 0,
            !r.retryable,
            !r.fatal,
            !r.is_truncated,
            r.next_continuation_token is None,
            r.key_count is None,
            r.contents_count is None,
            r.common_prefixes_count is None,
            r.next_continuation_token_present is None,
            r.truncated_raw_body is None,
    {
        S3CompatEvent {
            timestamp: now_rfc3339(),
            operation: owned(operation),
            profile: None,
            endpoint_url: owned(endpoint_url),
            region: None,
            addressing_style: owned("auto"),
            bucket: owned(bucket),
            prefix: owned(prefix),
            delimiter: None,
            start_after: None,
            max_keys: None,
            continuation_token: None,
            http_status: 0,
            s3_error_code: None,
            s3_error_message: None,
            request_id: None,
            request_id_2: None,
            retry_attempt: 0,
            latency_ms: 0,
            retryable: false,
            fatal: false,
            is_truncated: false,
            next_continuation_token: None,
            key_count: None,
            contents_count: None,
            common_prefixes_count: None,
            next_continuation_token_present: None,
            truncated_raw_body: None,
        }
    }
}

/// Receives trace events; implementations may be shared across concurrent
/// listing tasks.
pub trait S3TraceWriter: Send + Sync {
    fn write_event(&self, event: S3CompatEvent);
}

/// The writer used when tracing is disabled: it drops every event.
pub struct NoopTraceWriter;

impl S3TraceWriter for NoopTraceWriter {
    fn write_event(&self, event: S3CompatEvent) {
        let _ = event;
    }
}

} // verus!
