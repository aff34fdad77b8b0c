//! The S3-compatibility probe's verdicts: the result of each probe call,
//! the diagnostic for a failure, the pagination check and the overall
//! status. The calls themselves are made by the application, which hands
//! their outcomes here as plain values.
use crate::config::opt_string_v;
use crate::text::{append_str, dec, owned, push_dec, str_eq, string_from_chars};
use crate::trace::S3CompatEvent;
use vstd::prelude::*;

verus! {

/// The result of one probe test.
#[derive(Debug, Clone)]
pub struct ProbeTestResult {
    pub test: String,
    pub status: String,
    pub latency_ms: u64,
    pub http_status: Option<u16>,
    pub s3_error_code: Option<String>,
    pub error_message: Option<String>,
    pub error_kind: Option<String>,
    pub diagnostic_code: Option<String>,
    pub recommendation: Option<String>,
    pub request_id: Option<String>,
    pub request_id_2: Option<String>,
    pub is_truncated: Option<bool>,
    pub key_count: Option<i32>,
    pub contents_count: Option<i32>,
    pub next_continuation_token_present: Option<bool>,
}

/// The report of a probe run.
#[derive(Debug, Clone)]
pub struct CompatProbeReport {
    pub endpoint_url: String,
    pub region: String,
    pub bucket: String,
    pub addressing_style: String,
    pub tests: Vec<ProbeTestResult>,
    pub overall_status: String,
}

/// How many results have status `error`.
pub open spec fn error_count(rs: Seq<ProbeTestResult>) -> nat
    decreases rs.len(),
{
    if rs.len() == 0 {
        0
    } else {
        error_count(rs.drop_last()) + if rs.last().status@ == "error"@ {
            1nat
        } else {
            0nat
        }
    }
}

/// `compatible` without errors (skipped tests do not degrade it),
/// `incompatible` when every test failed, `partial` otherwise.
pub open spec fn overall_status(rs: Seq<ProbeTestResult>) -> Seq<char> {
    if error_count(rs) == 0 {
        "compatible"@
    } else if error_count(rs) < rs.len() {
        "partial"@
    } else {
        "incompatible"@
    }
}

proof fn lemma_error_count_le(rs: Seq<ProbeTestResult>)
    ensures
        error_count(rs) <= rs.len(),
    decreases rs.len(),
{
    if rs.len() > 0 {
        lemma_error_count_le(rs.drop_last());
    }
}

impl CompatProbeReport {
    pub fn overall_status_for(results: &[ProbeTestResult]) -> (r: &'static str)
        ensures
            r@ == overall_status(results@),
    {
        let mut errors: usize = 0;
        let mut i: usize = 0;
        while i < results.len()
            invariant
                i <= results.len(),
                errors == error_count(results@.take(i as int)),
                errors <= i,
            decreases results.len() - i,
        {
            assert(results@.take(i + 1).drop_last() =~= results@.take(i as int));
            if str_eq(results[i].status.as_str(), "error") {
                errors += 1;
            }
            i += 1;
        }
        assert(results@.take(results.len() as int) =~= results@);
        if errors == 0 {
            "compatible"
        } else if errors < results.len() {
            "partial"
        } else {
            "incompatible"
        }
    }
}

/// A status of 0 means no HTTP response.
pub fn http_status_option(status: u16) -> (r: Option<u16>)
    ensures
        r == if status != 0 {
            Some(status)
        } else {
            None
        },
{
    if status != 0 {
        Some(status)
    } else {
        None
    }
}

// ── Diagnostics ────────────────────────────────────────────

/// The diagnostic code and recommendation for a failed probe: the S3 error
/// code decides first, then the HTTP status, then the kind of SDK error.
pub open spec fn diagnostic(
    error_kind: Option<Seq<char>>,
    http_status: Option<u16>,
    code: Option<Seq<char>>,
) -> (Seq<char>, Seq<char>) {
    let c = match code {
        Some(c) => c,
        None => Seq::empty(),
    };
    if code is Some && c == "SignatureDoesNotMatch"@ {
        (
            "signature_mismatch"@,
            "Check credentials, region, endpoint URL, clock skew, and addressing style"@,
        )
    } else if code is Some && (c == "InvalidAccessKeyId"@ || c == "AccessDenied"@) {
        (
            "access_denied"@,
            "Check credentials, bucket permissions, and whether the selected profile is valid for this endpoint"@,
        )
    } else if code is Some && c == "NoSuchBucket"@ {
        (
            "bucket_not_found"@,
            "Check bucket name, account/project scope, region, and addressing style"@,
        )
    } else if code is Some && (c == "NotImplemented"@ || c == "NotSupported"@) {
        (
            "operation_not_supported"@,
            "Endpoint does not implement this S3 operation or option; inspect which probe test failed before full listing"@,
        )
    } else if code is Some && (c == "PermanentRedirect"@ || c == "AuthorizationHeaderMalformed"@) {
        (
            "region_or_endpoint_mismatch"@,
            "Check region, endpoint URL, and provider-specific region requirements"@,
        )
    } else {
        match http_status {
            Some(s) => if s == 301 || s == 307 || s == 308 {
                (
                    "redirect"@,
                    "Check endpoint URL, region, and whether the provider requires a different host"@,
                )
            } else if s == 400 {
                ("bad_request"@, "Check endpoint URL, region, bucket name, and addressing style"@)
            } else if s == 401 || s == 403 {
                (
                    "access_denied"@,
                    "Check credentials, permissions, bucket policy, and provider profile selection"@,
                )
            } else if s == 404 {
                ("not_found"@, "Check bucket name, endpoint URL, region, and addressing style"@)
            } else if s == 405 || s == 501 {
                (
                    "operation_not_supported"@,
                    "Endpoint responded but does not support this S3 operation or option"@,
                )
            } else if s >= 500 {
                (
                    "server_error"@,
                    "Endpoint returned a server-side error; retry later or check provider status/logs"@,
                )
            } else {
                kind_diagnostic(error_kind)
            },
            None => kind_diagnostic(error_kind),
        }
    }
}

pub open spec fn kind_diagnostic(error_kind: Option<Seq<char>>) -> (Seq<char>, Seq<char>) {
    let k = match error_kind {
        Some(k) => k,
        None => Seq::empty(),
    };
    if error_kind is Some && k == "timeout"@ {
        (
            "timeout"@,
            "Check endpoint reachability and consider increasing connect or operation timeout settings"@,
        )
    } else if error_kind is Some && k == "dispatch"@ {
        (
            "transport_failure"@,
            "Check DNS, TLS certificates, proxy/firewall rules, and endpoint reachability"@,
        )
    } else if error_kind is Some && k == "response"@ {
        (
            "invalid_response"@,
            "Endpoint responded with data the S3 SDK could not parse; check S3 compatibility and error body format"@,
        )
    } else if error_kind is Some && k == "construction"@ {
        (
            "request_construction"@,
            "Check local configuration values used to construct the S3 request"@,
        )
    } else {
        (
            "unknown_error"@,
            "Inspect error_message and rerun with trace diagnostics if more detail is needed"@,
        )
    }
}

fn opt_is(o: Option<&str>, lit: &str) -> (r: bool)
    ensures
        r == (o is Some && o->Some_0@ == lit@),
{
    match o {
        Some(s) => str_eq(s, lit),
        None => false,
    }
}

fn kind_diagnostic_for(error_kind: Option<&str>) -> (r: (&'static str, &'static str))
    ensures
        (r.0@, r.1@) == kind_diagnostic(crate::config::opt_owned(error_kind)),
{
    if opt_is(error_kind, "timeout") {
        (
            "timeout",
            "Check endpoint reachability and consider increasing connect or operation timeout settings",
        )
    } else if opt_is(error_kind, "dispatch") {
        (
            "transport_failure",
            "Check DNS, TLS certificates, proxy/firewall rules, and endpoint reachability",
        )
    } else if opt_is(error_kind, "response") {
        (
            "invalid_response",
            "Endpoint responded with data the S3 SDK could not parse; check S3 compatibility and error body format",
        )
    } else if opt_is(error_kind, "construction") {
        ("request_construction", "Check local configuration values used to construct the S3 request")
    } else {
        (
            "unknown_error",
            "Inspect error_message and rerun with trace diagnostics if more detail is needed",
        )
    }
}

/// The diagnostic code and recommendation for a failed probe.
pub fn diagnostic_for(
    error_kind: Option<&str>,
    http_status: Option<u16>,
    s3_error_code: Option<&str>,
) -> (r: (&'static str, &'static str))
    ensures
        (r.0@, r.1@) == diagnostic(
            crate::config::opt_owned(error_kind),
            http_status,
            crate::config::opt_owned(s3_error_code),
        ),
{
    if opt_is(s3_error_code, "SignatureDoesNotMatch") {
        return (
            "signature_mismatch",
            "Check credentials, region, endpoint URL, clock skew, and addressing style",
        );
    }
    if opt_is(s3_error_code, "InvalidAccessKeyId") || opt_is(s3_error_code, "AccessDenied") {
        return (
            "access_denied",
            "Check credentials, bucket permissions, and whether the selected profile is valid for this endpoint",
        );
    }
    if opt_is(s3_error_code, "NoSuchBucket") {
        return (
            "bucket_not_found",
            "Check bucket name, account/project scope, region, and addressing style",
        );
    }
    if opt_is(s3_error_code, "NotImplemented") || opt_is(s3_error_code, "NotSupported") {
        return (
            "operation_not_supported",
            "Endpoint does not implement this S3 operation or option; inspect which probe test failed before full listing",
        );
    }
    if opt_is(s3_error_code, "PermanentRedirect") || opt_is(
        s3_error_code,
        "AuthorizationHeaderMalformed",
    ) {
        return (
            "region_or_endpoint_mismatch",
            "Check region, endpoint URL, and provider-specific region requirements",
        );
    }
    match http_status {
        Some(s) => if s == 301 || s == 307 || s == 308 {
            (
                "redirect",
                "Check endpoint URL, region, and whether the provider requires a different host",
            )
        } else if s == 400 {
            ("bad_request", "Check endpoint URL, region, bucket name, and addressing style")
        } else if s == 401 || s == 403 {
            (
                "access_denied",
                "Check credentials, permissions, bucket policy, and provider profile selection",
            )
        } else if s == 404 {
            ("not_found", "Check bucket name, endpoint URL, region, and addressing style")
        } else if s == 405 || s == 501 {
            (
                "operation_not_supported",
                "Endpoint responded but does not support this S3 operation or option",
            )
        } else if s >= 500 {
            (
                "server_error",
                "Endpoint returned a server-side error; retry later or check provider status/logs",
            )
        } else {
            kind_diagnostic_for(error_kind)
        },
        None => kind_diagnostic_for(error_kind),
    }
}

// ── Probe results ──────────────────────────────────────────

/// How a probe call failed, as plain values: the SDK error's debug text
/// and kind, the S3 error code and message, and, where the service sent a
/// response, its status and request ids.
#[derive(Debug, Clone)]
pub struct ProbeFailure {
    pub debug_text: String,
    pub kind: Option<String>,
    pub code: Option<String>,
    pub message: Option<String>,
    pub http_status: Option<u16>,
    pub request_id: Option<String>,
    pub request_id_2: Option<String>,
}

fn clone_opt(o: &Option<String>) -> (r: Option<String>)
    ensures
        opt_string_v(r) == opt_string_v(*o),
{
    match o {
        Some(s) => Some(owned(s.as_str())),
        None => None,
    }
}

fn as_opt_str(o: &Option<String>) -> (r: Option<&str>)
    ensures
        crate::config::opt_owned(r) == opt_string_v(*o),
{
    match o {
        Some(s) => Some(s.as_str()),
        None => None,
    }
}

/// The trace event of a probe call: the test's identity and timing, then
/// status 200 on success, or the failure's details (fatal).
pub fn probe_event(
    test_name: &str,
    endpoint_url: &str,
    region: &str,
    bucket: &str,
    addressing_style: &str,
    latency_ms: u64,
    continuation_token: Option<&str>,
    failure: Option<&ProbeFailure>,
) -> (r: S3CompatEvent)
    ensures
        r.operation@ == test_name@,
        r.endpoint_url@ == endpoint_url@,
        r.bucket@ == bucket@,
        r.prefix@ == Seq::<char>::empty(),
        opt_string_v(r.region) == Some(region@),
        r.addressing_style@ == addressing_style@,
        r.latency_ms == latency_ms,
        opt_string_v(r.continuation_token) == crate::config::opt_owned(continuation_token),
        match failure {
            None => r.http_status == 200 && !r.fatal && r.s3_error_code is None
                && r.s3_error_message is None && r.request_id is None && r.request_id_2 is None,
            Some(f) => {
                &&& r.fatal
                &&& opt_string_v(r.s3_error_code) == opt_string_v(f.code)
                &&& opt_string_v(r.s3_error_message) == opt_string_v(f.message)
                &&& match f.http_status {
                    Some(h) => r.http_status == h && opt_string_v(r.request_id) == opt_string_v(
                        f.request_id,
                    ) && opt_string_v(r.request_id_2) == opt_string_v(f.request_id_2),
                    None => r.http_status == 0 && r.request_id is None && r.request_id_2 is None,
                }
            },
        },
{
    let mut event = S3CompatEvent::new(test_name, endpoint_url, bucket, "");
    proof {
        reveal_strlit("");
    }
    event.region = Some(owned(region));
    event.addressing_style = owned(addressing_style);
    event.latency_ms = latency_ms;
    event.continuation_token = match continuation_token {
        Some(t) => Some(owned(t)),
        None => None,
    };
    match failure {
        None => {
            event.http_status = 200;
        },
        Some(f) => {
            event.http_status = 0;
            event.fatal = true;
            event.s3_error_code = clone_opt(&f.code);
            event.s3_error_message = clone_opt(&f.message);
            if let Some(h) = f.http_status {
                event.http_status = h;
                event.request_id = clone_opt(&f.request_id);
                event.request_id_2 = clone_opt(&f.request_id_2);
            }
        },
    }
    event
}

/// The result of a probe test from the call's outcome and its event.
pub open spec fn result_matches(
    r: ProbeTestResult,
    test_name: Seq<char>,
    failure: Option<ProbeFailure>,
    event: S3CompatEvent,
) -> bool {
    &&& r.test@ == test_name
    &&& r.latency_ms == event.latency_ms
    &&& opt_string_v(r.s3_error_code) == opt_string_v(event.s3_error_code)
    &&& opt_string_v(r.request_id) == opt_string_v(event.request_id)
    &&& opt_string_v(r.request_id_2) == opt_string_v(event.request_id_2)
    &&& r.is_truncated is None
    &&& r.key_count is None
    &&& r.contents_count is None
    &&& r.next_continuation_token_present is None
    &&& match failure {
        None => {
            &&& r.status@ == "ok"@
            &&& r.http_status == Some(
                if event.http_status != 0 {
                    event.http_status
                } else {
                    200u16
                },
            )
            &&& opt_string_v(r.error_message) == opt_string_v(event.s3_error_message)
            &&& r.error_kind is None
            &&& r.diagnostic_code is None
            &&& r.recommendation is None
        },
        Some(f) => {
            let http = if event.http_status != 0 {
                Some(event.http_status)
            } else {
                None
            };
            let d = diagnostic(opt_string_v(f.kind), http, opt_string_v(event.s3_error_code));
            &&& r.status@ == "error"@
            &&& r.http_status == http
            &&& opt_string_v(r.error_message) == Some(f.debug_text@)
            &&& opt_string_v(r.error_kind) == opt_string_v(f.kind)
            &&& opt_string_v(r.diagnostic_code) == Some(d.0)
            &&& opt_string_v(r.recommendation) == Some(d.1)
        },
    }
}

pub fn probe_result_from(test_name: &str, failure: Option<ProbeFailure>, event: S3CompatEvent) -> (r:
    ProbeTestResult)
    ensures
        result_matches(r, test_name@, failure, event),
{
    match failure {
        None => ProbeTestResult {
            test: owned(test_name),
            status: owned("ok"),
            latency_ms: event.latency_ms,
            http_status: if event.http_status != 0 {
                Some(event.http_status)
            } else {
                Some(200)
            },
            s3_error_code: event.s3_error_code,
            error_message: event.s3_error_message,
            error_kind: None,
            diagnostic_code: None,
            recommendation: None,
            request_id: event.request_id,
            request_id_2: event.request_id_2,
            is_truncated: None,
            key_count: None,
            contents_count: None,
            next_continuation_token_present: None,
        },
        Some(e) => {
            let http_status = http_status_option(event.http_status);
            let (diagnostic_code, recommendation) = diagnostic_for(
                as_opt_str(&e.kind),
                http_status,
                as_opt_str(&event.s3_error_code),
            );
            ProbeTestResult {
                test: owned(test_name),
                status: owned("error"),
                latency_ms: event.latency_ms,
                http_status,
                s3_error_code: event.s3_error_code,
                error_message: Some(e.debug_text),
                error_kind: e.kind,
                diagnostic_code: Some(owned(diagnostic_code)),
                recommendation: Some(owned(recommendation)),
                request_id: event.request_id,
                request_id_2: event.request_id_2,
                is_truncated: None,
                key_count: None,
                contents_count: None,
                next_continuation_token_present: None,
            }
        },
    }
}

// ── Pagination check ───────────────────────────────────────

/// What the first page of the pagination check reported.
#[derive(Debug, Clone)]
pub struct PageInfo {
    pub key_count: Option<i32>,
    pub is_truncated: Option<bool>,
    pub contents_count: i32,
    pub next_token: Option<String>,
}

/// After the first page: a finished result, or a second page to request
/// with the first page's counts and continuation token.
#[derive(Debug, Clone)]
pub enum PaginationStep {
    Done(ProbeTestResult),
    SecondPage { key_count: i32, contents_count: i32, next_token: Option<String> },
}

pub open spec fn pagination_test_name() -> Seq<char> {
    "ListObjectsV2 pagination check"@
}

pub open spec fn insufficient_text(n: i32) -> Seq<char> {
    "insufficient_objects: only "@ + crate::text::idec(n as int)
        + " objects; need >= max_keys (3) to test pagination"@
}

/// Records the first page on the event and decides: too few objects and
/// not truncated skips the check, truncated asks for a second page,
/// otherwise the check passes on the first page alone.
pub fn pagination_probe_result(evt: &mut S3CompatEvent, page: Result<PageInfo, ProbeFailure>) -> (r:
    PaginationStep)
    ensures
        match page {
            Err(f) => r is Done && result_matches(
                r->Done_0,
                pagination_test_name(),
                Some(f),
                *old(evt),
            ) && *final(evt) == *old(evt),
            Ok(p) => {
                let kc = match p.key_count {
                    Some(k) => k,
                    None => 0i32,
                };
                let tr = match p.is_truncated {
                    Some(t) => t,
                    None => false,
                };
                &&& final(evt).key_count == Some(kc)
                &&& final(evt).contents_count == Some(p.contents_count)
                &&& final(evt).is_truncated == tr
                &&& opt_string_v(final(evt).next_continuation_token) == opt_string_v(p.next_token)
                &&& final(evt).next_continuation_token_present == Some(p.next_token is Some)
                &&& final(evt).latency_ms == old(evt).latency_ms
                &&& final(evt).request_id == old(evt).request_id
                &&& final(evt).request_id_2 == old(evt).request_id_2
                &&& if !tr && p.contents_count < 3 {
                    &&& r is Done
                    &&& r->Done_0.test@ == pagination_test_name()
                    &&& r->Done_0.status@ == "skipped"@
                    &&& r->Done_0.latency_ms == old(evt).latency_ms
                    &&& r->Done_0.http_status == Some(200u16)
                    &&& opt_string_v(r->Done_0.error_message) == Some(
                        insufficient_text(p.contents_count),
                    )
                    &&& r->Done_0.error_kind is None
                    &&& r->Done_0.diagnostic_code is None
                    &&& r->Done_0.is_truncated == Some(tr)
                    &&& r->Done_0.key_count == Some(kc)
                    &&& r->Done_0.contents_count == Some(p.contents_count)
                    &&& r->Done_0.next_continuation_token_present == Some(false)
                } else if tr {
                    &&& r is SecondPage
                    &&& r->key_count == kc
                    &&& r->contents_count == p.contents_count
                    &&& opt_string_v(r->next_token) == opt_string_v(p.next_token)
                } else {
                    &&& r is Done
                    &&& r->Done_0.test@ == pagination_test_name()
                    &&& r->Done_0.status@ == "ok"@
                    &&& r->Done_0.latency_ms == old(evt).latency_ms
                    &&& r->Done_0.is_truncated == Some(false)
                    &&& r->Done_0.key_count == Some(kc)
                    &&& r->Done_0.contents_count == Some(p.contents_count)
                    &&& r->Done_0.next_continuation_token_present == Some(false)
                }
            },
        },
{
    match page {
        Err(f) => {
            let ev = copy_event(evt);
            PaginationStep::Done(probe_result_from("ListObjectsV2 pagination check", Some(f), ev))
        },
        Ok(p) => {
            let key_count = match p.key_count {
                Some(k) => k,
                None => 0,
            };
            let is_truncated = match p.is_truncated {
                Some(t) => t,
                None => false,
            };
            let content_count = p.contents_count;
            let present = p.next_token.is_some();
            evt.key_count = Some(key_count);
            evt.contents_count = Some(content_count);
            evt.is_truncated = is_truncated;
            evt.next_continuation_token = clone_opt(&p.next_token);
            evt.next_continuation_token_present = Some(present);
            if !is_truncated && content_count < 3 {
                let mut msg: Vec<char> = Vec::new();
                append_str(&mut msg, "insufficient_objects: only ");
                crate::text::push_idec(&mut msg, content_count);
                append_str(&mut msg, " objects; need >= max_keys (3) to test pagination");
                proof {
                    assert(msg@ =~= insufficient_text(content_count));
                }
                PaginationStep::Done(
                    ProbeTestResult {
                        test: owned("ListObjectsV2 pagination check"),
                        status: owned("skipped"),
                        latency_ms: evt.latency_ms,
                        http_status: Some(200),
                        s3_error_code: None,
                        error_message: Some(string_from_chars(msg.as_slice())),
                        error_kind: None,
                        diagnostic_code: None,
                        recommendation: None,
                        request_id: clone_opt(&evt.request_id),
                        request_id_2: clone_opt(&evt.request_id_2),
                        is_truncated: Some(is_truncated),
                        key_count: Some(key_count),
                        contents_count: Some(content_count),
                        next_continuation_token_present: Some(false),
                    },
                )
            } else if is_truncated {
                PaginationStep::SecondPage {
                    key_count,
                    contents_count: content_count,
                    next_token: p.next_token,
                }
            } else {
                let ev = copy_event(evt);
                let mut result = probe_result_from("ListObjectsV2 pagination check", None, ev);
                result.is_truncated = Some(is_truncated);
                result.key_count = Some(key_count);
                result.contents_count = Some(content_count);
                result.next_continuation_token_present = Some(false);
                PaginationStep::Done(result)
            }
        },
    }
}

/// A copy of an event with the same field values.
fn copy_event(e: &S3CompatEvent) -> (r: S3CompatEvent)
    ensures
        r.latency_ms == e.latency_ms,
        r.http_status == e.http_status,
        opt_string_v(r.s3_error_code) == opt_string_v(e.s3_error_code),
        opt_string_v(r.s3_error_message) == opt_string_v(e.s3_error_message),
        opt_string_v(r.request_id) == opt_string_v(e.request_id),
        opt_string_v(r.request_id_2) == opt_string_v(e.request_id_2),
{
    let mut c = S3CompatEvent::new(e.operation.as_str(), e.endpoint_url.as_str(), e.bucket.as_str(), e.prefix.as_str());
    c.latency_ms = e.latency_ms;
    c.http_status = e.http_status;
    c.s3_error_code = clone_opt(&e.s3_error_code);
    c.s3_error_message = clone_opt(&e.s3_error_message);
    c.request_id = clone_opt(&e.request_id);
    c.request_id_2 = clone_opt(&e.request_id_2);
    c
}

/// What the second page reported: its key count (where given) and number
/// of objects.
#[derive(Debug, Clone, Copy)]
pub struct SecondPageInfo {
    pub key_count: Option<i32>,
    pub contents_count: i32,
}

pub open spec fn page_counts_text(first: i32, second: i32) -> Seq<char> {
    "page_1_keys="@ + crate::text::idec(first as int) + ", page_2_keys="@ + crate::text::idec(
        second as int,
    )
}

/// The pagination check after a truncated first page: without a
/// continuation token it fails; otherwise `second` is the second request's
/// outcome and event, and the check passes with both pages' counts or fails
/// with the second page's diagnostic.
pub fn pagination_second_page_result(
    evt: &S3CompatEvent,
    key_count: i32,
    content_count: i32,
    second: Option<(Result<SecondPageInfo, ProbeFailure>, S3CompatEvent)>,
) -> (r: ProbeTestResult)
    requires
        match second {
            Some((Ok(p), e)) => {
                let k2 = match p.key_count {
                    Some(k) => k,
                    None => 0i32,
                };
                &&& i32::MIN <= key_count + k2 <= i32::MAX
                &&& i32::MIN <= content_count + p.contents_count <= i32::MAX
                &&& evt.latency_ms + e.latency_ms <= u64::MAX
            },
            Some((Err(_), e)) => evt.latency_ms + e.latency_ms <= u64::MAX,
            None => true,
        },
    ensures
        r.test@ == pagination_test_name(),
        r.is_truncated == Some(evt.is_truncated),
        match second {
            None => {
                &&& r.status@ == "error"@
                &&& r.latency_ms == evt.latency_ms
                &&& r.http_status == Some(200u16)
                &&& opt_string_v(r.error_message) == Some(
                    "is_truncated=true but next_continuation_token is absent"@,
                )
                &&& opt_string_v(r.error_kind) == Some("pagination"@)
                &&& opt_string_v(r.diagnostic_code) == Some("pagination_token_missing"@)
                &&& opt_string_v(r.recommendation) == Some(
                    "Endpoint returned is_truncated=true without a continuation token; pagination is not safe for full listings"@,
                )
                &&& opt_string_v(r.request_id) == opt_string_v(evt.request_id)
                &&& r.key_count == Some(key_count)
                &&& r.contents_count == Some(content_count)
                &&& r.next_continuation_token_present == Some(false)
            },
            Some((Ok(p), e)) => {
                let k2 = match p.key_count {
                    Some(k) => k,
                    None => 0i32,
                };
                &&& r.status@ == "ok"@
                &&& r.latency_ms == evt.latency_ms + e.latency_ms
                &&& r.http_status == Some(200u16)
                &&& opt_string_v(r.error_message) == Some(
                    page_counts_text(content_count, p.contents_count),
                )
                &&& r.error_kind is None
                &&& r.diagnostic_code is None
                &&& opt_string_v(r.request_id) == opt_string_v(e.request_id)
                &&& opt_string_v(r.request_id_2) == opt_string_v(e.request_id_2)
                &&& r.key_count == Some((key_count + k2) as i32)
                &&& r.contents_count == Some((content_count + p.contents_count) as i32)
                &&& r.next_continuation_token_present == Some(true)
            },
            Some((Err(f), e)) => {
                let http = if e.http_status != 0 {
                    Some(e.http_status)
                } else {
                    None
                };
                let d = diagnostic(opt_string_v(f.kind), http, opt_string_v(e.s3_error_code));
                &&& r.status@ == "error"@
                &&& r.latency_ms == evt.latency_ms + e.latency_ms
                &&& r.http_status == http
                &&& opt_string_v(r.s3_error_code) == opt_string_v(e.s3_error_code)
                &&& opt_string_v(r.error_message) == Some("page_2_error: "@ + f.debug_text@)
                &&& opt_string_v(r.error_kind) == opt_string_v(f.kind)
                &&& opt_string_v(r.diagnostic_code) == Some(d.0)
                &&& opt_string_v(r.recommendation) == Some(d.1)
                &&& opt_string_v(r.request_id) == opt_string_v(e.request_id)
                &&& r.key_count == Some(key_count)
                &&& r.contents_count == Some(content_count)
                &&& r.next_continuation_token_present == Some(true)
            },
        },
{
    let is_truncated = evt.is_truncated;
    match second {
        None => ProbeTestResult {
            test: owned("ListObjectsV2 pagination check"),
            status: owned("error"),
            latency_ms: evt.latency_ms,
            http_status: Some(200),
            s3_error_code: None,
            error_message: Some(owned("is_truncated=true but next_continuation_token is absent")),
            error_kind: Some(owned("pagination")),
            diagnostic_code: Some(owned("pagination_token_missing")),
            recommendation: Some(
                owned(
                    "Endpoint returned is_truncated=true without a continuation token; pagination is not safe for full listings",
                ),
            ),
            request_id: clone_opt(&evt.request_id),
            request_id_2: clone_opt(&evt.request_id_2),
            is_truncated: Some(is_truncated),
            key_count: Some(key_count),
            contents_count: Some(content_count),
            next_continuation_token_present: Some(false),
        },
        Some((Ok(p), e)) => {
            let k2 = match p.key_count {
                Some(k) => k,
                None => 0,
            };
            let mut msg: Vec<char> = Vec::new();
            append_str(&mut msg, "page_1_keys=");
            crate::text::push_idec(&mut msg, content_count);
            append_str(&mut msg, ", page_2_keys=");
            crate::text::push_idec(&mut msg, p.contents_count);
            proof {
                assert(msg@ =~= page_counts_text(content_count, p.contents_count));
            }
            ProbeTestResult {
                test: owned("ListObjectsV2 pagination check"),
                status: owned("ok"),
                latency_ms: evt.latency_ms + e.latency_ms,
                http_status: Some(200),
                s3_error_code: None,
                error_message: Some(string_from_chars(msg.as_slice())),
                error_kind: None,
                diagnostic_code: None,
                recommendation: None,
                request_id: e.request_id,
                request_id_2: e.request_id_2,
                is_truncated: Some(is_truncated),
                key_count: Some(key_count + k2),
                contents_count: Some(content_count + p.contents_count),
                next_continuation_token_present: Some(true),
            }
        },
        Some((Err(f), e)) => {
            let http_status = http_status_option(e.http_status);
            let (diagnostic_code, recommendation) = diagnostic_for(
                as_opt_str(&f.kind),
                http_status,
                as_opt_str(&e.s3_error_code),
            );
            let mut msg = owned("page_2_error: ");
            crate::text::string_push_str(&mut msg, f.debug_text.as_str());
            ProbeTestResult {
                test: owned("ListObjectsV2 pagination check"),
                status: owned("error"),
                latency_ms: evt.latency_ms + e.latency_ms,
                http_status,
                s3_error_code: e.s3_error_code,
                error_message: Some(msg),
                error_kind: f.kind,
                diagnostic_code: Some(owned(diagnostic_code)),
                recommendation: Some(owned(recommendation)),
                request_id: e.request_id,
                request_id_2: e.request_id_2,
                is_truncated: Some(is_truncated),
                key_count: Some(key_count),
                contents_count: Some(content_count),
                next_continuation_token_present: Some(true),
            }
        },
    }
}

} // verus!
