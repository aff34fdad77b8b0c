//! Listing errors: errno classification (retryable below `0x10`, fatal from
//! `0x10` up), HTTP status and S3-compatible error details.
use crate::text::{append_str, dec, owned, push_dec, str_eq, string_from_chars};
use vstd::prelude::*;

verus! {

// ── Error codes ────────────────────────────────────────────

pub const ERROR_S3_NEXT_STREAM_TIMEOUT: u8 = 0x1;
pub const ERROR_S3_CLIENT_GENERIC: u8 = 0x2;
pub const ERROR_S3_CLIENT_CONNECTION_TIMEOUT: u8 = 0x3;
pub const ERROR_S3_MISSING_REGION: u8 = 0x4;
pub const ERROR_NO_BUCKET: u8 = 0x10;
pub const ERROR_ACCESS_DENIED: u8 = 0x11;
pub const ERROR_PERMANENT_REDIRECT: u8 = 0x12;
pub const ERROR_SIGNATURE_DOES_NOT_MATCH: u8 = 0x13;
pub const ERROR_AUTH_HEADER_MALFORMED: u8 = 0x14;
pub const ERROR_SLOW_DOWN: u8 = 0x15;
pub const ERROR_TOO_MANY_REQUESTS: u8 = 0x16;
pub const ERROR_INTERNAL_ERROR: u8 = 0x17;
pub const ERROR_SERVICE_UNAVAILABLE: u8 = 0x18;
pub const ERROR_UNKNOWN: u8 = 0xff;

// ── FlatRuntimeError ───────────────────────────────────────

/// Runtime error of one listing segment.
#[derive(Debug, Clone)]
pub struct FlatRuntimeError {
    pub errno: u8,
    pub errmsg: String,
    pub next_start: String,
    pub http_status_code: u16,
    /// S3 error code from the response (e.g. "NoSuchBucket").
    pub s3_error_code: Option<String>,
    /// Request id from the response headers.
    pub request_id: Option<String>,
    /// First bytes of the error response body, if available.
    pub raw_body_excerpt: Option<String>,
}

/// The resume key as reported: `"/"` when none was recorded.
pub open spec fn effective_next_start(next_start: Seq<char>) -> Seq<char> {
    if next_start.len() == 0 {
        "/"@
    } else {
        next_start
    }
}

pub open spec fn errno_is_retryable(errno: u8) -> bool {
    errno < ERROR_NO_BUCKET
}

impl FlatRuntimeError {
    pub fn new(errno: u8, errmsg: String, next_start: String) -> (r: Self)
        ensures
            r.errno == errno,
            r.errmsg@ == errmsg@,
            r.next_start@ == next_start@,
            r.http_status_code == 0,
            r.s3_error_code is None,
            r.request_id is None,
            r.raw_body_excerpt is None,
    {
        Self {
            errno,
            errmsg,
            next_start,
            http_status_code: 0,
            s3_error_code: None,
            request_id: None,
            raw_body_excerpt: None,
        }
    }

    /// The key to resume from on retry.
    pub fn next_start(&self) -> (r: &str)
        ensures
            r@ == effective_next_start(self.next_start@),
    {
        if self.next_start.as_str().is_empty() {
            "/"
        } else {
            self.next_start.as_str()
        }
    }

    pub fn next_start_owned(&self) -> (r: String)
        ensures
            r@ == effective_next_start(self.next_start@),
    {
        owned(self.next_start())
    }

    /// Whether the operation should be retried.
    pub fn continue_on_error(&self) -> (r: bool)
        ensures
            r == errno_is_retryable(self.errno),
    {
        self.errno < ERROR_NO_BUCKET
    }

    pub fn errno(&self) -> (r: u8)
        ensures
            r == self.errno,
    {
        self.errno
    }

    /// The HTTP status code, or 0 if none was attached.
    pub fn http_status_code(&self) -> (r: u16)
        ensures
            r == self.http_status_code,
    {
        self.http_status_code
    }

    /// Attaches an HTTP status code; everything else is kept.
    pub fn with_http_status_code(self, code: u16) -> (r: Self)
        ensures
            r.http_status_code == code,
            r.errno == self.errno,
            r.errmsg@ == self.errmsg@,
            r.next_start@ == self.next_start@,
            r.s3_error_code == self.s3_error_code,
            r.request_id == self.request_id,
            r.raw_body_excerpt == self.raw_body_excerpt,
    {
        let mut e = self;
        e.http_status_code = code;
        e
    }

    /// Attaches the HTTP status and the S3-compatible error details; the
    /// errno, message and resume key are kept.
    pub fn with_s3_error_details(
        self,
        code: u16,
        s3_err_code: Option<String>,
        req_id: Option<String>,
        body_excerpt: Option<String>,
    ) -> (r: Self)
        ensures
            r.http_status_code == code,
            r.errno == self.errno,
            r.errmsg@ == self.errmsg@,
            r.next_start@ == self.next_start@,
            r.s3_error_code == s3_err_code,
            r.request_id == req_id,
            r.raw_body_excerpt == body_excerpt,
    {
        let mut e = self;
        e.http_status_code = code;
        e.s3_error_code = s3_err_code;
        e.request_id = req_id;
        e.raw_body_excerpt = body_excerpt;
        e
    }

    pub fn is_retryable(&self) -> (r: bool)
        ensures
            r == errno_is_retryable(self.errno),
    {
        self.errno < ERROR_NO_BUCKET
    }

    pub fn is_fatal(&self) -> (r: bool)
        ensures
            r == !errno_is_retryable(self.errno),
    {
        self.errno >= ERROR_NO_BUCKET
    }

    pub open spec fn spec_display(&self) -> Seq<char> {
        let base = "errno: "@ + dec(self.errno as nat) + ", msg: "@ + self.errmsg@ + ", next_start: "@
            + effective_next_start(self.next_start@) + ", http_status: "@ + dec(
            self.http_status_code as nat,
        );
        let with_code = match self.s3_error_code {
            Some(c) => base + ", s3_error_code: "@ + c@,
            None => base,
        };
        match self.request_id {
            Some(r) => with_code + ", request_id: "@ + r@,
            None => with_code,
        }
    }

    /// The one-line human-readable rendering of the error.
    pub fn to_string(&self) -> (r: String)
        ensures
            r@ == self.spec_display(),
    {
        let mut out: Vec<char> = Vec::new();
        append_str(&mut out, "errno: ");
        push_dec(&mut out, self.errno as u64);
        append_str(&mut out, ", msg: ");
        append_str(&mut out, self.errmsg.as_str());
        append_str(&mut out, ", next_start: ");
        append_str(&mut out, self.next_start());
        append_str(&mut out, ", http_status: ");
        push_dec(&mut out, self.http_status_code as u64);
        if let Some(c) = &self.s3_error_code {
            append_str(&mut out, ", s3_error_code: ");
            append_str(&mut out, c.as_str());
        }
        if let Some(r) = &self.request_id {
            append_str(&mut out, ", request_id: ");
            append_str(&mut out, r.as_str());
        }
        string_from_chars(out.as_slice())
    }
}

/// The classification that `errno_to_name` reports for an errno.
pub open spec fn errno_name(errno: u8) -> Seq<char> {
    if errno == ERROR_S3_NEXT_STREAM_TIMEOUT {
        "StreamTimeout"@
    } else if errno == ERROR_S3_CLIENT_GENERIC {
        "ClientGeneric"@
    } else if errno == ERROR_S3_CLIENT_CONNECTION_TIMEOUT {
        "ClientConnectionTimeout"@
    } else if errno == ERROR_S3_MISSING_REGION {
        "MissingRegion"@
    } else if errno == ERROR_NO_BUCKET {
        "NoSuchBucket"@
    } else if errno == ERROR_ACCESS_DENIED {
        "AccessDenied"@
    } else if errno == ERROR_PERMANENT_REDIRECT {
        "PermanentRedirect"@
    } else if errno == ERROR_SIGNATURE_DOES_NOT_MATCH {
        "SignatureDoesNotMatch"@
    } else if errno == ERROR_AUTH_HEADER_MALFORMED {
        "AuthorizationHeaderMalformed"@
    } else if errno == ERROR_SLOW_DOWN {
        "SlowDown"@
    } else if errno == ERROR_TOO_MANY_REQUESTS {
        "TooManyRequests"@
    } else if errno == ERROR_INTERNAL_ERROR {
        "InternalError"@
    } else if errno == ERROR_SERVICE_UNAVAILABLE {
        "ServiceUnavailable"@
    } else {
        "Unknown"@
    }
}

/// Human-readable S3 error classification for logs and traces.
pub fn errno_to_name(errno: u8) -> (r: &'static str)
    ensures
        r@ == errno_name(errno),
{
    if errno == ERROR_S3_NEXT_STREAM_TIMEOUT {
        "StreamTimeout"
    } else if errno == ERROR_S3_CLIENT_GENERIC {
        "ClientGeneric"
    } else if errno == ERROR_S3_CLIENT_CONNECTION_TIMEOUT {
        "ClientConnectionTimeout"
    } else if errno == ERROR_S3_MISSING_REGION {
        "MissingRegion"
    } else if errno == ERROR_NO_BUCKET {
        "NoSuchBucket"
    } else if errno == ERROR_ACCESS_DENIED {
        "AccessDenied"
    } else if errno == ERROR_PERMANENT_REDIRECT {
        "PermanentRedirect"
    } else if errno == ERROR_SIGNATURE_DOES_NOT_MATCH {
        "SignatureDoesNotMatch"
    } else if errno == ERROR_AUTH_HEADER_MALFORMED {
        "AuthorizationHeaderMalformed"
    } else if errno == ERROR_SLOW_DOWN {
        "SlowDown"
    } else if errno == ERROR_TOO_MANY_REQUESTS {
        "TooManyRequests"
    } else if errno == ERROR_INTERNAL_ERROR {
        "InternalError"
    } else if errno == ERROR_SERVICE_UNAVAILABLE {
        "ServiceUnavailable"
    } else {
        "Unknown"
    }
}

/// The errno that an S3 error code maps to.
pub open spec fn code_errno(code: Seq<char>) -> u8 {
    if code == "NoSuchBucket"@ {
        ERROR_NO_BUCKET
    } else if code == "AccessDenied"@ {
        ERROR_ACCESS_DENIED
    } else if code == "PermanentRedirect"@ {
        ERROR_PERMANENT_REDIRECT
    } else if code == "SignatureDoesNotMatch"@ {
        ERROR_SIGNATURE_DOES_NOT_MATCH
    } else if code == "AuthorizationHeaderMalformed"@ {
        ERROR_AUTH_HEADER_MALFORMED
    } else if code == "SlowDown"@ {
        ERROR_SLOW_DOWN
    } else if code == "TooManyRequests"@ || code == "ThrottlingException"@ {
        ERROR_TOO_MANY_REQUESTS
    } else if code == "InternalError"@ || code == "InternalFailure"@ {
        ERROR_INTERNAL_ERROR
    } else if code == "ServiceUnavailable"@ || code == "RequestTimeout"@ {
        ERROR_SERVICE_UNAVAILABLE
    } else {
        ERROR_UNKNOWN
    }
}

/// Maps an S3 error code to the closest errno; an absent code is unknown.
pub fn s3_error_code_to_errno(code: Option<&str>) -> (r: u8)
    ensures
        r == match code {
            Some(c) => code_errno(c@),
            None => ERROR_UNKNOWN,
        },
{
    match code {
        None => ERROR_UNKNOWN,
        Some(c) => {
            if str_eq(c, "NoSuchBucket") {
                ERROR_NO_BUCKET
            } else if str_eq(c, "AccessDenied") {
                ERROR_ACCESS_DENIED
            } else if str_eq(c, "PermanentRedirect") {
                ERROR_PERMANENT_REDIRECT
            } else if str_eq(c, "SignatureDoesNotMatch") {
                ERROR_SIGNATURE_DOES_NOT_MATCH
            } else if str_eq(c, "AuthorizationHeaderMalformed") {
                ERROR_AUTH_HEADER_MALFORMED
            } else if str_eq(c, "SlowDown") {
                ERROR_SLOW_DOWN
            } else if str_eq(c, "TooManyRequests") || str_eq(c, "ThrottlingException") {
                ERROR_TOO_MANY_REQUESTS
            } else if str_eq(c, "InternalError") || str_eq(c, "InternalFailure") {
                ERROR_INTERNAL_ERROR
            } else if str_eq(c, "ServiceUnavailable") || str_eq(c, "RequestTimeout") {
                ERROR_SERVICE_UNAVAILABLE
            } else {
                ERROR_UNKNOWN
            }
        },
    }
}

/// Every known S3 error code maps to a fatal errno (never a retryable one),
/// and the name `errno_to_name` gives that errno maps back to the same errno.
pub proof fn law_code_errno_round_trip(code: Seq<char>)
    ensures
        !errno_is_retryable(code_errno(code)),
        code_errno(errno_name(code_errno(code))) == code_errno(code),
{
    reveal_strlit("Unknown");
    assert("Unknown"@.len() == 7);
    reveal_strlit("NoSuchBucket");
    assert("NoSuchBucket"@.len() == 12);
    reveal_strlit("AccessDenied");
    assert("AccessDenied"@.len() == 12);
    reveal_strlit("PermanentRedirect");
    assert("PermanentRedirect"@.len() == 17);
    reveal_strlit("SignatureDoesNotMatch");
    assert("SignatureDoesNotMatch"@.len() == 21);
    reveal_strlit("AuthorizationHeaderMalformed");
    assert("AuthorizationHeaderMalformed"@.len() == 28);
    reveal_strlit("SlowDown");
    assert("SlowDown"@.len() == 8);
    reveal_strlit("TooManyRequests");
    assert("TooManyRequests"@.len() == 15);
    reveal_strlit("ThrottlingException");
    assert("ThrottlingException"@.len() == 19);
    reveal_strlit("InternalError");
    assert("InternalError"@.len() == 13);
    reveal_strlit("InternalFailure");
    assert("InternalFailure"@.len() == 15);
    reveal_strlit("ServiceUnavailable");
    assert("ServiceUnavailable"@.len() == 18);
    reveal_strlit("RequestTimeout");
    assert("RequestTimeout"@.len() == 14);
    let e = code_errno(code);
    if e == ERROR_TOO_MANY_REQUESTS {
        assert(errno_name(e) == "TooManyRequests"@);
    } else if e == ERROR_INTERNAL_ERROR {
        assert(errno_name(e) == "InternalError"@);
    } else if e == ERROR_SERVICE_UNAVAILABLE {
        assert(errno_name(e) == "ServiceUnavailable"@);
    } else if e == ERROR_SLOW_DOWN {
        assert(errno_name(e) == "SlowDown"@);
        assert("SlowDown"@ != "TooManyRequests"@);
    }
}

} // verus!
