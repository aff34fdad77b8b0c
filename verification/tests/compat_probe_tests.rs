use s3_turbo_list::compat_probe::{
    diagnostic_for, http_status_option, pagination_probe_result, pagination_second_page_result,
    probe_event, probe_result_from, CompatProbeReport, PageInfo, PaginationStep, ProbeFailure,
    ProbeTestResult, SecondPageInfo,
};

fn result(status: &str) -> ProbeTestResult {
    ProbeTestResult {
        test: "probe".to_string(),
        status: status.to_string(),
        latency_ms: 1,
        http_status: Some(200),
        s3_error_code: None,
        error_message: None,
        error_kind: None,
        diagnostic_code: None,
        recommendation: None,
        request_id: None,
        request_id_2: None,
        is_truncated: None,
        key_count: None,
        contents_count: None,
        next_continuation_token_present: None,
    }
}

#[test]
fn overall_status_allows_skipped_probe_without_degrading() {
    let results = vec![result("ok"), result("skipped")];
    assert_eq!(CompatProbeReport::overall_status_for(&results), "compatible");
}

#[test]
fn overall_status_distinguishes_partial_and_incompatible() {
    let partial = vec![result("ok"), result("error")];
    let incompatible = vec![result("error"), result("error")];

    assert_eq!(CompatProbeReport::overall_status_for(&partial), "partial");
    assert_eq!(CompatProbeReport::overall_status_for(&incompatible), "incompatible");
}

#[test]
fn diagnostic_for_prefers_s3_error_code() {
    let (code, recommendation) = diagnostic_for(Some("service"), Some(403), Some("SignatureDoesNotMatch"));

    assert_eq!(code, "signature_mismatch");
    assert!(recommendation.contains("region"));
}

#[test]
fn diagnostic_for_classifies_transport_failures_without_http_status() {
    let (code, recommendation) = diagnostic_for(Some("dispatch"), None, None);

    assert_eq!(code, "transport_failure");
    assert!(recommendation.contains("DNS"));
}

#[test]
fn diagnostic_for_http_5xx_takes_precedence_over_response_kind() {
    let (code, recommendation) = diagnostic_for(Some("response"), Some(502), None);

    assert_eq!(code, "server_error");
    assert!(recommendation.contains("server-side"));
}

#[test]
fn overall_status_of_no_results_is_compatible() {
    assert_eq!(CompatProbeReport::overall_status_for(&[]), "compatible");
}

#[test]
fn http_status_zero_is_absent() {
    assert_eq!(http_status_option(0), None);
    assert_eq!(http_status_option(404), Some(404));
}

fn failure(status: Option<u16>, code: Option<&str>) -> ProbeFailure {
    ProbeFailure {
        debug_text: "service error".to_string(),
        kind: Some("service".to_string()),
        code: code.map(|c| c.to_string()),
        message: Some("denied".to_string()),
        http_status: status,
        request_id: Some("req-1".to_string()),
        request_id_2: Some("req-2".to_string()),
    }
}

#[test]
fn probe_event_records_success_and_failure() {
    let ok = probe_event("HeadBucket", "https://e", "us-east-1", "b", "path", 12, None, None);
    assert_eq!(ok.http_status, 200);
    assert!(!ok.fatal);
    assert_eq!(ok.region.as_deref(), Some("us-east-1"));

    let f = failure(Some(403), Some("AccessDenied"));
    let bad = probe_event("HeadBucket", "https://e", "us-east-1", "b", "path", 12, Some("tok"), Some(&f));
    assert!(bad.fatal);
    assert_eq!(bad.http_status, 403);
    assert_eq!(bad.s3_error_code.as_deref(), Some("AccessDenied"));
    assert_eq!(bad.request_id.as_deref(), Some("req-1"));
    assert_eq!(bad.continuation_token.as_deref(), Some("tok"));

    let transport = failure(None, None);
    let t = probe_event("HeadBucket", "https://e", "r", "b", "path", 1, None, Some(&transport));
    assert_eq!(t.http_status, 0);
    assert_eq!(t.request_id, None);
}

#[test]
fn probe_result_from_failure_carries_diagnostic() {
    let f = failure(Some(403), Some("SignatureDoesNotMatch"));
    let evt = probe_event("HeadBucket", "https://e", "r", "b", "path", 5, None, Some(&f));
    let r = probe_result_from("HeadBucket", Some(f), evt);
    assert_eq!(r.status, "error");
    assert_eq!(r.diagnostic_code.as_deref(), Some("signature_mismatch"));
    assert_eq!(r.http_status, Some(403));

    let evt = probe_event("HeadBucket", "https://e", "r", "b", "path", 5, None, None);
    let r = probe_result_from("HeadBucket", None, evt);
    assert_eq!(r.status, "ok");
    assert_eq!(r.http_status, Some(200));
    assert_eq!(r.latency_ms, 5);
}

#[test]
fn pagination_with_too_few_objects_is_skipped() {
    let mut evt = probe_event("ListObjectsV2 pagination check", "https://e", "r", "b", "path", 3, None, None);
    let step = pagination_probe_result(
        &mut evt,
        Ok(PageInfo { key_count: Some(2), is_truncated: Some(false), contents_count: 2, next_token: None }),
    );
    match step {
        PaginationStep::Done(r) => {
            assert_eq!(r.status, "skipped");
            assert_eq!(
                r.error_message.as_deref(),
                Some("insufficient_objects: only 2 objects; need >= max_keys (3) to test pagination")
            );
        }
        _ => panic!("expected a finished check"),
    }
    assert_eq!(evt.key_count, Some(2));
}

#[test]
fn pagination_truncated_asks_for_second_page() {
    let mut evt = probe_event("ListObjectsV2 pagination check", "https://e", "r", "b", "path", 3, None, None);
    let step = pagination_probe_result(
        &mut evt,
        Ok(PageInfo {
            key_count: Some(3),
            is_truncated: Some(true),
            contents_count: 3,
            next_token: Some("next".to_string()),
        }),
    );
    match step {
        PaginationStep::SecondPage { key_count, contents_count, next_token } => {
            assert_eq!(key_count, 3);
            assert_eq!(contents_count, 3);
            assert_eq!(next_token.as_deref(), Some("next"));
        }
        _ => panic!("expected a second page"),
    }
    assert!(evt.is_truncated);
    assert_eq!(evt.next_continuation_token_present, Some(true));

    let second_evt = probe_event("ListObjectsV2 pagination check", "https://e", "r", "b", "path", 4, Some("next"), None);
    let r = pagination_second_page_result(
        &evt,
        3,
        3,
        Some((Ok(SecondPageInfo { key_count: Some(2), contents_count: 2 }), second_evt)),
    );
    assert_eq!(r.status, "ok");
    assert_eq!(r.latency_ms, 7);
    assert_eq!(r.key_count, Some(5));
    assert_eq!(r.error_message.as_deref(), Some("page_1_keys=3, page_2_keys=2"));

    let missing = pagination_second_page_result(&evt, 3, 3, None);
    assert_eq!(missing.status, "error");
    assert_eq!(
        missing.error_message.as_deref(),
        Some("is_truncated=true but next_continuation_token is absent")
    );
}
