//! The summary of a saved run manifest: what the JSON document records,
//! with the defaults for what it leaves out, and the checks of its
//! artifacts against what is on disk now.
use crate::config::opt_string_v;
use crate::json::{
    as_bool_v, as_i64_v, json_parse, parse_json, as_str_v, as_u64_v, bool_of, get, i64_of, items_of, items_v, json_get,
    str_items, string_of, strings_of, u64_of, JsonValue,
};
use crate::local_tools::{
    count_checks, count_missing, count_status, check_status_of, currently_exists,
    manifest_check_summary, manifest_checks, manifest_checks_spec, manifest_row_check_applies,
    mchecks_view, parquet_check_needed, row_check_applies, ArtifactFileState, ManifestArtifactSummary,
    ManifestCheck, ManifestCheckSummary, ManifestOutputSummary, ManifestPrefixSummary,
};
use crate::text::{append_str, owned, string_from_chars, strings_view};
use vstd::prelude::*;

verus! {

/// A run manifest summarised (its elapsed time, a float, is read by the
/// application).
#[derive(Debug, Clone)]
pub struct ManifestSummary {
    pub manifest_file: String,
    pub tool_version: Option<String>,
    pub run_status: String,
    pub exit_code: Option<i64>,
    pub command: Vec<String>,
    pub output_format: Option<String>,
    pub summary_only: bool,
    pub received_objects: u64,
    pub streamed_rows: u64,
    pub parquet_rows: u64,
    pub ks_entries: u64,
    pub bytes_total: u64,
    pub unique_prefixes: u64,
    pub parquet_rows_match_streamed_rows: Option<bool>,
    pub top_prefixes: Vec<ManifestPrefixSummary>,
    pub outputs: ManifestOutputSummary,
    pub artifacts: Vec<ManifestArtifactSummary>,
    pub warnings: Vec<String>,
    pub check_passed: bool,
    pub check: ManifestCheckSummary,
    pub checks: Vec<ManifestCheck>,
}

pub open spec fn member(v: JsonValue, key: Seq<char>) -> Option<JsonValue> {
    json_get(Some(v), key)
}

pub open spec fn str_or(v: Option<Seq<char>>, d: Seq<char>) -> Seq<char> {
    match v {
        Some(s) => s,
        None => d,
    }
}

/// An unsigned integer member, 0 where missing or of another kind.
pub open spec fn u64_or_zero(v: Option<JsonValue>) -> u64 {
    match as_u64_v(v) {
        Some(n) => n,
        None => 0,
    }
}

pub open spec fn bool_or_false(v: Option<JsonValue>) -> bool {
    match as_bool_v(v) {
        Some(b) => b,
        None => false,
    }
}

pub open spec fn item_kind(item: JsonValue) -> Seq<char> {
    str_or(as_str_v(member(item, "kind"@)), Seq::empty())
}

pub open spec fn item_path(item: JsonValue) -> Seq<char> {
    str_or(as_str_v(member(item, "path"@)), Seq::empty())
}

pub open spec fn item_row_count(item: JsonValue) -> Option<i64> {
    as_i64_v(json_get(member(item, "parquet"@), "row_count"@))
}

pub open spec fn item_schema_fields(item: JsonValue) -> Seq<Seq<char>> {
    str_items(items_v(json_get(member(item, "parquet"@), "schema_fields"@)))
}

/// A recorded Parquet artifact with a row count or schema, whose current
/// metadata is compared with them.
pub open spec fn item_needs_parquet(item: JsonValue) -> bool {
    item_kind(item) == "parquet"@ && (item_row_count(item) is Some || item_schema_fields(item).len()
        > 0)
}

/// An artifact as the manifest item records it: kind and path (empty where
/// missing), whether it existed (false where missing), size, digest and
/// Parquet facts.
pub open spec fn artifact_matches(a: ManifestArtifactSummary, item: JsonValue) -> bool {
    &&& a.kind@ == item_kind(item)
    &&& a.path@ == item_path(item)
    &&& a.exists == bool_or_false(member(item, "exists"@))
    &&& a.size_bytes == as_u64_v(member(item, "size_bytes"@))
    &&& opt_string_v(a.sha256) == as_str_v(member(item, "sha256"@))
    &&& a.parquet_row_count == item_row_count(item)
    &&& strings_view(a.parquet_schema_fields@) == item_schema_fields(item)
}

pub open spec fn prefix_matches(p: ManifestPrefixSummary, item: JsonValue) -> bool {
    &&& p.prefix@ == str_or(as_str_v(member(item, "prefix"@)), Seq::empty())
    &&& p.objects == u64_or_zero(member(item, "objects"@))
    &&& p.bytes == u64_or_zero(member(item, "bytes"@))
}

pub open spec fn artifact_items(doc: JsonValue) -> Seq<JsonValue> {
    items_v(member(doc, "artifacts"@))
}

/// The current states suit the artifact items: one each, and a Parquet
/// read for every existing artifact whose Parquet facts are checked.
pub open spec fn states_suit(doc: JsonValue, states: Seq<ArtifactFileState>, verify: bool) -> bool {
    &&& states.len() == artifact_items(doc).len()
    &&& forall|i: int|
        0 <= i < states.len() && verify && item_path(artifact_items(doc)[i]).len() > 0
            && (#[trigger] states[i]).exists && item_needs_parquet(artifact_items(doc)[i])
            ==> states[i].parquet is Some
}

/// The summary of the manifest document `doc` read from `path`, with the
/// artifacts' current `states`.
pub open spec fn is_manifest_summary(
    r: ManifestSummary,
    path: Seq<char>,
    doc: JsonValue,
    states: Seq<ArtifactFileState>,
    verify: bool,
) -> bool {
    let m = member(doc, "metrics"@);
    let streamed = u64_or_zero(json_get(m, "streamed_rows"@));
    let parquet = u64_or_zero(json_get(m, "parquet_rows"@));
    let fmt = as_str_v(json_get(member(doc, "inputs"@), "output_format"@));
    let summary_only = bool_or_false(json_get(m, "summary_only"@));
    let status = str_or(as_str_v(member(doc, "status"@)), "unknown"@);
    let exit_code = as_i64_v(member(doc, "exit_code"@));
    let items = artifact_items(doc);
    let tops = items_v(json_get(m, "top_prefixes"@));
    let outs = member(doc, "outputs"@);
    let cv = mchecks_view(r.checks@);
    &&& r.manifest_file@ == path
    &&& opt_string_v(r.tool_version) == as_str_v(member(doc, "tool_version"@))
    &&& r.run_status@ == status
    &&& r.exit_code == exit_code
    &&& strings_view(r.command@) == str_items(items_v(member(doc, "command"@)))
    &&& opt_string_v(r.output_format) == fmt
    &&& r.summary_only == summary_only
    &&& r.received_objects == u64_or_zero(json_get(m, "received_objects"@))
    &&& r.streamed_rows == streamed
    &&& r.parquet_rows == parquet
    &&& r.ks_entries == u64_or_zero(json_get(m, "ks_entries"@))
    &&& r.bytes_total == u64_or_zero(json_get(m, "bytes_total"@))
    &&& r.unique_prefixes == u64_or_zero(json_get(m, "unique_prefixes"@))
    &&& r.parquet_rows_match_streamed_rows == (if row_check_applies(fmt, summary_only) {
        Some(streamed == parquet)
    } else {
        None
    })
    &&& r.top_prefixes@.len() == tops.len()
    &&& forall|i: int| 0 <= i < tops.len() ==> prefix_matches(#[trigger] r.top_prefixes@[i], tops[i])
    &&& opt_string_v(r.outputs.parquet_file) == as_str_v(json_get(outs, "parquet_file"@))
    &&& opt_string_v(r.outputs.ks_file) == as_str_v(json_get(outs, "ks_file"@))
    &&& opt_string_v(r.outputs.hints_file) == as_str_v(json_get(outs, "hints_file"@))
    &&& opt_string_v(r.outputs.trace_compat) == as_str_v(json_get(outs, "trace_compat"@))
    &&& opt_string_v(r.outputs.log_file) == as_str_v(json_get(outs, "log_file"@))
    &&& r.artifacts@.len() == items.len()
    &&& forall|i: int| 0 <= i < items.len() ==> artifact_matches(#[trigger] r.artifacts@[i], items[i])
    &&& strings_view(r.warnings@) == str_items(items_v(member(doc, "warnings"@)))
    &&& cv == manifest_checks_spec(
        status,
        exit_code,
        u64_or_zero(json_get(m, "fatal_errors"@)),
        u64_or_zero(json_get(m, "output_errors"@)),
        fmt,
        summary_only,
        streamed,
        parquet,
        r.artifacts@,
        states,
        verify,
    )
    &&& r.check_passed == (count_status(cv, "fail"@) == 0)
    &&& r.check.ok == r.check_passed
    &&& r.check.errors == count_status(cv, "fail"@)
    &&& r.check.warnings == count_status(cv, "warn"@)
    &&& r.check.skipped == count_status(cv, "skip"@)
    &&& r.check.artifacts_checked == items.len()
    &&& r.check.artifacts_missing == count_missing(cv)
    &&& r.check.row_check@ == check_status_of(cv, "parquet_rows_match_streamed_rows"@)
    &&& r.check.parquet_schema_check@ == check_status_of(cv, "artifact_parquet_schema:parquet"@)
    &&& r.check.exit_code_check@ == check_status_of(cv, "exit_code"@)
}

pub open spec fn missing_metrics_message(path: Seq<char>) -> Seq<char> {
    "manifest '"@ + path + "' does not contain metrics"@
}

pub open spec fn parse_error_prefix(path: Seq<char>) -> Seq<char> {
    "failed to parse manifest '"@ + path + "': "@
}

/// The JSON document of a manifest read from `path`: the parse of its
/// text, or an error naming the path, followed by the parser's message.
pub fn manifest_document(path: &str, raw: &str) -> (r: Result<JsonValue, String>)
    ensures
        r is Ok <==> json_parse(raw@) is Some,
        r is Ok ==> Some(r->Ok_0) == json_parse(raw@),
        r is Err ==> r->Err_0@.len() >= parse_error_prefix(path@).len() && r->Err_0@.subrange(
            0,
            parse_error_prefix(path@).len() as int,
        ) == parse_error_prefix(path@),
{
    match parse_json(raw) {
        Ok(v) => Ok(v),
        Err(e) => {
            let mut msg: Vec<char> = Vec::new();
            append_str(&mut msg, "failed to parse manifest '");
            append_str(&mut msg, path);
            append_str(&mut msg, "': ");
            let ghost head = msg@;
            append_str(&mut msg, e.as_str());
            assert(msg@.subrange(0, head.len() as int) =~= head);
            Err(string_from_chars(msg.as_slice()))
        },
    }
}

fn u64_or_zero_exec(v: Option<&JsonValue>) -> (r: u64)
    ensures
        r == u64_or_zero(crate::json::opt_ref_v(v)),
{
    match u64_of(v) {
        Some(n) => n,
        None => 0,
    }
}

fn string_or_empty(v: Option<&JsonValue>) -> (r: String)
    ensures
        r@ == str_or(as_str_v(crate::json::opt_ref_v(v)), Seq::empty()),
{
    proof {
        reveal_strlit("");
    }
    match string_of(v) {
        Some(s) => s,
        None => owned(""),
    }
}

fn artifact_from(item: &JsonValue) -> (r: ManifestArtifactSummary)
    ensures
        artifact_matches(r, *item),
{
    let parquet = get(Some(item), "parquet");
    ManifestArtifactSummary {
        kind: string_or_empty(get(Some(item), "kind")),
        path: string_or_empty(get(Some(item), "path")),
        exists: match bool_of(get(Some(item), "exists")) {
            Some(b) => b,
            None => false,
        },
        size_bytes: u64_of(get(Some(item), "size_bytes")),
        sha256: string_of(get(Some(item), "sha256")),
        parquet_row_count: i64_of(get(parquet, "row_count")),
        parquet_schema_fields: strings_of(get(parquet, "schema_fields")),
    }
}

/// The artifacts the manifest records, in order.
pub fn manifest_artifacts(doc: &JsonValue) -> (r: Vec<ManifestArtifactSummary>)
    ensures
        r@.len() == artifact_items(*doc).len(),
        forall|i: int| 0 <= i < r@.len() ==> artifact_matches(#[trigger] r@[i], artifact_items(*doc)[i]),
{
    let items = items_of(get(Some(doc), "artifacts"));
    let mut out: Vec<ManifestArtifactSummary> = Vec::new();
    let mut i: usize = 0;
    while i < items.len()
        invariant
            i <= items@.len(),
            items@ == artifact_items(*doc),
            out@.len() == i,
            forall|k: int| 0 <= k < i ==> artifact_matches(#[trigger] out@[k], items@[k]),
        decreases items@.len() - i,
    {
        out.push(artifact_from(&items[i]));
        i += 1;
    }
    out
}

/// Whether an artifact's current Parquet metadata is read: when artifacts
/// are verified and it records a row count or schema.
pub fn artifact_reads_parquet(a: &ManifestArtifactSummary, verify_artifacts: bool) -> (r: bool)
    ensures
        r == (verify_artifacts && (a.parquet_row_count is Some || a.parquet_schema_fields@.len() > 0)),
{
    verify_artifacts && (a.parquet_row_count.is_some() || a.parquet_schema_fields.len() > 0)
}

/// Whether the current states suit the manifest's artifacts (see
/// `states_suit`).
pub fn manifest_states_suit(doc: &JsonValue, states: &Vec<ArtifactFileState>, verify_artifacts: bool) -> (r:
    bool)
    ensures
        r == states_suit(*doc, states@, verify_artifacts),
{
    let arts = manifest_artifacts(doc);
    if states.len() != arts.len() {
        return false;
    }
    let mut i: usize = 0;
    while i < states.len()
        invariant
            i <= states@.len(),
            states@.len() == arts@.len(),
            arts@.len() == artifact_items(*doc).len(),
            forall|k: int| 0 <= k < arts@.len() ==> artifact_matches(#[trigger] arts@[k], artifact_items(*doc)[k]),
            forall|k: int|
                0 <= k < i && verify_artifacts && item_path(artifact_items(*doc)[k]).len() > 0
                    && (#[trigger] states@[k]).exists && item_needs_parquet(artifact_items(*doc)[k])
                    ==> states@[k].parquet is Some,
        decreases states@.len() - i,
    {
        let a = &arts[i];
        assert(artifact_matches(arts@[i as int], artifact_items(*doc)[i as int]));
        if verify_artifacts && !a.path.as_str().is_empty() && states[i].exists && str_eq_parquet(a.kind.as_str())
            && (a.parquet_row_count.is_some() || a.parquet_schema_fields.len() > 0)
            && states[i].parquet.is_none() {
            return false;
        }
        i += 1;
    }
    true
}

fn str_eq_parquet(s: &str) -> (r: bool)
    ensures
        r == (s@ == "parquet"@),
{
    crate::text::str_eq(s, "parquet")
}

/// The summary of a saved manifest document read from `path`: the error
/// when it records no metrics; otherwise each field as the document records
/// it (with 0, `"unknown"`, `false` or empty for what is missing), the
/// checks of the run and of its artifacts against their current `states`,
/// and whether none of them failed.
pub fn manifest_summary_from(
    path: &str,
    doc: &JsonValue,
    states: &Vec<ArtifactFileState>,
    verify_artifacts: bool,
) -> (r: Result<ManifestSummary, String>)
    requires
        states_suit(*doc, states@, verify_artifacts),
    ensures
        r is Err <==> member(*doc, "metrics"@) is None,
        r is Err ==> r->Err_0@ == missing_metrics_message(path@),
        r is Ok ==> is_manifest_summary(r->Ok_0, path@, *doc, states@, verify_artifacts),
{
    let root = Some(doc);
    let metrics = get(root, "metrics");
    if metrics.is_none() {
        let mut msg: Vec<char> = Vec::new();
        append_str(&mut msg, "manifest '");
        append_str(&mut msg, path);
        append_str(&mut msg, "' does not contain metrics");
        return Err(string_from_chars(msg.as_slice()));
    }
    let streamed_rows = u64_or_zero_exec(get(metrics, "streamed_rows"));
    let parquet_rows = u64_or_zero_exec(get(metrics, "parquet_rows"));
    let output_format = string_of(get(get(root, "inputs"), "output_format"));
    let summary_only = match bool_of(get(metrics, "summary_only")) {
        Some(b) => b,
        None => false,
    };
    let fmt: Option<&str> = match &output_format {
        Some(f) => Some(f.as_str()),
        None => None,
    };
    let row_check = manifest_row_check_applies(fmt, summary_only);
    let run_status = match string_of(get(root, "status")) {
        Some(s) => s,
        None => owned("unknown"),
    };
    let exit_code = i64_of(get(root, "exit_code"));
    let artifacts = manifest_artifacts(doc);
    proof {
        assert forall|i: int|
            0 <= i < artifacts@.len() && verify_artifacts && currently_exists(
                #[trigger] artifacts@[i],
                states@[i],
            ) && parquet_check_needed(artifacts@[i]) implies states@[i].parquet is Some by {
            assert(artifact_matches(artifacts@[i], artifact_items(*doc)[i]));
        }
    }
    let checks = manifest_checks(
        run_status.as_str(),
        exit_code,
        u64_or_zero_exec(get(metrics, "fatal_errors")),
        u64_or_zero_exec(get(metrics, "output_errors")),
        fmt,
        summary_only,
        streamed_rows,
        parquet_rows,
        &artifacts,
        states,
        verify_artifacts,
    );
    let check_passed = count_checks(checks.as_slice(), "fail") == 0;
    let check = manifest_check_summary(check_passed, checks.as_slice(), artifacts.as_slice());
    let tops = items_of(get(metrics, "top_prefixes"));
    let mut top_prefixes: Vec<ManifestPrefixSummary> = Vec::new();
    let mut i: usize = 0;
    while i < tops.len()
        invariant
            i <= tops@.len(),
            top_prefixes@.len() == i,
            forall|k: int| 0 <= k < i ==> prefix_matches(#[trigger] top_prefixes@[k], tops@[k]),
        decreases tops@.len() - i,
    {
        let item = &tops[i];
        top_prefixes.push(
            ManifestPrefixSummary {
                prefix: string_or_empty(get(Some(item), "prefix")),
                objects: u64_or_zero_exec(get(Some(item), "objects")),
                bytes: u64_or_zero_exec(get(Some(item), "bytes")),
            },
        );
        i += 1;
    }
    let outs = get(root, "outputs");
    let outputs = ManifestOutputSummary {
        parquet_file: string_of(get(outs, "parquet_file")),
        ks_file: string_of(get(outs, "ks_file")),
        hints_file: string_of(get(outs, "hints_file")),
        trace_compat: string_of(get(outs, "trace_compat")),
        log_file: string_of(get(outs, "log_file")),
    };
    proof {
        reveal_strlit("manifest '");
        reveal_strlit("' does not contain metrics");
    }
    Ok(
        ManifestSummary {
            manifest_file: owned(path),
            tool_version: string_of(get(root, "tool_version")),
            run_status,
            exit_code,
            command: strings_of(get(root, "command")),
            output_format,
            summary_only,
            received_objects: u64_or_zero_exec(get(metrics, "received_objects")),
            streamed_rows,
            parquet_rows,
            ks_entries: u64_or_zero_exec(get(metrics, "ks_entries")),
            bytes_total: u64_or_zero_exec(get(metrics, "bytes_total")),
            unique_prefixes: u64_or_zero_exec(get(metrics, "unique_prefixes")),
            parquet_rows_match_streamed_rows: if row_check {
                Some(streamed_rows == parquet_rows)
            } else {
                None
            },
            top_prefixes,
            outputs,
            artifacts,
            warnings: strings_of(get(root, "warnings")),
            check_passed,
            check,
            checks,
        },
    )
}

} // verus!
