//! Local tools that never contact an endpoint: the checks of a saved run
//! manifest against the artifacts on disk, the starter configuration, and
//! the guidance texts.
use crate::text::{
    append_str, owned, push_dec, push_idec64, str_chars, str_eq, string_from_chars, strings_view,
    idec, dec, starts_with,
};
use vstd::prelude::*;

verus! {

// ── Manifest checks ────────────────────────────────────────

#[derive(Debug, Clone)]
pub struct ManifestPrefixSummary {
    pub prefix: String,
    pub objects: u64,
    pub bytes: u64,
}

#[derive(Debug, Clone)]
pub struct ManifestOutputSummary {
    pub parquet_file: Option<String>,
    pub ks_file: Option<String>,
    pub hints_file: Option<String>,
    pub trace_compat: Option<String>,
    pub log_file: Option<String>,
}

/// An artifact as the manifest recorded it.
#[derive(Debug, Clone)]
pub struct ManifestArtifactSummary {
    pub kind: String,
    pub path: String,
    pub exists: bool,
    pub size_bytes: Option<u64>,
    pub sha256: Option<String>,
    pub parquet_row_count: Option<i64>,
    pub parquet_schema_fields: Vec<String>,
}

#[derive(Debug, Clone)]
pub struct ManifestCheck {
    pub name: String,
    pub status: String,
    pub message: String,
}

#[derive(Debug, Clone)]
pub struct ManifestCheckSummary {
    pub ok: bool,
    pub errors: usize,
    pub warnings: usize,
    pub skipped: usize,
    pub artifacts_checked: usize,
    pub artifacts_missing: usize,
    pub row_check: String,
    pub parquet_schema_check: String,
    pub exit_code_check: String,
}

/// The Parquet metadata of an artifact as it is read now.
#[derive(Debug, Clone)]
pub struct CurrentParquetSummary {
    pub row_count: i64,
    pub schema_fields: Vec<String>,
}

/// What is read of an artifact's file now: whether it exists, its size and
/// SHA-256 where they could be read, and its Parquet metadata (or the read
/// error) where it was read.
#[derive(Debug, Clone)]
pub struct ArtifactFileState {
    pub exists: bool,
    pub size_bytes: Option<u64>,
    pub sha256: Option<String>,
    pub parquet: Option<Result<CurrentParquetSummary, String>>,
}

pub type MCheckV = (Seq<char>, Seq<char>, Seq<char>);

pub open spec fn mcheck_view(c: ManifestCheck) -> MCheckV {
    (c.name@, c.status@, c.message@)
}

pub open spec fn mchecks_view(v: Seq<ManifestCheck>) -> Seq<MCheckV> {
    Seq::new(v.len(), |i: int| mcheck_view(v[i]))
}

pub open spec fn ok_fail(b: bool) -> Seq<char> {
    if b {
        "ok"@
    } else {
        "fail"@
    }
}

pub open spec fn bool_text(b: bool) -> Seq<char> {
    if b {
        "true"@
    } else {
        "false"@
    }
}

/// The row check applies to Parquet output (the default format) of a run
/// that was not summary-only.
pub open spec fn row_check_applies(output_format: Option<Seq<char>>, summary_only: bool) -> bool {
    !summary_only && match output_format {
        Some(f) => f == "parquet"@,
        None => true,
    }
}

pub open spec fn opt_v(o: Option<&str>) -> Option<Seq<char>> {
    match o {
        Some(s) => Some(s@),
        None => None,
    }
}

/// The checks of the run itself: status, exit code and error counters.
pub open spec fn run_checks(
    run_status: Seq<char>,
    exit_code: Option<i64>,
    fatal_errors: u64,
    output_errors: u64,
) -> Seq<MCheckV> {
    seq![
        ("run_status"@, ok_fail(run_status == "success"@), "manifest status is "@ + run_status),
        (
            "exit_code"@,
            ok_fail(exit_code == Some(0i64)),
            "manifest exit_code is "@ + match exit_code {
                Some(c) => idec(c as int),
                None => "missing"@,
            },
        ),
        (
            "fatal_errors"@,
            ok_fail(fatal_errors == 0),
            "metrics.fatal_errors is "@ + dec(fatal_errors as nat),
        ),
        (
            "output_errors"@,
            ok_fail(output_errors == 0),
            "metrics.output_errors is "@ + dec(output_errors as nat),
        ),
    ]
}

pub open spec fn not_applicable_label(output_format: Option<Seq<char>>, summary_only: bool) -> Seq<
    char,
> {
    if summary_only {
        "summary-only"@
    } else {
        match output_format {
            Some(f) => f,
            None => "unknown"@,
        }
    }
}

pub open spec fn row_checks(
    output_format: Option<Seq<char>>,
    summary_only: bool,
    streamed_rows: u64,
    parquet_rows: u64,
) -> Seq<MCheckV> {
    if row_check_applies(output_format, summary_only) {
        seq![
            (
                "parquet_rows_match_streamed_rows"@,
                ok_fail(parquet_rows == streamed_rows),
                "parquet_rows="@ + dec(parquet_rows as nat) + " streamed_rows="@ + dec(
                    streamed_rows as nat,
                ),
            ),
        ]
    } else {
        let label = not_applicable_label(output_format, summary_only);
        seq![
            (
                "parquet_rows_match_streamed_rows"@,
                "skip"@,
                "row check is not applicable for "@ + label + " output"@,
            ),
            (
                "artifact_parquet_metadata:parquet"@,
                "skip"@,
                "Parquet row and schema metadata checks are not applicable for "@ + label
                    + " output; recorded artifact existence, size, and sha256 checks still apply when artifacts are present"@,
            ),
        ]
    }
}

/// The text `{:?}` gives of a list of strings.
pub uninterp spec fn debug_list(v: Seq<Seq<char>>) -> Seq<char>;

pub open spec fn opt_string_v(o: Option<String>) -> Option<Seq<char>> {
    match o {
        Some(s) => Some(s@),
        None => None,
    }
}

/// Whether the file exists now; an empty recorded path never does.
pub open spec fn currently_exists(a: ManifestArtifactSummary, s: ArtifactFileState) -> bool {
    a.path@.len() > 0 && s.exists
}

/// A Parquet artifact with recorded row count or schema is checked
/// against its current metadata.
pub open spec fn parquet_check_needed(a: ManifestArtifactSummary) -> bool {
    a.kind@ == "parquet"@ && (a.parquet_row_count is Some || a.parquet_schema_fields.len() > 0)
}

pub open spec fn size_checks(a: ManifestArtifactSummary, s: ArtifactFileState) -> Seq<MCheckV> {
    match a.size_bytes {
        Some(rs) => seq![
            (
                "artifact_size:"@ + a.kind@,
                ok_fail(s.size_bytes == Some(rs)),
                a.path@ + " recorded_size="@ + dec(rs as nat) + " current_size="@
                    + match s.size_bytes {
                    Some(c) => dec(c as nat),
                    None => "missing"@,
                },
            ),
        ],
        None => Seq::empty(),
    }
}

pub open spec fn sha_checks(a: ManifestArtifactSummary, s: ArtifactFileState) -> Seq<MCheckV> {
    match a.sha256 {
        Some(rh) => seq![
            (
                "artifact_sha256:"@ + a.kind@,
                ok_fail(opt_string_v(s.sha256) == Some(rh@)),
                a.path@ + " recorded_sha256="@ + rh@ + " current_sha256="@ + match s.sha256 {
                    Some(c) => c@,
                    None => "unavailable"@,
                },
            ),
        ],
        None => Seq::empty(),
    }
}

pub open spec fn parquet_checks(a: ManifestArtifactSummary, s: ArtifactFileState) -> Seq<MCheckV> {
    if parquet_check_needed(a) {
        match s.parquet {
            Some(Ok(c)) => (match a.parquet_row_count {
                Some(rr) => seq![
                    (
                        "artifact_parquet_rows:parquet"@,
                        ok_fail(c.row_count == rr),
                        a.path@ + " recorded_rows="@ + idec(rr as int) + " current_rows="@ + idec(
                            c.row_count as int,
                        ),
                    ),
                ],
                None => Seq::empty(),
            }) + (if a.parquet_schema_fields.len() > 0 {
                seq![
                    (
                        "artifact_parquet_schema:parquet"@,
                        ok_fail(
                            strings_view(c.schema_fields@) == strings_view(
                                a.parquet_schema_fields@,
                            ),
                        ),
                        a.path@ + " recorded_schema="@ + debug_list(
                            strings_view(a.parquet_schema_fields@),
                        ) + " current_schema="@ + debug_list(strings_view(c.schema_fields@)),
                    ),
                ]
            } else {
                Seq::empty()
            }),
            Some(Err(e)) => seq![
                (
                    "artifact_parquet_metadata:parquet"@,
                    "fail"@,
                    a.path@ + " metadata read failed: "@ + e@,
                ),
            ],
            None => Seq::empty(),
        }
    } else {
        Seq::empty()
    }
}

/// The checks of one recorded artifact: it exists now; when artifacts are
/// verified and it exists, its size, hash and Parquet metadata match the
/// record.
pub open spec fn artifact_checks(a: ManifestArtifactSummary, s: ArtifactFileState, verify: bool) -> Seq<
    MCheckV,
> {
    let cur = currently_exists(a, s);
    seq![
        (
            "artifact_exists:"@ + a.kind@,
            ok_fail(cur),
            a.path@ + " recorded_exists="@ + bool_text(a.exists) + " current_exists="@ + bool_text(
                cur,
            ),
        ),
    ] + if !verify || !cur {
        Seq::empty()
    } else {
        size_checks(a, s) + sha_checks(a, s) + parquet_checks(a, s)
    }
}

pub open spec fn all_artifact_checks(
    arts: Seq<ManifestArtifactSummary>,
    states: Seq<ArtifactFileState>,
    verify: bool,
) -> Seq<MCheckV>
    decreases arts.len(),
{
    if arts.len() == 0 {
        Seq::empty()
    } else {
        all_artifact_checks(arts.drop_last(), states.take(arts.len() - 1), verify)
            + artifact_checks(arts.last(), states[arts.len() - 1], verify)
    }
}

/// The checks of a manifest, in order.
pub open spec fn manifest_checks_spec(
    run_status: Seq<char>,
    exit_code: Option<i64>,
    fatal_errors: u64,
    output_errors: u64,
    output_format: Option<Seq<char>>,
    summary_only: bool,
    streamed_rows: u64,
    parquet_rows: u64,
    arts: Seq<ManifestArtifactSummary>,
    states: Seq<ArtifactFileState>,
    verify: bool,
) -> Seq<MCheckV> {
    run_checks(run_status, exit_code, fatal_errors, output_errors) + row_checks(
        output_format,
        summary_only,
        streamed_rows,
        parquet_rows,
    ) + all_artifact_checks(arts, states, verify)
}

#[verifier::external_body]
fn debug_strings(v: &Vec<String>) -> (r: String)
    ensures
        r@ == debug_list(strings_view(v@)),
{
    format!("{:?}", v)
}

fn push_mcheck(checks: &mut Vec<ManifestCheck>, name: String, status: &str, message: Vec<char>)
    ensures
        mchecks_view(final(checks)@) == mchecks_view(old(checks)@).push(
            (name@, status@, message@),
        ),
{
    checks.push(
        ManifestCheck { name, status: owned(status), message: string_from_chars(message.as_slice()) },
    );
    assert(mchecks_view(checks@) =~= mchecks_view(old(checks)@).push((name@, status@, message@)));
}

fn ok_fail_str(b: bool) -> (r: &'static str)
    ensures
        r@ == ok_fail(b),
{
    if b {
        "ok"
    } else {
        "fail"
    }
}

fn bool_str(b: bool) -> (r: &'static str)
    ensures
        r@ == bool_text(b),
{
    if b {
        "true"
    } else {
        "false"
    }
}

fn prefixed(p: &str, s: &str) -> (r: String)
    ensures
        r@ == p@ + s@,
{
    let mut v: Vec<char> = Vec::new();
    append_str(&mut v, p);
    append_str(&mut v, s);
    string_from_chars(v.as_slice())
}

fn strings_equal(a: &Vec<String>, b: &Vec<String>) -> (r: bool)
    ensures
        r == (strings_view(a@) == strings_view(b@)),
{
    if a.len() != b.len() {
        proof {
            assert(strings_view(a@).len() != strings_view(b@).len());
        }
        return false;
    }
    let mut i: usize = 0;
    while i < a.len()
        invariant
            a.len() == b.len(),
            i <= a.len(),
            forall|k: int| 0 <= k < i ==> a@[k]@ == b@[k]@,
        decreases a.len() - i,
    {
        if !str_eq(a[i].as_str(), b[i].as_str()) {
            proof {
                assert(strings_view(a@)[i as int] != strings_view(b@)[i as int]);
            }
            return false;
        }
        i += 1;
    }
    proof {
        assert(strings_view(a@) =~= strings_view(b@));
    }
    true
}

fn run_checks_exec(
    checks: &mut Vec<ManifestCheck>,
    run_status: &str,
    exit_code: Option<i64>,
    fatal_errors: u64,
    output_errors: u64,
)
    ensures
        mchecks_view(final(checks)@) == mchecks_view(old(checks)@) + run_checks(
            run_status@,
            exit_code,
            fatal_errors,
            output_errors,
        ),
{
    let ghost start = mchecks_view(checks@);
    let mut m: Vec<char> = Vec::new();
    append_str(&mut m, "manifest status is ");
    append_str(&mut m, run_status);
    push_mcheck(checks, owned("run_status"), ok_fail_str(str_eq(run_status, "success")), m);
    let mut m: Vec<char> = Vec::new();
    append_str(&mut m, "manifest exit_code is ");
    match exit_code {
        Some(c) => push_idec64(&mut m, c),
        None => append_str(&mut m, "missing"),
    }
    let is_zero = match exit_code {
        Some(c) => c == 0,
        None => false,
    };
    push_mcheck(checks, owned("exit_code"), ok_fail_str(is_zero), m);
    let mut m: Vec<char> = Vec::new();
    append_str(&mut m, "metrics.fatal_errors is ");
    push_dec(&mut m, fatal_errors);
    push_mcheck(checks, owned("fatal_errors"), ok_fail_str(fatal_errors == 0), m);
    let mut m: Vec<char> = Vec::new();
    append_str(&mut m, "metrics.output_errors is ");
    push_dec(&mut m, output_errors);
    push_mcheck(checks, owned("output_errors"), ok_fail_str(output_errors == 0), m);
    assert(mchecks_view(checks@) =~= start + run_checks(
        run_status@,
        exit_code,
        fatal_errors,
        output_errors,
    ));
}

/// Whether the row check applies: not for summary-only runs, and only for
/// Parquet output, which is the default.
pub fn manifest_row_check_applies(output_format: Option<&str>, summary_only: bool) -> (r: bool)
    ensures
        r == row_check_applies(opt_v(output_format), summary_only),
{
    if summary_only {
        return false;
    }
    match output_format {
        Some(f) => str_eq(f, "parquet"),
        None => true,
    }
}

fn row_checks_exec(
    checks: &mut Vec<ManifestCheck>,
    output_format: Option<&str>,
    summary_only: bool,
    streamed_rows: u64,
    parquet_rows: u64,
)
    ensures
        mchecks_view(final(checks)@) == mchecks_view(old(checks)@) + row_checks(
            opt_v(output_format),
            summary_only,
            streamed_rows,
            parquet_rows,
        ),
{
    let ghost start = mchecks_view(checks@);
    if manifest_row_check_applies(output_format, summary_only) {
        let mut m: Vec<char> = Vec::new();
        append_str(&mut m, "parquet_rows=");
        push_dec(&mut m, parquet_rows);
        append_str(&mut m, " streamed_rows=");
        push_dec(&mut m, streamed_rows);
        push_mcheck(
            checks,
            owned("parquet_rows_match_streamed_rows"),
            ok_fail_str(parquet_rows == streamed_rows),
            m,
        );
    } else {
        let label = if summary_only {
            "summary-only"
        } else {
            match output_format {
                Some(f) => f,
                None => "unknown",
            }
        };
        let mut m: Vec<char> = Vec::new();
        append_str(&mut m, "row check is not applicable for ");
        append_str(&mut m, label);
        append_str(&mut m, " output");
        push_mcheck(checks, owned("parquet_rows_match_streamed_rows"), "skip", m);
        let mut m: Vec<char> = Vec::new();
        append_str(&mut m, "Parquet row and schema metadata checks are not applicable for ");
        append_str(&mut m, label);
        append_str(
            &mut m,
            " output; recorded artifact existence, size, and sha256 checks still apply when artifacts are present",
        );
        push_mcheck(checks, owned("artifact_parquet_metadata:parquet"), "skip", m);
    }
    assert(mchecks_view(checks@) =~= start + row_checks(
        opt_v(output_format),
        summary_only,
        streamed_rows,
        parquet_rows,
    ));
}

fn size_checks_exec(checks: &mut Vec<ManifestCheck>, a: &ManifestArtifactSummary, s: &ArtifactFileState)
    ensures
        mchecks_view(final(checks)@) == mchecks_view(old(checks)@) + size_checks(*a, *s),
{
    let ghost start = mchecks_view(checks@);
    match a.size_bytes {
        Some(rs) => {
            let mut m: Vec<char> = Vec::new();
            append_str(&mut m, a.path.as_str());
            append_str(&mut m, " recorded_size=");
            push_dec(&mut m, rs);
            append_str(&mut m, " current_size=");
            match s.size_bytes {
                Some(c) => push_dec(&mut m, c),
                None => append_str(&mut m, "missing"),
            }
            let same = match s.size_bytes {
                Some(c) => c == rs,
                None => false,
            };
            push_mcheck(checks, prefixed("artifact_size:", a.kind.as_str()), ok_fail_str(same), m);
        },
        None => {},
    }
    assert(mchecks_view(checks@) =~= start + size_checks(*a, *s));
}

fn sha_checks_exec(checks: &mut Vec<ManifestCheck>, a: &ManifestArtifactSummary, s: &ArtifactFileState)
    ensures
        mchecks_view(final(checks)@) == mchecks_view(old(checks)@) + sha_checks(*a, *s),
{
    let ghost start = mchecks_view(checks@);
    match &a.sha256 {
        Some(rh) => {
            let mut m: Vec<char> = Vec::new();
            append_str(&mut m, a.path.as_str());
            append_str(&mut m, " recorded_sha256=");
            append_str(&mut m, rh.as_str());
            append_str(&mut m, " current_sha256=");
            let same = match &s.sha256 {
                Some(c) => {
                    append_str(&mut m, c.as_str());
                    str_eq(c.as_str(), rh.as_str())
                },
                None => {
                    append_str(&mut m, "unavailable");
                    false
                },
            };
            push_mcheck(checks, prefixed("artifact_sha256:", a.kind.as_str()), ok_fail_str(same), m);
        },
        None => {},
    }
    assert(mchecks_view(checks@) =~= start + sha_checks(*a, *s));
}

fn parquet_checks_exec(
    checks: &mut Vec<ManifestCheck>,
    a: &ManifestArtifactSummary,
    s: &ArtifactFileState,
)
    requires
        parquet_check_needed(*a) ==> s.parquet is Some,
    ensures
        mchecks_view(final(checks)@) == mchecks_view(old(checks)@) + parquet_checks(*a, *s),
{
    let ghost start = mchecks_view(checks@);
    let needed = str_eq(a.kind.as_str(), "parquet") && (a.parquet_row_count.is_some()
        || a.parquet_schema_fields.len() > 0);
    if needed {
        match &s.parquet {
            Some(Ok(c)) => {
                match a.parquet_row_count {
                    Some(rr) => {
                        let mut m: Vec<char> = Vec::new();
                        append_str(&mut m, a.path.as_str());
                        append_str(&mut m, " recorded_rows=");
                        push_idec64(&mut m, rr);
                        append_str(&mut m, " current_rows=");
                        push_idec64(&mut m, c.row_count);
                        push_mcheck(
                            checks,
                            owned("artifact_parquet_rows:parquet"),
                            ok_fail_str(c.row_count == rr),
                            m,
                        );
                    },
                    None => {},
                }
                let ghost mid = mchecks_view(checks@);
                if a.parquet_schema_fields.len() > 0 {
                    let mut m: Vec<char> = Vec::new();
                    append_str(&mut m, a.path.as_str());
                    append_str(&mut m, " recorded_schema=");
                    let rec = debug_strings(&a.parquet_schema_fields);
                    append_str(&mut m, rec.as_str());
                    append_str(&mut m, " current_schema=");
                    let cur = debug_strings(&c.schema_fields);
                    append_str(&mut m, cur.as_str());
                    push_mcheck(
                        checks,
                        owned("artifact_parquet_schema:parquet"),
                        ok_fail_str(strings_equal(&c.schema_fields, &a.parquet_schema_fields)),
                        m,
                    );
                }
                assert(mchecks_view(checks@) =~= start + parquet_checks(*a, *s));
            },
            Some(Err(e)) => {
                let mut m: Vec<char> = Vec::new();
                append_str(&mut m, a.path.as_str());
                append_str(&mut m, " metadata read failed: ");
                append_str(&mut m, e.as_str());
                push_mcheck(checks, owned("artifact_parquet_metadata:parquet"), "fail", m);
                assert(mchecks_view(checks@) =~= start + parquet_checks(*a, *s));
            },
            None => {},
        }
    } else {
        assert(mchecks_view(checks@) =~= start + parquet_checks(*a, *s));
    }
}

fn artifact_checks_exec(
    checks: &mut Vec<ManifestCheck>,
    a: &ManifestArtifactSummary,
    s: &ArtifactFileState,
    verify: bool,
)
    requires
        verify && currently_exists(*a, *s) && parquet_check_needed(*a) ==> s.parquet is Some,
    ensures
        mchecks_view(final(checks)@) == mchecks_view(old(checks)@) + artifact_checks(*a, *s, verify),
{
    let ghost start = mchecks_view(checks@);
    let cur = str_chars(a.path.as_str()).len() > 0 && s.exists;
    let mut m: Vec<char> = Vec::new();
    append_str(&mut m, a.path.as_str());
    append_str(&mut m, " recorded_exists=");
    append_str(&mut m, bool_str(a.exists));
    append_str(&mut m, " current_exists=");
    append_str(&mut m, bool_str(cur));
    push_mcheck(checks, prefixed("artifact_exists:", a.kind.as_str()), ok_fail_str(cur), m);
    let ghost first = mchecks_view(checks@);
    if verify && cur {
        size_checks_exec(checks, a, s);
        sha_checks_exec(checks, a, s);
        parquet_checks_exec(checks, a, s);
    }
    assert(mchecks_view(checks@) =~= start + artifact_checks(*a, *s, verify));
}

/// The checks of a saved run manifest: the run's status, exit code and
/// error counters; the row check (or why it does not apply); and, for each
/// recorded artifact, whether it exists now and, when `verify_artifacts`,
/// whether its size, hash and Parquet metadata still match. `states[i]` is
/// what was read of the `i`-th artifact's file.
pub fn manifest_checks(
    run_status: &str,
    exit_code: Option<i64>,
    fatal_errors: u64,
    output_errors: u64,
    output_format: Option<&str>,
    summary_only: bool,
    streamed_rows: u64,
    parquet_rows: u64,
    artifacts: &Vec<ManifestArtifactSummary>,
    states: &Vec<ArtifactFileState>,
    verify_artifacts: bool,
) -> (r: Vec<ManifestCheck>)
    requires
        states.len() == artifacts.len(),
        forall|i: int|
            0 <= i < artifacts.len() && verify_artifacts && currently_exists(
                #[trigger] artifacts@[i],
                states@[i],
            ) && parquet_check_needed(artifacts@[i]) ==> states@[i].parquet is Some,
    ensures
        mchecks_view(r@) == manifest_checks_spec(
            run_status@,
            exit_code,
            fatal_errors,
            output_errors,
            opt_v(output_format),
            summary_only,
            streamed_rows,
            parquet_rows,
            artifacts@,
            states@,
            verify_artifacts,
        ),
{
    let mut checks: Vec<ManifestCheck> = Vec::new();
    run_checks_exec(&mut checks, run_status, exit_code, fatal_errors, output_errors);
    row_checks_exec(&mut checks, output_format, summary_only, streamed_rows, parquet_rows);
    let ghost head = mchecks_view(checks@);
    let mut i: usize = 0;
    while i < artifacts.len()
        invariant
            i <= artifacts.len(),
            states.len() == artifacts.len(),
            forall|j: int|
                0 <= j < artifacts.len() && verify_artifacts && currently_exists(
                    #[trigger] artifacts@[j],
                    states@[j],
                ) && parquet_check_needed(artifacts@[j]) ==> states@[j].parquet is Some,
            mchecks_view(checks@) == head + all_artifact_checks(
                artifacts@.take(i as int),
                states@.take(i as int),
                verify_artifacts,
            ),
        decreases artifacts.len() - i,
    {
        artifact_checks_exec(&mut checks, &artifacts[i], &states[i], verify_artifacts);
        proof {
            let an = artifacts@.take(i + 1);
            let sn = states@.take(i + 1);
            assert(an.drop_last() =~= artifacts@.take(i as int));
            assert(sn.take(an.len() - 1) =~= states@.take(i as int));
            assert(an.last() == artifacts@[i as int]);
            assert(sn[an.len() - 1] == states@[i as int]);
        }
        i += 1;
    }
    proof {
        assert(artifacts@.take(artifacts.len() as int) =~= artifacts@);
        assert(states@.take(artifacts.len() as int) =~= states@);
    }
    checks
}

// ── Check summary ──────────────────────────────────────────

pub open spec fn count_status(cs: Seq<MCheckV>, status: Seq<char>) -> nat
    decreases cs.len(),
{
    if cs.len() == 0 {
        0
    } else {
        count_status(cs.drop_last(), status) + if cs.last().1 == status {
            1nat
        } else {
            0nat
        }
    }
}

pub open spec fn count_missing(cs: Seq<MCheckV>) -> nat
    decreases cs.len(),
{
    if cs.len() == 0 {
        0
    } else {
        count_missing(cs.drop_last()) + if starts_with(cs.last().0, "artifact_exists:"@)
            && cs.last().1 == "fail"@ {
            1nat
        } else {
            0nat
        }
    }
}

pub open spec fn normalize_status(s: Seq<char>) -> Seq<char> {
    if s == "skip"@ {
        "not_applicable"@
    } else {
        s
    }
}

/// The normalized status of the first check of that name, or
/// `not_applicable` when there is none.
pub open spec fn check_status_of(cs: Seq<MCheckV>, name: Seq<char>) -> Seq<char>
    decreases cs.len(),
{
    if cs.len() == 0 {
        "not_applicable"@
    } else if cs[0].0 == name {
        normalize_status(cs[0].1)
    } else {
        check_status_of(cs.drop_first(), name)
    }
}

pub fn normalize_check_status(status: &str) -> (r: String)
    ensures
        r@ == normalize_status(status@),
{
    if str_eq(status, "skip") {
        owned("not_applicable")
    } else {
        owned(status)
    }
}

pub fn manifest_check_status(checks: &[ManifestCheck], name: &str) -> (r: String)
    ensures
        r@ == check_status_of(mchecks_view(checks@), name@),
{
    let ghost cs = mchecks_view(checks@);
    assert(cs.skip(0) =~= cs);
    let mut i: usize = 0;
    while i < checks.len()
        invariant
            i <= checks.len(),
            cs == mchecks_view(checks@),
            check_status_of(cs, name@) == check_status_of(cs.skip(i as int), name@),
        decreases checks.len() - i,
    {
        assert(cs.skip(i as int)[0] == mcheck_view(checks@[i as int]));
        if str_eq(checks[i].name.as_str(), name) {
            return normalize_check_status(checks[i].status.as_str());
        }
        assert(cs.skip(i as int).drop_first() =~= cs.skip(i + 1));
        i += 1;
    }
    owned("not_applicable")
}

pub(crate) fn count_checks(checks: &[ManifestCheck], status: &str) -> (r: usize)
    ensures
        r == count_status(mchecks_view(checks@), status@),
{
    let ghost cs = mchecks_view(checks@);
    let mut n: usize = 0;
    let mut i: usize = 0;
    while i < checks.len()
        invariant
            i <= checks.len(),
            cs == mchecks_view(checks@),
            n == count_status(cs.take(i as int), status@),
            n <= i,
        decreases checks.len() - i,
    {
        assert(cs.take(i + 1).drop_last() =~= cs.take(i as int));
        if str_eq(checks[i].status.as_str(), status) {
            n += 1;
        }
        i += 1;
    }
    assert(cs.take(checks.len() as int) =~= cs);
    n
}

fn count_missing_checks(checks: &[ManifestCheck]) -> (r: usize)
    ensures
        r == count_missing(mchecks_view(checks@)),
{
    let ghost cs = mchecks_view(checks@);
    let mut n: usize = 0;
    let mut i: usize = 0;
    while i < checks.len()
        invariant
            i <= checks.len(),
            cs == mchecks_view(checks@),
            n == count_missing(cs.take(i as int)),
            n <= i,
        decreases checks.len() - i,
    {
        assert(cs.take(i + 1).drop_last() =~= cs.take(i as int));
        let name = str_chars(checks[i].name.as_str());
        let prefix = str_chars("artifact_exists:");
        if crate::text::starts_with_exec(name.as_slice(), prefix.as_slice()) && str_eq(
            checks[i].status.as_str(),
            "fail",
        ) {
            n += 1;
        }
        i += 1;
    }
    assert(cs.take(checks.len() as int) =~= cs);
    n
}

/// The summary of a manifest's checks.
pub fn manifest_check_summary(
    check_passed: bool,
    checks: &[ManifestCheck],
    artifacts: &[ManifestArtifactSummary],
) -> (r: ManifestCheckSummary)
    ensures
        r.ok == check_passed,
        r.errors == count_status(mchecks_view(checks@), "fail"@),
        r.warnings == count_status(mchecks_view(checks@), "warn"@),
        r.skipped == count_status(mchecks_view(checks@), "skip"@),
        r.artifacts_checked == artifacts.len(),
        r.artifacts_missing == count_missing(mchecks_view(checks@)),
        r.row_check@ == check_status_of(mchecks_view(checks@), "parquet_rows_match_streamed_rows"@),
        r.parquet_schema_check@ == check_status_of(
            mchecks_view(checks@),
            "artifact_parquet_schema:parquet"@,
        ),
        r.exit_code_check@ == check_status_of(mchecks_view(checks@), "exit_code"@),
{
    ManifestCheckSummary {
        ok: check_passed,
        errors: count_checks(checks, "fail"),
        warnings: count_checks(checks, "warn"),
        skipped: count_checks(checks, "skip"),
        artifacts_checked: artifacts.len(),
        artifacts_missing: count_missing_checks(checks),
        row_check: manifest_check_status(checks, "parquet_rows_match_streamed_rows"),
        parquet_schema_check: manifest_check_status(checks, "artifact_parquet_schema:parquet"),
        exit_code_check: manifest_check_status(checks, "exit_code"),
    }
}

/// A manifest passes its checks when none failed.
pub fn checks_passed(checks: &[ManifestCheck]) -> (r: bool)
    ensures
        r == (count_status(mchecks_view(checks@), "fail"@) == 0),
{
    count_checks(checks, "fail") == 0
}


// ── Starter configuration ──────────────────────────────────

#[derive(Debug, Clone)]
pub struct InitConfigReport {
    pub status: String,
    pub profile: String,
    pub output: String,
    pub output_written: bool,
    pub overwrite: bool,
    pub warnings: Vec<String>,
}

/// The warnings given when a starter configuration is written for a
/// profile.
pub open spec fn init_warnings_spec(profile: Seq<char>) -> Seq<Seq<char>> {
    if profile == "bos"@ {
        seq![
            "BOS profile is a compatibility preset; it does not enable BOS pagination workarounds"@,
        ]
    } else if profile == "oss"@ || profile == "r2"@ || profile == "b2"@ {
        seq![
            profile
                + " profile is documented but should be validated with compat-probe before production use"@,
        ]
    } else {
        Seq::empty()
    }
}

pub fn init_config_warnings(profile: &str) -> (r: Vec<String>)
    ensures
        strings_view(r@) == init_warnings_spec(profile@),
{
    let mut out: Vec<String> = Vec::new();
    if str_eq(profile, "bos") {
        out.push(
            owned(
                "BOS profile is a compatibility preset; it does not enable BOS pagination workarounds",
            ),
        );
    } else if str_eq(profile, "oss") || str_eq(profile, "r2") || str_eq(profile, "b2") {
        out.push(
            prefixed(
                profile,
                " profile is documented but should be validated with compat-probe before production use",
            ),
        );
    }
    assert(strings_view(out@) =~= init_warnings_spec(profile@));
    out
}

/// The endpoint a starter configuration suggests for a profile; empty for
/// AWS and unknown profiles.
pub open spec fn template_endpoint(profile: Seq<char>) -> Option<Seq<char>> {
    if profile == "minio"@ {
        Some("http://127.0.0.1:9000"@)
    } else if profile == "r2"@ {
        Some("https://<account-id>.r2.cloudflarestorage.com"@)
    } else if profile == "b2"@ {
        Some("https://s3.<region>.backblazeb2.com"@)
    } else if profile == "oss"@ {
        Some("https://oss-<region>.aliyuncs.com"@)
    } else if profile == "bos"@ {
        Some("https://s3.<region>.bcebos.com"@)
    } else {
        None
    }
}

/// The addressing style a starter configuration sets: the profile's
/// recommended one, or `auto` for an unknown profile.
pub open spec fn template_style(profile: Seq<char>) -> crate::config::AddressingStyle {
    let i = crate::profiles::profile_index(profile);
    if i >= 0 {
        crate::profiles::profile_style(i)
    } else {
        crate::config::AddressingStyle::Auto
    }
}

pub const INIT_CONFIG_HEAD: &'static str = "# s3-turbo-list local config\n# AWS credentials are selected with AWS_PROFILE or the standard AWS SDK chain.\n# The s3-turbo-list `profile` below is an endpoint compatibility profile.\n\n[runtime]\nmax_concurrency = 100\n\n[s3]\n";

pub const INIT_CONFIG_TAIL: &'static str = "\nmax_attempts = 10\ninitial_backoff_secs = 1\nconnect_timeout_secs = 60\noperation_timeout_secs = 5\n\n[output]\nrow_group_size = 100000\ncompression = \"zstd\"\ncompression_level = 1\n\n[channel]\ncapacity = 64\n";

pub open spec fn template_endpoint_line(profile: Seq<char>) -> Seq<char> {
    match template_endpoint(profile) {
        Some(e) => "endpoint_url = \""@ + e + "\""@,
        None => "# endpoint_url = \"https://s3.amazonaws.com\""@,
    }
}

pub open spec fn template_profile_line(profile: Seq<char>) -> Seq<char> {
    if profile == "aws"@ {
        "# profile = \"aws\""@
    } else {
        "profile = \""@ + profile + "\""@
    }
}

/// The text of a starter configuration for a profile.
pub open spec fn init_template_spec(profile: Seq<char>) -> Seq<char> {
    INIT_CONFIG_HEAD@ + template_endpoint_line(profile) + "\n"@ + template_profile_line(profile)
        + "\naddressing_style = \""@ + crate::config::style_name(template_style(profile))
        + "\"\nforce_path_style = "@ + bool_text(
        template_style(profile) == crate::config::AddressingStyle::Path,
    ) + INIT_CONFIG_TAIL@
}

pub fn init_config_template(profile: &str) -> (r: String)
    ensures
        r@ == init_template_spec(profile@),
{
    let endpoint: Option<&str> = if str_eq(profile, "minio") {
        Some("http://127.0.0.1:9000")
    } else if str_eq(profile, "r2") {
        Some("https://<account-id>.r2.cloudflarestorage.com")
    } else if str_eq(profile, "b2") {
        Some("https://s3.<region>.backblazeb2.com")
    } else if str_eq(profile, "oss") {
        Some("https://oss-<region>.aliyuncs.com")
    } else if str_eq(profile, "bos") {
        Some("https://s3.<region>.bcebos.com")
    } else {
        None
    };
    let style = match crate::profiles::get_profile(profile) {
        Some(p) => {
            proof {
                crate::profiles::lemma_profile_facts(p, crate::profiles::profile_index(profile@));
            }
            p.recommended_addressing_style
        },
        None => crate::config::AddressingStyle::Auto,
    };
    let force_path = match style {
        crate::config::AddressingStyle::Path => true,
        _ => false,
    };
    let mut out: Vec<char> = Vec::new();
    append_str(&mut out, INIT_CONFIG_HEAD);
    match endpoint {
        Some(e) => {
            append_str(&mut out, "endpoint_url = \"");
            append_str(&mut out, e);
            append_str(&mut out, "\"");
        },
        None => append_str(&mut out, "# endpoint_url = \"https://s3.amazonaws.com\""),
    }
    append_str(&mut out, "\n");
    if str_eq(profile, "aws") {
        append_str(&mut out, "# profile = \"aws\"");
    } else {
        append_str(&mut out, "profile = \"");
        append_str(&mut out, profile);
        append_str(&mut out, "\"");
    }
    append_str(&mut out, "\naddressing_style = \"");
    append_str(&mut out, style.as_str());
    append_str(&mut out, "\"\nforce_path_style = ");
    append_str(&mut out, bool_str(force_path));
    append_str(&mut out, INIT_CONFIG_TAIL);
    assert(out@ =~= init_template_spec(profile@));
    string_from_chars(out.as_slice())
}

/// Refuses to replace an existing file unless asked to.
pub fn ensure_can_write(path: &str, overwrite: bool, exists: bool) -> (r: Result<(), String>)
    ensures
        r is Err <==> (!overwrite && exists),
        r is Err ==> r->Err_0@ == "Output file exists: "@ + path@
            + "\nNext step:\n  choose a different --output\n  or pass --overwrite"@,
{
    if !overwrite && exists {
        return Err(
            prefixed_then(
                "Output file exists: ",
                path,
                "\nNext step:\n  choose a different --output\n  or pass --overwrite",
            ),
        );
    }
    Ok(())
}

fn prefixed_then(a: &str, b: &str, c: &str) -> (r: String)
    ensures
        r@ == a@ + b@ + c@,
{
    let mut v: Vec<char> = Vec::new();
    append_str(&mut v, a);
    append_str(&mut v, b);
    append_str(&mut v, c);
    string_from_chars(v.as_slice())
}

/// The report of writing a starter configuration for `profile` (AWS when
/// none), lower-cased, at `output`.
pub fn init_config_report(output: &str, profile: Option<&str>, overwrite: bool) -> (r:
    InitConfigReport)
    ensures
        r.status@ == "success"@,
        r.profile@ == crate::text::unicode_lowercase(
            match profile {
                Some(p) => p@,
                None => "aws"@,
            },
        ),
        r.output@ == output@,
        r.output_written,
        r.overwrite == overwrite,
        strings_view(r.warnings@) == init_warnings_spec(r.profile@),
{
    let name = match profile {
        Some(p) => crate::text::str_to_lowercase(p),
        None => crate::text::str_to_lowercase("aws"),
    };
    let warnings = init_config_warnings(name.as_str());
    InitConfigReport {
        status: owned("success"),
        profile: name,
        output: owned(output),
        output_written: true,
        overwrite,
        warnings,
    }
}

pub open spec fn bullet_lines(v: Seq<Seq<char>>) -> Seq<char>
    decreases v.len(),
{
    if v.len() == 0 {
        Seq::empty()
    } else {
        bullet_lines(v.drop_last()) + "    - "@ + v.last() + "\n"@
    }
}

/// The warnings and recommendations blocks of a text report.
pub open spec fn notes_text(warnings: Seq<Seq<char>>, recs: Seq<Seq<char>>) -> Seq<char> {
    (if warnings.len() > 0 {
        "  Warnings:\n"@ + bullet_lines(warnings)
    } else {
        Seq::empty()
    }) + (if recs.len() > 0 {
        "  Recommendations:\n"@ + bullet_lines(recs)
    } else {
        Seq::empty()
    })
}

fn append_bullets(out: &mut Vec<char>, items: &[String])
    ensures
        final(out)@ == old(out)@ + bullet_lines(strings_view(items@)),
{
    let ghost start = out@;
    let ghost v = strings_view(items@);
    let mut i: usize = 0;
    while i < items.len()
        invariant
            i <= items.len(),
            v == strings_view(items@),
            out@ == start + bullet_lines(v.take(i as int)),
        decreases items.len() - i,
    {
        append_str(out, "    - ");
        append_str(out, items[i].as_str());
        append_str(out, "\n");
        assert(v.take(i + 1).drop_last() =~= v.take(i as int));
        i += 1;
    }
    assert(v.take(items.len() as int) =~= v);
}

fn append_warnings_and_recommendations(out: &mut Vec<char>, warnings: &[String], recs: &[String])
    ensures
        final(out)@ == old(out)@ + notes_text(strings_view(warnings@), strings_view(recs@)),
{
    let ghost start = out@;
    if warnings.len() > 0 {
        append_str(out, "  Warnings:\n");
        append_bullets(out, warnings);
    }
    let ghost mid = out@;
    if recs.len() > 0 {
        append_str(out, "  Recommendations:\n");
        append_bullets(out, recs);
    }
    assert(out@ =~= start + notes_text(strings_view(warnings@), strings_view(recs@)));
}

/// The text report of writing a starter configuration.
pub open spec fn init_text_spec(profile: Seq<char>, output: Seq<char>, warnings: Seq<Seq<char>>) -> Seq<
    char,
> {
    "Config initialized:\n  Profile:         "@ + profile + "\n  Output:          "@ + output
        + "\nNext:\n  s3-turbo-list doctor --simple\n  s3-turbo-list --dry-run --agent --config "@
        + output
        + " --output-dir out --delimiter '' list --bucket my-bucket --region us-east-1\n"@
        + notes_text(warnings, Seq::empty())
}

pub fn render_init_config_text(report: &InitConfigReport) -> (r: String)
    ensures
        r@ == init_text_spec(report.profile@, report.output@, strings_view(report.warnings@)),
{
    let mut out: Vec<char> = Vec::new();
    append_str(&mut out, "Config initialized:\n");
    append_str(&mut out, "  Profile:         ");
    append_str(&mut out, report.profile.as_str());
    append_str(&mut out, "\n");
    append_str(&mut out, "  Output:          ");
    append_str(&mut out, report.output.as_str());
    append_str(&mut out, "\n");
    append_str(&mut out, "Next:\n");
    append_str(&mut out, "  s3-turbo-list doctor --simple\n");
    append_str(&mut out, "  s3-turbo-list --dry-run --agent --config ");
    append_str(&mut out, report.output.as_str());
    append_str(
        &mut out,
        " --output-dir out --delimiter '' list --bucket my-bucket --region us-east-1\n",
    );
    let none: Vec<String> = Vec::new();
    append_warnings_and_recommendations(&mut out, report.warnings.as_slice(), none.as_slice());
    assert(strings_view(none@) =~= Seq::<Seq<char>>::empty());
    proof {
        reveal_strlit("Config initialized:\n");
        reveal_strlit("  Profile:         ");
        reveal_strlit("\n");
        reveal_strlit("  Output:          ");
        reveal_strlit("Next:\n");
        reveal_strlit("  s3-turbo-list doctor --simple\n");
        reveal_strlit("  s3-turbo-list --dry-run --agent --config ");
        reveal_strlit("Config initialized:\n  Profile:         ");
        reveal_strlit("\n  Output:          ");
        reveal_strlit("\nNext:\n  s3-turbo-list doctor --simple\n  s3-turbo-list --dry-run --agent --config ");
    }
    assert(out@ =~= init_text_spec(
        report.profile@,
        report.output@,
        strings_view(report.warnings@),
    ));
    string_from_chars(out.as_slice())
}

// ── Guidance texts ─────────────────────────────────────────
pub const GUIDE_OVERVIEW: &'static str = r#"s3-turbo-list guide

First run:
  s3-turbo-list doctor --simple
  s3-turbo-list init-config --output s3-turbo-list.toml
  s3-turbo-list --dry-run --agent --output-dir out --delimiter '' list --bucket my-bucket --region us-east-1
  s3-turbo-list --output-dir out --delimiter '' list --bucket my-bucket --region us-east-1

Credentials vs endpoint profiles:
  export AWS_PROFILE=my-credentials-profile
  s3-turbo-list --profile r2 ...

More guidance (s3-turbo-list guide <topic>):
  guide aws | minio | r2 | b2 | oss | bos   provider quickstarts and compat facts
  guide index                               list all recipes
  guide filter | release-check | large-bucket

Useful local commands:
  s3-turbo-list guide <provider>   endpoint-compatibility facts (aws/minio/r2/b2/oss/bos)
  s3-turbo-list doctor --hints-file hints.toml --json
  s3-turbo-list manifest-summary run.json --check
"#;
pub const RECIPE_INDEX: &'static str = r#"Available recipes:
  aws-basic      Minimal AWS S3 dry-run and list
  summary        Count objects and bytes without Parquet/KS outputs
  pipe           Stream list results to shell tools or agents
  filter         Local object filter examples and limits
  verify         Validate a saved run manifest locally
  release-check  Local pre-release checks without contacting S3
  diff-safe      Authoritative single-segment diff workflow
  large-bucket   Automatic partitioning and output-dir workflow
  local-minio    Local MinIO endpoint example
  agent-safe     Local-only agent/CI commands

Run: s3-turbo-list guide <name>
"#;
pub const RECIPE_AWS_BASIC: &'static str = r#"AWS basic:
  export AWS_PROFILE=default
  s3-turbo-list doctor --simple
  s3-turbo-list --dry-run --agent --output-dir out --delimiter '' list --bucket my-bucket --region us-east-1
  s3-turbo-list --output-dir out --delimiter '' list --bucket my-bucket --region us-east-1
"#;
pub const RECIPE_SUMMARY: &'static str = r#"Summary only:
  export AWS_PROFILE=default
  s3-turbo-list doctor --simple
  s3-turbo-list --dry-run --agent --summary-only --delimiter '' list --bucket my-bucket --region us-east-1
  s3-turbo-list --summary-only --run-manifest summary.json --delimiter '' list --bucket my-bucket --region us-east-1
  s3-turbo-list manifest-summary summary.json
"#;
pub const RECIPE_PIPE: &'static str = r#"Pipe-friendly list:
  export AWS_PROFILE=default
  s3-turbo-list --delimiter '' list --bucket my-bucket --region us-east-1 --output-format tsv | wc -l
  s3-turbo-list --delimiter '' list --bucket my-bucket --region us-east-1 --output-format tsv | awk -F '\t' '{bytes += $2} END {print bytes}'
  s3-turbo-list --delimiter '' list --bucket my-bucket --region us-east-1 --output-format ndjson | jq -r '.k'
  s3-turbo-list --delimiter '' --run-manifest run.json list --bucket my-bucket --region us-east-1 --output-format ndjson > objects.ndjson
  s3-turbo-list manifest-summary run.json --json
"#;
pub const RECIPE_FILTER: &'static str = r#"Object filters:
  # Filters are local: they run after S3 listing and before output.
  # Use prefix/delimiter/max-keys for request-side shaping.

  # Keep objects larger than 1 GiB
  s3-turbo-list --filter 'SOURCE.size > 1073741824' --delimiter '' list --bucket my-bucket --region us-east-1

  # Keep recently modified objects by epoch seconds
  s3-turbo-list --filter 'SOURCE.last_modified >= 1715700000' --delimiter '' list --bucket my-bucket --region us-east-1

  # Diff-only: keep rows where source and target sizes differ
  s3-turbo-list --filter 'SOURCE.size != TARGET.size' diff --bucket left-bucket --target-bucket right-bucket

Allowed: SOURCE/TARGET size and last_modified numeric comparisons, arithmetic, &&, ||, !.
Rejected before network: functions, methods, strings, arrays, maps, indexing, statements, large/deep expressions.
"#;
pub const RECIPE_VERIFY: &'static str = r#"Verify a saved run:
  s3-turbo-list --run-manifest run.json --output-dir out --delimiter '' list --bucket my-bucket --region us-east-1
  s3-turbo-list manifest-summary run.json
  s3-turbo-list manifest-summary run.json --check

Pipe output with a manifest:
  s3-turbo-list --run-manifest run.json --delimiter '' list --bucket my-bucket --region us-east-1 --output-format ndjson > objects.ndjson
  s3-turbo-list manifest-summary run.json --check
"#;
pub const RECIPE_RELEASE_CHECK: &'static str = r#"Release check (local only):
  VERSION=$(grep '^version' Cargo.toml | head -1 | cut -d'"' -f2)
  ./scripts/check-release-env.sh
  cargo fmt --check
  cargo check
  cargo clippy --all-targets -- -D warnings
  cargo test
  cargo build
  for f in examples/*.sh; do bash -n "$f" || exit 1; done
  python3 -m py_compile examples/read-parquet.py
  python3 -m py_compile examples/inspect-trace.py

Benchmark smoke checks:
  BUILD_MODE=clang OBJECTS=1000 BATCH_SIZE=100 PREFIXES=16 ./scripts/benchmark-local.sh
  BIN=./target/release/s3-turbo-list OBJECTS=1000 BATCH_SIZE=100 PREFIXES=16 ./scripts/benchmark-local.sh

Release build on Ubuntu 20.04 arm64:
  BUILD_MODE=clang ./scripts/build-release.sh

Release publication checks:
  gh workflow run release-assets.yml --repo hxddh/s3-turbo-list -f tag="v${VERSION}"
  RUN_ID=$(gh run list --repo hxddh/s3-turbo-list --workflow release-assets.yml --limit 1 --json databaseId --jq '.[0].databaseId')
  gh run view "$RUN_ID" --repo hxddh/s3-turbo-list --json status,conclusion,jobs
  ./scripts/verify-release-assets.sh "v${VERSION}"
  git rev-parse main origin/main "v${VERSION}^{}"

These commands do not contact S3-compatible cloud endpoints.
"#;
pub const RECIPE_DIFF_SAFE: &'static str = r#"Safe diff:
  export AWS_PROFILE=default
  s3-turbo-list --dry-run --agent --output-dir out --delimiter '' diff --bucket source-bucket --region us-east-1 --target-bucket target-bucket --target-region us-east-1
  s3-turbo-list --run-manifest diff-run.json --output-dir out --delimiter '' diff --bucket source-bucket --region us-east-1 --target-bucket target-bucket --target-region us-east-1
  s3-turbo-list manifest-summary diff-run.json --check
"#;
pub const RECIPE_LARGE_BUCKET: &'static str = r#"Large bucket:
  # Key-space partitioning is automatic: the first run probes the bucket
  # structure at startup, lists in parallel, and caches the boundaries.
  s3-turbo-list --output-dir out --delimiter '' -c 8 -T 4 list --bucket my-bucket --region us-east-1
"#;
pub const RECIPE_LOCAL_MINIO: &'static str = r#"Local MinIO:
  export AWS_ACCESS_KEY_ID=minioadmin
  export AWS_SECRET_ACCESS_KEY=minioadmin
  s3-turbo-list --profile minio --endpoint-url http://127.0.0.1:9000 --addressing-style path --output-dir out --delimiter '' list --bucket my-bucket --region us-east-1
"#;
pub const RECIPE_AGENT_SAFE: &'static str = r#"Agent-safe local commands:
  s3-turbo-list doctor --json
  s3-turbo-list --dry-run --agent --output-dir out --delimiter '' list --bucket my-bucket --region us-east-1
"#;
pub const QUICKSTART_AWS: &'static str = r#"AWS quickstart:
1. Set credentials:
   export AWS_PROFILE=default
2. Check local setup:
   s3-turbo-list doctor --simple
3. Dry-run:
   s3-turbo-list --dry-run --agent --output-dir out --delimiter '' list --bucket my-bucket --region us-east-1
4. First list:
   s3-turbo-list --output-dir out --delimiter '' list --bucket my-bucket --region us-east-1
"#;
pub const QUICKSTART_MINIO: &'static str = r#"MinIO quickstart:
1. Set local credentials:
   export AWS_ACCESS_KEY_ID=minioadmin
   export AWS_SECRET_ACCESS_KEY=minioadmin
2. First list:
   s3-turbo-list --profile minio --endpoint-url http://127.0.0.1:9000 --addressing-style path --output-dir out --delimiter '' list --bucket my-bucket --region us-east-1
"#;
pub const QUICKSTART_R2: &'static str = r#"Cloudflare R2 quickstart:
1. Select credentials with AWS_PROFILE, not --profile:
   export AWS_PROFILE=my-r2-creds
2. Use --profile r2 for endpoint compatibility defaults:
   s3-turbo-list --profile r2 --endpoint-url https://<account-id>.r2.cloudflarestorage.com --output-dir out --delimiter '' list --bucket my-bucket --region auto
"#;
pub const QUICKSTART_BOS: &'static str = r#"BOS quickstart:
1. Select credentials with AWS_PROFILE, not --profile:
   export AWS_PROFILE=my-bos-creds
2. Use virtual-hosted addressing:
   s3-turbo-list --profile bos --addressing-style virtual --output-dir out --delimiter '' list --bucket my-bucket --region bj
3. For authoritative BOS output, prefer single-segment listing when service-side start_after + continuation-token compatibility matters.
"#;
/// The text of a named recipe.
pub open spec fn recipe_text(name: Seq<char>) -> Option<Seq<char>> {
    if name == "index"@ || name == "list"@ {
        Some(RECIPE_INDEX@)
    } else if name == "aws-basic"@ {
        Some(RECIPE_AWS_BASIC@)
    } else if name == "summary"@ {
        Some(RECIPE_SUMMARY@)
    } else if name == "pipe"@ {
        Some(RECIPE_PIPE@)
    } else if name == "filter"@ {
        Some(RECIPE_FILTER@)
    } else if name == "verify"@ {
        Some(RECIPE_VERIFY@)
    } else if name == "release-check"@ || name == "ci"@ {
        Some(RECIPE_RELEASE_CHECK@)
    } else if name == "diff-safe"@ {
        Some(RECIPE_DIFF_SAFE@)
    } else if name == "large-bucket"@ {
        Some(RECIPE_LARGE_BUCKET@)
    } else if name == "local-minio"@ {
        Some(RECIPE_LOCAL_MINIO@)
    } else if name == "agent-safe"@ {
        Some(RECIPE_AGENT_SAFE@)
    } else {
        None
    }
}
/// The hand-written quickstart of a provider.
pub open spec fn quickstart_text(provider: Seq<char>) -> Option<Seq<char>> {
    if provider == "aws"@ {
        Some(QUICKSTART_AWS@)
    } else if provider == "minio"@ {
        Some(QUICKSTART_MINIO@)
    } else if provider == "r2"@ {
        Some(QUICKSTART_R2@)
    } else if provider == "bos"@ {
        Some(QUICKSTART_BOS@)
    } else {
        None
    }
}
fn recipe_str(name: &str) -> (r: Option<&'static str>)
    ensures
        match r {
            Some(t) => recipe_text(name@) == Some(t@),
            None => recipe_text(name@) is None,
        },
{
    if str_eq(name, "index") || str_eq(name, "list") {
        Some(RECIPE_INDEX)
    } else if str_eq(name, "aws-basic") {
        Some(RECIPE_AWS_BASIC)
    } else if str_eq(name, "summary") {
        Some(RECIPE_SUMMARY)
    } else if str_eq(name, "pipe") {
        Some(RECIPE_PIPE)
    } else if str_eq(name, "filter") {
        Some(RECIPE_FILTER)
    } else if str_eq(name, "verify") {
        Some(RECIPE_VERIFY)
    } else if str_eq(name, "release-check") || str_eq(name, "ci") {
        Some(RECIPE_RELEASE_CHECK)
    } else if str_eq(name, "diff-safe") {
        Some(RECIPE_DIFF_SAFE)
    } else if str_eq(name, "large-bucket") {
        Some(RECIPE_LARGE_BUCKET)
    } else if str_eq(name, "local-minio") {
        Some(RECIPE_LOCAL_MINIO)
    } else if str_eq(name, "agent-safe") {
        Some(RECIPE_AGENT_SAFE)
    } else {
        None
    }
}
fn quickstart_str(provider: &str) -> (r: Option<&'static str>)
    ensures
        match r {
            Some(t) => quickstart_text(provider@) == Some(t@),
            None => quickstart_text(provider@) is None,
        },
{
    if str_eq(provider, "aws") {
        Some(QUICKSTART_AWS)
    } else if str_eq(provider, "minio") {
        Some(QUICKSTART_MINIO)
    } else if str_eq(provider, "r2") {
        Some(QUICKSTART_R2)
    } else if str_eq(provider, "bos") {
        Some(QUICKSTART_BOS)
    } else {
        None
    }
}

pub open spec fn res_v(r: Result<String, String>) -> Result<Seq<char>, Seq<char>> {
    match r {
        Ok(s) => Ok(s@),
        Err(e) => Err(e@),
    }
}

/// A recipe by name (the index when none); an unknown name is an error.
pub open spec fn recipe_spec(name: Seq<char>) -> Result<Seq<char>, Seq<char>> {
    match recipe_text(name) {
        Some(t) => Ok(t),
        None => Err(
            "unknown recipe '"@ + name + "'. Run 's3-turbo-list recipes' to list recipes."@,
        ),
    }
}

pub fn render_recipe(name: Option<&str>) -> (r: Result<String, String>)
    ensures
        res_v(r) == recipe_spec(
            match name {
                Some(n) => n@,
                None => "index"@,
            },
        ),
{
    let name = match name {
        Some(n) => n,
        None => "index",
    };
    match recipe_str(name) {
        Some(t) => Ok(owned(t)),
        None => Err(
            prefixed_then(
                "unknown recipe '",
                name,
                "'. Run 's3-turbo-list recipes' to list recipes.",
            ),
        ),
    }
}

pub open spec fn quickstart_spec(provider: Seq<char>) -> Result<Seq<char>, Seq<char>> {
    match quickstart_text(provider) {
        Some(t) => Ok(t),
        None => Err(
            "unknown quickstart '"@ + provider + "'. Valid values: aws, minio, r2, bos."@,
        ),
    }
}

pub fn render_quickstart(provider: &str) -> (r: Result<String, String>)
    ensures
        res_v(r) == quickstart_spec(provider@),
{
    match quickstart_str(provider) {
        Some(t) => Ok(owned(t)),
        None => Err(
            prefixed_then("unknown quickstart '", provider, "'. Valid values: aws, minio, r2, bos."),
        ),
    }
}

pub fn render_overview() -> (r: String)
    ensures
        r@ == GUIDE_OVERVIEW@,
{
    owned(GUIDE_OVERVIEW)
}

/// The endpoint-compatibility facts of a profile, as text.
pub open spec fn facts_text_of(p: crate::profiles::EndpointProfile) -> Seq<char> {
    "Endpoint compatibility profile:\n  provider: "@ + p.provider@ + "\n  status: "@ + p.status@
        + "\n  recommended_addressing_style: "@ + crate::config::style_name(
        p.recommended_addressing_style,
    ) + "\n  default_endpoint_url: "@ + match p.default_endpoint_url {
        Some(u) => u@,
        None => "-"@,
    } + "\n  requires_explicit_endpoint: "@ + bool_text(p.requires_explicit_endpoint) + "\n"@ + if p.notes.len() > 0 {
        "  notes:\n"@ + bullet_lines(crate::profiles::strs_view(p.notes@))
    } else {
        Seq::empty()
    }
}

fn append_static_bullets(out: &mut Vec<char>, items: &[&'static str])
    ensures
        final(out)@ == old(out)@ + bullet_lines(crate::profiles::strs_view(items@)),
{
    let ghost start = out@;
    let ghost v = crate::profiles::strs_view(items@);
    let mut i: usize = 0;
    while i < items.len()
        invariant
            i <= items.len(),
            v == crate::profiles::strs_view(items@),
            out@ == start + bullet_lines(v.take(i as int)),
        decreases items.len() - i,
    {
        append_str(out, "    - ");
        append_str(out, items[i]);
        append_str(out, "\n");
        assert(v.take(i + 1).drop_last() =~= v.take(i as int));
        i += 1;
    }
    assert(v.take(items.len() as int) =~= v);
}

fn profile_facts(p: &crate::profiles::EndpointProfile) -> (r: String)
    ensures
        r@ == facts_text_of(*p),
{
    let mut out: Vec<char> = Vec::new();
    append_str(&mut out, "Endpoint compatibility profile:\n  provider: ");
    append_str(&mut out, p.provider);
    append_str(&mut out, "\n  status: ");
    append_str(&mut out, p.status);
    append_str(&mut out, "\n  recommended_addressing_style: ");
    append_str(&mut out, p.recommended_addressing_style.as_str());
    append_str(&mut out, "\n  default_endpoint_url: ");
    match p.default_endpoint_url {
        Some(u) => append_str(&mut out, u),
        None => append_str(&mut out, "-"),
    }
    append_str(&mut out, "\n  requires_explicit_endpoint: ");
    append_str(&mut out, bool_str(p.requires_explicit_endpoint));
    append_str(&mut out, "\n");
    let ghost head = out@;
    if p.notes.len() > 0 {
        append_str(&mut out, "  notes:\n");
        append_static_bullets(&mut out, p.notes.as_slice());
    }
    assert(out@ =~= facts_text_of(*p));
    string_from_chars(out.as_slice())
}

/// The guidance of a known provider: its quickstart (where one is written)
/// and a blank line, then its compatibility facts.
pub open spec fn provider_guide(topic: Seq<char>, p: crate::profiles::EndpointProfile) -> Seq<char> {
    match quickstart_text(topic) {
        Some(q) => q + "\n"@ + facts_text_of(p),
        None => facts_text_of(p),
    }
}

/// The guide: the overview without a topic; for a known provider, its
/// guidance; otherwise the recipe of that name.
pub fn render_guide(topic: Option<&str>) -> (r: Result<String, String>)
    ensures
        match topic {
            None => r is Ok && r->Ok_0@ == GUIDE_OVERVIEW@,
            Some(t) => if crate::profiles::profile_index(t@) >= 0 {
                &&& r is Ok
                &&& forall|p: crate::profiles::EndpointProfile|
                    crate::profiles::profile_is(p, crate::profiles::profile_index(t@)) ==> r->Ok_0@
                        == provider_guide(t@, p)
            } else {
                res_v(r) == recipe_spec(t@)
            },
        },
{
    match topic {
        None => Ok(render_overview()),
        Some(t) => match crate::profiles::get_profile(t) {
            Some(p) => {
                let mut out: Vec<char> = Vec::new();
                match quickstart_str(t) {
                    Some(q) => {
                        append_str(&mut out, q);
                        append_str(&mut out, "\n");
                    },
                    None => {},
                }
                let facts = profile_facts(&p);
                append_str(&mut out, facts.as_str());
                proof {
                    assert(out@ =~= provider_guide(t@, p));
                    assert forall|p2: crate::profiles::EndpointProfile|
                        crate::profiles::profile_is(
                            p2,
                            crate::profiles::profile_index(t@),
                        ) implies facts_text_of(p2) == facts_text_of(p) by {
                        assert(crate::profiles::strs_view(p2.notes@) == crate::profiles::strs_view(p.notes@));
                    }
                }
                Ok(string_from_chars(out.as_slice()))
            },
            None => render_recipe(Some(t)),
        },
    }
}

} // verus!
