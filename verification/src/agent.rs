//! Agent-facing reports: exit codes, argument redaction, conventional file
//! names, and the dry-run plan and doctor checks built from plain values.
use crate::text::{
    char_is_ascii_alnum, has_char, has_char_exec, is_ascii_alnum, owned, str_chars, str_eq,
    string_from_chars, string_push_str, strings_view, trim,
};
use crate::config::{opt_string_v, style_name, ConfigLoadSummary, S3TurboConfig};
use crate::objects::{PrefixMetric, RunMetricsSnapshot};
use crate::checkpoint::{identity_diff, CheckpointIdentity, CheckpointJournal};
use crate::hints::{HintsFormat, HintsValidationReport};
use crate::profiles::{get_profile, EndpointProfile};
use vstd::prelude::*;

verus! {

pub const AGENT_SCHEMA_VERSION: &'static str = "s3-turbo-list.agent.v1";

/// Process exit codes of the tool.
#[derive(Debug, Clone, Copy, PartialEq, Eq, Structural)]
pub enum ExitCode {
    Success,
    InternalError,
    CliConfig,
    ProviderSetup,
    NetworkRetryExhausted,
    OutputWrite,
    DataValidation,
    Interrupted,
}

pub open spec fn exit_code_value(c: ExitCode) -> i32 {
    match c {
        ExitCode::Success => 0,
        ExitCode::InternalError => 1,
        ExitCode::CliConfig => 2,
        ExitCode::ProviderSetup => 3,
        ExitCode::NetworkRetryExhausted => 4,
        ExitCode::OutputWrite => 5,
        ExitCode::DataValidation => 6,
        ExitCode::Interrupted => 7,
    }
}

impl ExitCode {
    pub fn code(self) -> (r: i32)
        ensures
            r == exit_code_value(self),
    {
        match self {
            ExitCode::Success => 0,
            ExitCode::InternalError => 1,
            ExitCode::CliConfig => 2,
            ExitCode::ProviderSetup => 3,
            ExitCode::NetworkRetryExhausted => 4,
            ExitCode::OutputWrite => 5,
            ExitCode::DataValidation => 6,
            ExitCode::Interrupted => 7,
        }
    }
}

/// Distinct variants have distinct exit codes.
pub proof fn law_exit_codes_distinct(a: ExitCode, b: ExitCode)
    ensures
        exit_code_value(a) == exit_code_value(b) ==> a == b,
{
}

// ── Argument redaction ─────────────────────────────────────

/// Flags whose value must not be recorded.
pub open spec fn is_sensitive_flag(arg: Seq<char>) -> bool {
    arg == "--continuation-token"@ || arg == "--endpoint-url"@ || arg == "--endpoint"@
}

fn is_sensitive_value_flag(arg: &str) -> (r: bool)
    ensures
        r == is_sensitive_flag(arg@),
{
    str_eq(arg, "--continuation-token") || str_eq(arg, "--endpoint-url") || str_eq(
        arg,
        "--endpoint",
    )
}

/// Position of the first `'='` in `s`, or -1.
pub open spec fn first_eq(s: Seq<char>) -> int
    decreases s.len(),
{
    if s.len() == 0 {
        -1
    } else if s[0] == '=' {
        0
    } else if first_eq(s.drop_first()) < 0 {
        -1
    } else {
        first_eq(s.drop_first()) + 1
    }
}

pub(crate) proof fn lemma_first_eq(s: Seq<char>)
    ensures
        -1 <= first_eq(s) < s.len(),
        first_eq(s) >= 0 ==> s[first_eq(s)] == '=',
        forall|k: int| 0 <= k < s.len() && (first_eq(s) < 0 || k < first_eq(s)) ==> s[k] != '=',
    decreases s.len(),
{
    if s.len() > 0 && s[0] != '=' {
        lemma_first_eq(s.drop_first());
        assert forall|k: int| 0 < k < s.len() implies s[k] == s.drop_first()[k - 1] by {}
    }
}

proof fn lemma_first_eq_at(s: Seq<char>, j: int)
    requires
        0 <= j < s.len(),
        s[j] == '=',
        forall|k: int| 0 <= k < j ==> s[k] != '=',
    ensures
        first_eq(s) == j,
    decreases s.len(),
{
    if j > 0 {
        lemma_first_eq_at(s.drop_first(), j - 1);
    }
}

proof fn lemma_first_eq_none(s: Seq<char>)
    requires
        forall|k: int| 0 <= k < s.len() ==> s[k] != '=',
    ensures
        first_eq(s) == -1,
    decreases s.len(),
{
    if s.len() > 0 {
        lemma_first_eq_none(s.drop_first());
    }
}

/// How one argument is recorded, given whether the previous one was a
/// sensitive flag: a value after such a flag is replaced, a `flag=value`
/// form of such a flag keeps only the flag.
pub open spec fn redact_one(arg: Seq<char>, redact_this: bool) -> Seq<char> {
    if redact_this {
        "<redacted>"@
    } else if first_eq(arg) >= 0 && is_sensitive_flag(arg.take(first_eq(arg))) {
        arg.take(first_eq(arg)) + "=<redacted>"@
    } else {
        arg
    }
}

/// Whether the argument after `args[i]` is a value to redact.
pub open spec fn redacts_next(args: Seq<Seq<char>>, i: int) -> bool
    decreases i + 1,
{
    if i < 0 {
        false
    } else {
        !redacts_next(args, i - 1) && !(first_eq(args[i]) >= 0 && is_sensitive_flag(
            args[i].take(first_eq(args[i])),
        )) && is_sensitive_flag(args[i])
    }
}

/// The recorded command line.
pub open spec fn redacted_args(args: Seq<Seq<char>>) -> Seq<Seq<char>> {
    Seq::new(args.len(), |i: int| redact_one(args[i], redacts_next(args, i - 1)))
}

pub open spec fn strs_v(v: Seq<&str>) -> Seq<Seq<char>> {
    Seq::new(v.len(), |i: int| v[i]@)
}

proof fn lemma_redacted_one_stable(arg: Seq<char>, redact_this: bool)
    ensures
        first_eq(redact_one(arg, redact_this)) >= 0 && is_sensitive_flag(
            redact_one(arg, redact_this).take(first_eq(redact_one(arg, redact_this))),
        ) <==> (!redact_this && first_eq(arg) >= 0 && is_sensitive_flag(
            arg.take(first_eq(arg)),
        )),
        !redact_this ==> (is_sensitive_flag(redact_one(arg, redact_this)) <==> (is_sensitive_flag(
            arg,
        ) && !(first_eq(arg) >= 0 && is_sensitive_flag(arg.take(first_eq(arg)))))),
        redact_this ==> !is_sensitive_flag(redact_one(arg, redact_this)),
        redact_one(redact_one(arg, redact_this), false) == redact_one(arg, redact_this),
{
    let r = redact_one(arg, redact_this);
    reveal_strlit("<redacted>");
    reveal_strlit("=<redacted>");
    reveal_strlit("--continuation-token");
    reveal_strlit("--endpoint-url");
    reveal_strlit("--endpoint");
    lemma_first_eq(arg);
    if redact_this {
        lemma_first_eq_none(r);
    } else if first_eq(arg) >= 0 && is_sensitive_flag(arg.take(first_eq(arg))) {
        let j = first_eq(arg);
        assert(r[j] == '=');
        assert forall|k: int| 0 <= k < j implies r[k] != '=' by {
            assert(r[k] == arg[k]);
        }
        lemma_first_eq_at(r, j);
        assert(r.take(j) =~= arg.take(j));
        assert(r.take(j) + "=<redacted>"@ =~= r);
        assert(!is_sensitive_flag(r)) by {
            assert(r.len() > j + 1);
            assert(r[r.len() - 1] == '>');
        }
    }
}

proof fn lemma_redacts_next_stable(args: Seq<Seq<char>>, i: int)
    requires
        i < args.len(),
    ensures
        redacts_next(redacted_args(args), i) == redacts_next(args, i),
    decreases i + 1,
{
    if i >= 0 {
        lemma_redacts_next_stable(args, i - 1);
        lemma_redacted_one_stable(args[i], redacts_next(args, i - 1));
    }
}

proof fn lemma_sensitive_has_no_eq(a: Seq<char>)
    requires
        is_sensitive_flag(a),
    ensures
        first_eq(a) == -1,
{
    reveal_strlit("--continuation-token");
    reveal_strlit("--endpoint-url");
    reveal_strlit("--endpoint");
    lemma_first_eq_none(a);
}

/// Position by position, the recorded command line hides an argument that
/// follows a sensitive flag which was itself kept as given; keeps only the
/// flag of a `flag=value` argument of a sensitive flag; and keeps every
/// other argument as it is. So no value given to a sensitive flag survives,
/// and a sensitive flag given last is kept unchanged.
pub proof fn law_redaction_per_position(args: Seq<Seq<char>>, i: int)
    requires
        0 <= i < args.len(),
    ensures
        redacted_args(args).len() == args.len(),
        redacted_args(args)[i] == (if i > 0 && is_sensitive_flag(args[i - 1])
            && redacted_args(args)[i - 1] == args[i - 1] {
            "<redacted>"@
        } else if first_eq(args[i]) >= 0 && is_sensitive_flag(args[i].take(first_eq(args[i]))) {
            args[i].take(first_eq(args[i])) + "=<redacted>"@
        } else {
            args[i]
        }),
{
    let r = redacted_args(args);
    if i > 0 {
        let p = args[i - 1];
        if is_sensitive_flag(p) {
            lemma_sensitive_has_no_eq(p);
            lemma_redacted_one_stable(p, true);
            if redacts_next(args, i - 2) {
                assert(r[i - 1] == redact_one(p, true));
                assert(r[i - 1] != p);
            } else {
                assert(r[i - 1] == p);
            }
        }
    }
}

/// Recording a recorded command line changes nothing: the hidden values
/// stay hidden and nothing else is touched.
pub proof fn law_redaction_idempotent(args: Seq<Seq<char>>)
    ensures
        redacted_args(redacted_args(args)) == redacted_args(args),
{
    let r = redacted_args(args);
    assert forall|i: int| 0 <= i < args.len() implies redact_one(r[i], redacts_next(r, i - 1))
        == r[i] by {
        lemma_redacts_next_stable(args, i - 1);
        lemma_redacted_one_stable(args[i], redacts_next(args, i - 1));
        if redacts_next(args, i - 1) {
            reveal_strlit("<redacted>");
        }
    }
    assert(redacted_args(r) =~= r);
}

/// Copies a command line, hiding the values of sensitive flags.
pub fn redact_command_args(args: &[&str]) -> (r: Vec<String>)
    ensures
        strings_view(r@) == redacted_args(strs_v(args@)),
{
    let ghost a = strs_v(args@);
    let mut redacted: Vec<String> = Vec::new();
    let mut redact_next = false;
    let mut i: usize = 0;
    while i < args.len()
        invariant
            a == strs_v(args@),
            i <= args.len(),
            redacted@.len() == i,
            forall|k: int| 0 <= k < i ==> #[trigger] redacted@[k]@ == redacted_args(a)[k],
            redact_next == redacts_next(a, i - 1),
        decreases args.len() - i,
    {
        let arg = args[i];
        let chars = str_chars(arg);
        proof {
            lemma_first_eq(arg@);
        }
        if redact_next {
            redacted.push(owned("<redacted>"));
            redact_next = false;
        } else {
            let eq = find_eq(chars.as_slice());
            let mut handled = false;
            if let Some(pos) = eq {
                let flag = string_from_chars(crate::text::slice_chars(chars.as_slice(), 0, pos).as_slice());
                if is_sensitive_value_flag(flag.as_str()) {
                    let mut s = flag;
                    string_push_str(&mut s, "=<redacted>");
                    redacted.push(s);
                    handled = true;
                }
            }
            if !handled {
                if is_sensitive_value_flag(arg) {
                    redact_next = true;
                }
                redacted.push(owned(arg));
            }
        }
        i += 1;
    }
    redacted
}

pub(crate) fn find_eq(s: &[char]) -> (r: Option<usize>)
    ensures
        match r {
            Some(p) => p as int == first_eq(s@) && p < s@.len(),
            None => first_eq(s@) == -1,
        },
{
    let mut i: usize = 0;
    while i < s.len()
        invariant
            i <= s.len(),
            forall|k: int| 0 <= k < i ==> s@[k] != '=',
        decreases s.len() - i,
    {
        if s[i] == '=' {
            proof {
                lemma_first_eq_at(s@, i as int);
            }
            return Some(i);
        }
        i += 1;
    }
    proof {
        lemma_first_eq_none(s@);
    }
    None
}

// ── File names ─────────────────────────────────────────────

pub open spec fn safe_char(c: char) -> char {
    if is_ascii_alnum(c) || c == '-' || c == '_' || c == '.' {
        c
    } else {
        '_'
    }
}

/// A value made safe for a file name: every character other than ASCII
/// letters, digits, `-`, `_` and `.` becomes `_`; the empty value becomes
/// `"_"`.
pub open spec fn sanitized(v: Seq<char>) -> Seq<char> {
    if v.len() == 0 {
        "_"@
    } else {
        Seq::new(v.len(), |i: int| safe_char(v[i]))
    }
}

pub fn sanitize_path_component(value: &str) -> (r: String)
    ensures
        r@ == sanitized(value@),
{
    let chars = str_chars(value);
    if chars.len() == 0 {
        return owned("_");
    }
    let mut out: Vec<char> = Vec::new();
    let mut i: usize = 0;
    while i < chars.len()
        invariant
            i <= chars.len(),
            chars@ == value@,
            out@ =~= Seq::new(i as nat, |k: int| safe_char(chars@[k])),
        decreases chars.len() - i,
    {
        let c = chars[i];
        let keep = char_is_ascii_alnum(c) || c == '-' || c == '_' || c == '.';
        out.push(
            if keep {
                c
            } else {
                '_'
            },
        );
        i += 1;
        assert(out@ =~= Seq::new(i as nat, |k: int| safe_char(chars@[k])));
    }
    string_from_chars(out.as_slice())
}

/// Sanitising is idempotent, keeps the length of a non-empty value and
/// never yields an empty name or a path separator.
pub proof fn law_sanitize_idempotent(v: Seq<char>)
    ensures
        sanitized(sanitized(v)) == sanitized(v),
        sanitized(v).len() > 0,
        !has_char(sanitized(v), '/'),
{
    reveal_strlit("_");
    let s = sanitized(v);
    assert(sanitized(s) =~= s);
    if has_char(s, '/') {
        let k = choose|k: int| 0 <= k < s.len() && s[k] == '/';
        assert(s[k] == safe_char(v[k]) || v.len() == 0);
    }
}

/// `<region>_<bucket>_hints.toml`, or `<bucket>_hints.toml` without region.
pub open spec fn hints_file_name(bucket: Seq<char>, region: Option<Seq<char>>) -> Seq<char> {
    match region {
        Some(r) => sanitized(r) + "_"@ + sanitized(bucket) + "_hints.toml"@,
        None => sanitized(bucket) + "_hints.toml"@,
    }
}

pub open spec fn opt_v(o: Option<&str>) -> Option<Seq<char>> {
    match o {
        Some(s) => Some(s@),
        None => None,
    }
}

pub fn conventional_hints_path(bucket: &str, region: Option<&str>) -> (r: String)
    ensures
        r@ == hints_file_name(bucket@, opt_v(region)),
{
    let b = sanitize_path_component(bucket);
    match region {
        Some(reg) => {
            let mut s = sanitize_path_component(reg);
            string_push_str(&mut s, "_");
            string_push_str(&mut s, b.as_str());
            string_push_str(&mut s, "_hints.toml");
            s
        },
        None => {
            let mut s = b;
            string_push_str(&mut s, "_hints.toml");
            s
        },
    }
}

// ── Configuration summaries ────────────────────────────────

#[derive(Debug, Clone)]
pub struct RuntimeSummary {
    pub worker_threads: usize,
    pub max_concurrency: usize,
}

#[derive(Debug, Clone)]
pub struct S3Summary {
    pub max_attempts: u32,
    pub initial_backoff_secs: u64,
    pub connect_timeout_secs: u64,
    pub operation_timeout_secs: u64,
    pub endpoint_url: Option<String>,
    pub force_path_style: bool,
    pub addressing_style: String,
    pub profile: Option<String>,
    pub profile_known: bool,
    pub profile_warnings: Vec<String>,
    pub debug_s3: bool,
    pub trace_compat: Option<String>,
    pub start_after: Option<String>,
}

#[derive(Debug, Clone)]
pub struct OutputSummary {
    pub row_group_size: usize,
    pub compression: String,
    pub compression_level: u32,
    pub log_file: Option<String>,
    pub ks_file: Option<String>,
    pub parquet_file: Option<String>,
}

#[derive(Debug, Clone)]
pub struct AutoHintsSummary {
    pub sample_threshold: usize,
    pub max_prefix_depth: usize,
    pub max_prefix_entries: usize,
}

#[derive(Debug, Clone)]
pub struct ChannelSummary {
    pub capacity: usize,
}

/// The configuration a run resolved to.
#[derive(Debug, Clone)]
pub struct ResolvedConfigSummary {
    pub runtime: RuntimeSummary,
    pub s3: S3Summary,
    pub output: OutputSummary,
    pub auto_hints: AutoHintsSummary,
    pub channel: ChannelSummary,
}

fn clone_opt(o: &Option<String>) -> (r: Option<String>)
    ensures
        opt_string_v(r) == opt_string_v(*o),
{
    match o {
        Some(s) => Some(owned(s.as_str())),
        None => None,
    }
}

fn clone_strings(v: &Vec<String>) -> (r: Vec<String>)
    ensures
        strings_view(r@) == strings_view(v@),
{
    let mut out: Vec<String> = Vec::new();
    let mut i: usize = 0;
    while i < v.len()
        invariant
            i <= v.len(),
            strings_view(out@) == strings_view(v@).take(i as int),
        decreases v.len() - i,
    {
        let ghost before = out@;
        out.push(owned(v[i].as_str()));
        assert(strings_view(out@) =~= strings_view(before).push(v@[i as int]@));
        i += 1;
        assert(strings_view(v@).take(i as int) =~= strings_view(v@).take(i - 1).push(v@[i - 1]@));
    }
    assert(strings_view(v@).take(v.len() as int) =~= strings_view(v@));
    out
}

fn static_strings(v: &Vec<&'static str>) -> (r: Vec<String>)
    ensures
        strings_view(r@) == crate::profiles::strs_view(v@),
{
    let mut out: Vec<String> = Vec::new();
    let mut i: usize = 0;
    while i < v.len()
        invariant
            i <= v.len(),
            strings_view(out@) == crate::profiles::strs_view(v@).take(i as int),
        decreases v.len() - i,
    {
        let ghost before = out@;
        out.push(owned(v[i]));
        assert(strings_view(out@) =~= strings_view(before).push(v@[i as int]@));
        i += 1;
        assert(crate::profiles::strs_view(v@).take(i as int) =~= crate::profiles::strs_view(v@).take(i - 1).push(v@[i - 1]@));
    }
    assert(crate::profiles::strs_view(v@).take(v.len() as int) =~= crate::profiles::strs_view(v@));
    out
}

/// The limitation notes of a known endpoint profile, or none.
pub open spec fn profile_warning_lines(profile: Option<Seq<char>>, w: Seq<Seq<char>>) -> bool {
    match profile {
        Some(n) => if crate::profiles::profile_index(n) >= 0 {
            exists|p: EndpointProfile|
                #[trigger] crate::profiles::profile_is(p, crate::profiles::profile_index(n))
                    && w == crate::profiles::strs_view(p.limitations@)
        } else {
            w.len() == 0
        },
        None => w.len() == 0,
    }
}

impl ResolvedConfigSummary {
    pub fn from(cfg: &S3TurboConfig) -> (r: Self)
        ensures
            r.runtime.worker_threads == cfg.runtime.worker_threads,
            r.runtime.max_concurrency == cfg.runtime.max_concurrency,
            r.s3.max_attempts == cfg.s3.max_attempts,
            r.s3.initial_backoff_secs == cfg.s3.initial_backoff_secs,
            r.s3.connect_timeout_secs == cfg.s3.connect_timeout_secs,
            r.s3.operation_timeout_secs == cfg.s3.operation_timeout_secs,
            opt_string_v(r.s3.endpoint_url) == opt_string_v(cfg.s3.endpoint_url),
            r.s3.force_path_style == cfg.s3.force_path_style,
            r.s3.addressing_style@ == style_name(cfg.s3.addressing_style),
            opt_string_v(r.s3.profile) == opt_string_v(cfg.s3.profile),
            r.s3.profile_known == match cfg.s3.profile {
                Some(n) => crate::profiles::profile_index(n@) >= 0,
                None => false,
            },
            profile_warning_lines(opt_string_v(cfg.s3.profile), strings_view(r.s3.profile_warnings@)),
            r.s3.debug_s3 == cfg.s3.debug_s3,
            opt_string_v(r.s3.trace_compat) == opt_string_v(cfg.s3.trace_compat),
            opt_string_v(r.s3.start_after) == opt_string_v(cfg.s3.start_after),
            r.output.row_group_size == cfg.output.row_group_size,
            r.output.compression@ == cfg.output.compression@,
            r.output.compression_level == cfg.output.compression_level,
            opt_string_v(r.output.log_file) == opt_string_v(cfg.output.log_file),
            opt_string_v(r.output.ks_file) == opt_string_v(cfg.output.ks_file),
            opt_string_v(r.output.parquet_file) == opt_string_v(cfg.output.parquet_file),
            r.auto_hints.sample_threshold == cfg.auto_hints.sample_threshold,
            r.auto_hints.max_prefix_depth == cfg.auto_hints.max_prefix_depth,
            r.auto_hints.max_prefix_entries == cfg.auto_hints.max_prefix_entries,
            r.channel.capacity == cfg.channel.capacity,
    {
        let known = match &cfg.s3.profile {
            Some(n) => get_profile(n.as_str()),
            None => None,
        };
        let profile_known = known.is_some();
        let profile_warnings = match &known {
            Some(p) => static_strings(&p.limitations),
            None => Vec::new(),
        };
        proof {
            if let Some(p) = known {
                let n = cfg.s3.profile->Some_0@;
                assert(crate::profiles::profile_is(p, crate::profiles::profile_index(n)));
            } else {
                assert(strings_view(profile_warnings@) =~= Seq::<Seq<char>>::empty());
            }
        }
        ResolvedConfigSummary {
            runtime: RuntimeSummary {
                worker_threads: cfg.runtime.worker_threads,
                max_concurrency: cfg.runtime.max_concurrency,
            },
            s3: S3Summary {
                max_attempts: cfg.s3.max_attempts,
                initial_backoff_secs: cfg.s3.initial_backoff_secs,
                connect_timeout_secs: cfg.s3.connect_timeout_secs,
                operation_timeout_secs: cfg.s3.operation_timeout_secs,
                endpoint_url: clone_opt(&cfg.s3.endpoint_url),
                force_path_style: cfg.s3.force_path_style,
                addressing_style: cfg.s3.addressing_style.to_string(),
                profile: clone_opt(&cfg.s3.profile),
                profile_known,
                profile_warnings,
                debug_s3: cfg.s3.debug_s3,
                trace_compat: clone_opt(&cfg.s3.trace_compat),
                start_after: clone_opt(&cfg.s3.start_after),
            },
            output: OutputSummary {
                row_group_size: cfg.output.row_group_size,
                compression: owned(cfg.output.compression.as_str()),
                compression_level: cfg.output.compression_level,
                log_file: clone_opt(&cfg.output.log_file),
                ks_file: clone_opt(&cfg.output.ks_file),
                parquet_file: clone_opt(&cfg.output.parquet_file),
            },
            auto_hints: AutoHintsSummary {
                sample_threshold: cfg.auto_hints.sample_threshold,
                max_prefix_depth: cfg.auto_hints.max_prefix_depth,
                max_prefix_entries: cfg.auto_hints.max_prefix_entries,
            },
            channel: ChannelSummary { capacity: cfg.channel.capacity },
        }
    }
}

/// Where the configuration came from.
#[derive(Debug, Clone)]
pub struct ConfigSourceSummary {
    pub explicit_config: Option<String>,
    pub loaded_config: Option<String>,
    pub loaded_config_kind: String,
    pub searched: Vec<String>,
    pub cli_overrides: Vec<String>,
    pub warnings: Vec<String>,
}

impl ConfigSourceSummary {
    pub fn new(load: &ConfigLoadSummary, cli_overrides: Vec<String>) -> (r: Self)
        ensures
            opt_string_v(r.explicit_config) == opt_string_v(load.explicit_config),
            opt_string_v(r.loaded_config) == opt_string_v(load.loaded_config),
            r.loaded_config_kind@ == load.loaded_config_kind@,
            strings_view(r.searched@) == strings_view(load.searched@),
            r.cli_overrides == cli_overrides,
            strings_view(r.warnings@) == strings_view(load.warnings@),
    {
        ConfigSourceSummary {
            explicit_config: clone_opt(&load.explicit_config),
            loaded_config: clone_opt(&load.loaded_config),
            loaded_config_kind: owned(load.loaded_config_kind.as_str()),
            searched: clone_strings(&load.searched),
            cli_overrides,
            warnings: clone_strings(&load.warnings),
        }
    }
}

/// The report of `config inspect`.
#[derive(Debug, Clone)]
pub struct ConfigInspectReport {
    pub schema_version: &'static str,
    pub tool_version: &'static str,
    pub status: String,
    pub config_source: ConfigSourceSummary,
    pub resolved_config: ResolvedConfigSummary,
}

pub fn config_inspect_report(
    cfg: &S3TurboConfig,
    config_source: ConfigSourceSummary,
    tool_version: &'static str,
) -> (r: ConfigInspectReport)
    ensures
        r.schema_version@ == AGENT_SCHEMA_VERSION@,
        r.tool_version == tool_version,
        r.status@ == "ok"@,
        r.config_source == config_source,
        r.resolved_config.s3.max_attempts == cfg.s3.max_attempts,
        r.resolved_config.runtime.worker_threads == cfg.runtime.worker_threads,
        r.resolved_config.channel.capacity == cfg.channel.capacity,
{
    ConfigInspectReport {
        schema_version: AGENT_SCHEMA_VERSION,
        tool_version,
        status: owned("ok"),
        config_source,
        resolved_config: ResolvedConfigSummary::from(cfg),
    }
}

/// The metrics of a finished run as a report shows them.
#[derive(Debug, Clone)]
pub struct MetricsSummary {
    pub fatal_errors: usize,
    pub output_errors: usize,
    pub stream_timeouts: usize,
    pub s3_client_timeouts: usize,
    pub s3_client_generic_errors: usize,
    pub received_batches: usize,
    pub received_objects: usize,
    pub streamed_rows: usize,
    pub unique_prefixes: usize,
    pub parquet_rows: usize,
    pub ks_entries: usize,
    pub bytes_total: u64,
    pub top_prefixes: Vec<PrefixMetric>,
    pub summary_only: bool,
}

impl MetricsSummary {
    pub fn from(metrics: RunMetricsSnapshot) -> (r: Self)
        ensures
            r.fatal_errors == metrics.fatal_errors,
            r.output_errors == metrics.output_errors,
            r.stream_timeouts == metrics.stream_timeouts,
            r.s3_client_timeouts == metrics.s3_client_timeouts,
            r.s3_client_generic_errors == metrics.s3_client_generic_errors,
            r.received_batches == metrics.data_received_batches,
            r.received_objects == metrics.data_received_objects,
            r.streamed_rows == metrics.data_streamed_rows,
            r.unique_prefixes == metrics.data_unique_prefixes,
            r.parquet_rows == metrics.data_parquet_rows,
            r.ks_entries == metrics.data_ks_entries,
            r.bytes_total == metrics.data_bytes_total,
            r.top_prefixes == metrics.data_top_prefixes,
            r.summary_only == metrics.data_summary_only,
    {
        MetricsSummary {
            fatal_errors: metrics.fatal_errors,
            output_errors: metrics.output_errors,
            stream_timeouts: metrics.stream_timeouts,
            s3_client_timeouts: metrics.s3_client_timeouts,
            s3_client_generic_errors: metrics.s3_client_generic_errors,
            received_batches: metrics.data_received_batches,
            received_objects: metrics.data_received_objects,
            streamed_rows: metrics.data_streamed_rows,
            unique_prefixes: metrics.data_unique_prefixes,
            parquet_rows: metrics.data_parquet_rows,
            ks_entries: metrics.data_ks_entries,
            bytes_total: metrics.data_bytes_total,
            top_prefixes: metrics.data_top_prefixes,
            summary_only: metrics.data_summary_only,
        }
    }
}

// ── Dry-run plan ───────────────────────────────────────────

#[derive(Debug, Clone)]
pub struct CommandInputSummary {
    pub mode: String,
    pub bucket: Option<String>,
    pub region: Option<String>,
    pub target_bucket: Option<String>,
    pub target_region: Option<String>,
    pub output_format: Option<String>,
    pub prefix: String,
    pub delimiter: String,
    pub max_keys: Option<i32>,
    pub start_after: Option<String>,
    pub continuation_token: Option<String>,
    pub profile: Option<String>,
    pub addressing_style: String,
}

#[derive(Debug, Clone)]
pub struct OutputPathSummary {
    pub parquet_file: Option<String>,
    pub ks_file: Option<String>,
    pub hints_file: Option<String>,
    pub trace_compat: Option<String>,
    pub log_file: Option<String>,
}

/// How a run would find its key-space hints.
#[derive(Debug, Clone)]
pub struct HintsPlan {
    pub source: String,
    pub path: Option<String>,
    pub exists: bool,
    pub valid: Option<bool>,
    pub format: Option<String>,
    pub boundary_count: Option<usize>,
    pub warnings: Vec<String>,
}

/// Where the hints of a planned run would come from, and the file to look
/// at.
#[derive(Debug, Clone)]
pub enum HintsSource {
    Explicit(String),
    Disabled,
    Conventional(String),
    NotApplicable,
}

pub open spec fn hints_source_spec(
    explicit: Option<Seq<char>>,
    bucket: Option<Seq<char>>,
    region: Option<Seq<char>>,
    no_auto_hints: bool,
) -> (int, Option<Seq<char>>) {
    match explicit {
        Some(p) => (0, Some(p)),
        None => if no_auto_hints {
            (1, None)
        } else {
            match bucket {
                Some(b) => (2, Some(hints_file_name(b, region))),
                None => (3, None),
            }
        },
    }
}

pub open spec fn source_view(s: HintsSource) -> (int, Option<Seq<char>>) {
    match s {
        HintsSource::Explicit(p) => (0, Some(p@)),
        HintsSource::Disabled => (1, None),
        HintsSource::Conventional(p) => (2, Some(p@)),
        HintsSource::NotApplicable => (3, None),
    }
}

/// The hints source of a planned list run: an explicit file first, none
/// with `--no-auto-hints`, else the bucket's conventional cache.
pub fn hints_plan_source(
    explicit_hints_file: Option<&str>,
    bucket: Option<&str>,
    region: Option<&str>,
    no_auto_hints: bool,
) -> (r: HintsSource)
    ensures
        source_view(r) == hints_source_spec(
            opt_v(explicit_hints_file),
            opt_v(bucket),
            opt_v(region),
            no_auto_hints,
        ),
{
    match explicit_hints_file {
        Some(p) => HintsSource::Explicit(owned(p)),
        None => if no_auto_hints {
            HintsSource::Disabled
        } else {
            match bucket {
                Some(b) => HintsSource::Conventional(conventional_hints_path(b, region)),
                None => HintsSource::NotApplicable,
            }
        },
    }
}

pub open spec fn format_name(f: HintsFormat) -> Seq<char> {
    match f {
        HintsFormat::Toml => "toml"@,
        HintsFormat::Plain => "plain"@,
    }
}

/// The plan fields taken from a hints validation report.
pub open spec fn plan_matches_report(p: HintsPlan, report: Option<HintsValidationReport>) -> bool {
    match report {
        Some(r) => p.valid == Some(r.valid) && opt_string_v(p.format) == Some(format_name(r.format))
            && p.boundary_count == Some(r.boundary_count),
        None => p.valid is None && p.format is None && p.boundary_count is None,
    }
}

fn format_string(f: HintsFormat) -> (r: String)
    ensures
        r@ == format_name(f),
{
    match f {
        HintsFormat::Toml => owned("toml"),
        HintsFormat::Plain => owned("plain"),
    }
}

/// The hints plan of a list run, from its source (`hints_plan_source`),
/// whether that file exists, and its validation report where it exists and
/// parses.
pub fn detect_hints_plan(
    source: HintsSource,
    exists: bool,
    report: Option<HintsValidationReport>,
) -> (r: HintsPlan)
    ensures
        plan_matches_report(
            r,
            match source {
                HintsSource::Conventional(_) => if exists {
                    report
                } else {
                    None
                },
                HintsSource::Explicit(_) => report,
                _ => None,
            },
        ),
        match source {
            HintsSource::Explicit(p) => {
                &&& r.source@ == "explicit"@
                &&& opt_string_v(r.path) == Some(p@)
                &&& r.exists == exists
                &&& strings_view(r.warnings@) == match report {
                    Some(rep) => strings_view(rep.warnings@),
                    None => seq!["hints file does not exist or could not be parsed"@],
                }
            },
            HintsSource::Disabled => {
                &&& r.source@ == "disabled_single_segment_fallback"@
                &&& r.path is None
                &&& !r.exists
                &&& strings_view(r.warnings@) == seq![
                    "--no-auto-hints skips conventional hints cache loading"@,
                ]
            },
            HintsSource::Conventional(p) => {
                &&& r.source@ == if exists {
                    "auto_cache"@
                } else {
                    "single_segment_fallback"@
                }
                &&& opt_string_v(r.path) == Some(p@)
                &&& r.exists == exists
                &&& strings_view(r.warnings@) == match report {
                    Some(rep) => if exists {
                        strings_view(rep.warnings@)
                    } else {
                        Seq::empty()
                    },
                    None => Seq::empty(),
                }
            },
            HintsSource::NotApplicable => {
                &&& r.source@ == "not_applicable"@
                &&& r.path is None
                &&& !r.exists
                &&& r.warnings@.len() == 0
            },
        },
{
    match source {
        HintsSource::Explicit(path) => {
            let (valid, format, count, warnings) = match report {
                Some(rep) => (
                    Some(rep.valid),
                    Some(format_string(rep.format)),
                    Some(rep.boundary_count),
                    rep.warnings,
                ),
                None => {
                    let mut w: Vec<String> = Vec::new();
                    w.push(owned("hints file does not exist or could not be parsed"));
                    assert(strings_view(w@) =~= seq!["hints file does not exist or could not be parsed"@]);
                    (None, None, None, w)
                },
            };
            HintsPlan {
                source: owned("explicit"),
                path: Some(path),
                exists,
                valid,
                format,
                boundary_count: count,
                warnings,
            }
        },
        HintsSource::Disabled => {
            let mut w: Vec<String> = Vec::new();
            w.push(owned("--no-auto-hints skips conventional hints cache loading"));
            assert(strings_view(w@) =~= seq!["--no-auto-hints skips conventional hints cache loading"@]);
            HintsPlan {
                source: owned("disabled_single_segment_fallback"),
                path: None,
                exists: false,
                valid: None,
                format: None,
                boundary_count: None,
                warnings: w,
            }
        },
        HintsSource::Conventional(path) => {
            let rep = if exists {
                report
            } else {
                None
            };
            let (valid, format, count, warnings) = match rep {
                Some(rp) => (
                    Some(rp.valid),
                    Some(format_string(rp.format)),
                    Some(rp.boundary_count),
                    rp.warnings,
                ),
                None => {
                    let w: Vec<String> = Vec::new();
                    assert(strings_view(w@) =~= Seq::<Seq<char>>::empty());
                    (None, None, None, w)
                },
            };
            HintsPlan {
                source: if exists {
                    owned("auto_cache")
                } else {
                    owned("single_segment_fallback")
                },
                path: Some(path),
                exists,
                valid,
                format,
                boundary_count: count,
                warnings,
            }
        },
        HintsSource::NotApplicable => HintsPlan {
            source: owned("not_applicable"),
            path: None,
            exists: false,
            valid: None,
            format: None,
            boundary_count: None,
            warnings: Vec::new(),
        },
    }
}

pub open spec fn diff_hints_warning() -> Seq<char> {
    "diff uses single-segment authoritative mode; conventional hints cache is ignored until paired-segment diff coordination is implemented"@
}

/// The hints plan of a diff run, which lists each side as one segment: the
/// conventional cache is reported but not used. `exists` and `report`
/// describe the bucket's conventional hints file.
pub fn diff_single_segment_hints_plan(
    bucket: Option<&str>,
    region: Option<&str>,
    exists: bool,
    report: Option<HintsValidationReport>,
) -> (r: HintsPlan)
    ensures
        r.source@ == "disabled_for_diff_single_segment"@,
        opt_string_v(r.path) == match bucket {
            Some(b) => Some(hints_file_name(b@, opt_v(region))),
            None => None::<Seq<char>>,
        },
        r.exists == (bucket is Some && exists),
        plan_matches_report(r, if bucket is Some && exists {
            report
        } else {
            None
        }),
        strings_view(r.warnings@) == seq![diff_hints_warning()],
{
    let path = match bucket {
        Some(b) => Some(conventional_hints_path(b, region)),
        None => None,
    };
    let exists = path.is_some() && exists;
    let rep = if exists {
        report
    } else {
        None
    };
    let (valid, format, count) = match &rep {
        Some(rp) => (Some(rp.valid), Some(format_string(rp.format)), Some(rp.boundary_count)),
        None => (None, None, None),
    };
    let mut w: Vec<String> = Vec::new();
    w.push(
        owned(
            "diff uses single-segment authoritative mode; conventional hints cache is ignored until paired-segment diff coordination is implemented",
        ),
    );
    assert(strings_view(w@) =~= seq![diff_hints_warning()]);
    HintsPlan {
        source: owned("disabled_for_diff_single_segment"),
        path,
        exists,
        valid,
        format,
        boundary_count: count,
        warnings: w,
    }
}

/// How a run would use its checkpoint.
#[derive(Debug, Clone)]
pub struct CheckpointPlan {
    pub enabled: bool,
    pub path: Option<String>,
    pub exists: bool,
    pub valid: Option<bool>,
    pub identity_matches: Option<bool>,
    pub identity_mismatches: Vec<String>,
    pub completed_segments: Option<usize>,
    pub total_segments: Option<usize>,
    pub identity_fields: Vec<String>,
}

pub open spec fn identity_field_names() -> Seq<Seq<char>> {
    seq![
        "bucket"@,
        "region"@,
        "prefix"@,
        "delimiter"@,
        "max_keys"@,
        "profile"@,
        "addressing_style"@,
        "mode"@,
    ]
}

/// The plan of a checkpoint that has not been looked at.
pub fn default_checkpoint_plan(enabled: bool, path: Option<String>) -> (r: CheckpointPlan)
    ensures
        r.enabled == enabled,
        r.path == path,
        !r.exists,
        r.valid is None,
        r.identity_matches is None,
        r.identity_mismatches@.len() == 0,
        r.completed_segments is None,
        r.total_segments is None,
        strings_view(r.identity_fields@) == identity_field_names(),
{
    let mut fields: Vec<String> = Vec::new();
    fields.push(owned("bucket"));
    fields.push(owned("region"));
    fields.push(owned("prefix"));
    fields.push(owned("delimiter"));
    fields.push(owned("max_keys"));
    fields.push(owned("profile"));
    fields.push(owned("addressing_style"));
    fields.push(owned("mode"));
    assert(strings_view(fields@) =~= identity_field_names());
    CheckpointPlan {
        enabled,
        path,
        exists: false,
        valid: None,
        identity_matches: None,
        identity_mismatches: Vec::new(),
        completed_segments: None,
        total_segments: None,
        identity_fields: fields,
    }
}

/// The checkpoint plan of a run: `exists` says whether the checkpoint file
/// is there and `loaded` what parsing it gave. A loaded journal reports its
/// progress and, against the current identity, the fields that differ.
pub fn checkpoint_plan(
    enabled: bool,
    path: Option<String>,
    current_identity: Option<&CheckpointIdentity>,
    exists: bool,
    loaded: Option<CheckpointJournal>,
) -> (r: CheckpointPlan)
    ensures
        r.enabled == enabled,
        opt_string_v(r.path) == opt_string_v(path),
        strings_view(r.identity_fields@) == identity_field_names(),
        r.exists == (path is Some && exists),
        !(path is Some && exists) ==> r.valid is None && r.identity_matches is None
            && r.completed_segments is None && r.total_segments is None
            && r.identity_mismatches@.len() == 0,
        path is Some && exists ==> match loaded {
            Some(j) => {
                &&& r.valid == Some(true)
                &&& r.completed_segments == Some(j.completed_indices@.len() as usize)
                &&& r.total_segments == Some(j.total_segments)
                &&& match (j.identity, current_identity) {
                    (Some(stored), Some(cur)) => r.identity_matches == Some(
                        identity_diff(stored, *cur).len() == 0,
                    ) && strings_view(r.identity_mismatches@) == identity_diff(stored, *cur),
                    (None, Some(_)) => r.identity_matches == Some(false) && strings_view(
                        r.identity_mismatches@,
                    ) == seq!["identity"@],
                    _ => r.identity_matches is None && r.identity_mismatches@.len() == 0,
                }
            },
            None => r.valid == Some(false) && r.identity_matches == (if current_identity is Some {
                Some(false)
            } else {
                None
            }) && r.identity_mismatches@.len() == 0 && r.completed_segments is None,
        },
{
    let path_copy = clone_opt(&path);
    let mut plan = default_checkpoint_plan(enabled, path);
    if path_copy.is_none() || !exists {
        plan.path = path_copy;
        return plan;
    }
    plan.path = path_copy;
    plan.exists = true;
    match loaded {
        Some(journal) => {
            plan.valid = Some(true);
            plan.completed_segments = Some(journal.completed_indices.len());
            plan.total_segments = Some(journal.total_segments);
            match (&journal.identity, current_identity) {
                (Some(stored), Some(current)) => {
                    let mismatches = stored.diff(current);
                    plan.identity_matches = Some(mismatches.len() == 0);
                    plan.identity_mismatches = mismatches;
                },
                (None, Some(_)) => {
                    plan.identity_matches = Some(false);
                    let mut v: Vec<String> = Vec::new();
                    v.push(owned("identity"));
                    assert(strings_view(v@) =~= seq!["identity"@]);
                    plan.identity_mismatches = v;
                },
                _ => {},
            }
        },
        None => {
            plan.valid = Some(false);
            if current_identity.is_some() {
                plan.identity_matches = Some(false);
            }
        },
    }
    plan
}

// ── Output files ───────────────────────────────────────────

/// The parent that `std::path::Path::parent` gives for a path.
pub uninterp spec fn std_path_parent(p: Seq<char>) -> Option<Seq<char>>;

/// `Path::parent` (std) on a path given as text, the parent converted back
/// to text; the result is named `std_path_parent` and nothing more is
/// claimed.
#[verifier::external_body]
fn path_parent(path: &str) -> (r: Option<String>)
    ensures
        opt_string_v(r) == std_path_parent(path@),
{
    std::path::Path::new(path).parent().map(|p| p.to_string_lossy().into_owned())
}

/// The directory an output path is written into, where it names one.
pub open spec fn parent_of(p: Seq<char>) -> Option<Seq<char>> {
    match std_path_parent(p) {
        Some(q) => if q.len() > 0 {
            Some(q)
        } else {
            None
        },
        None => None,
    }
}

pub fn output_parent(path: &str) -> (r: Option<String>)
    ensures
        opt_string_v(r) == parent_of(path@),
{
    match path_parent(path) {
        Some(q) => if q.as_str().is_empty() {
            None
        } else {
            Some(q)
        },
        None => None,
    }
}

/// A planned output file and what is already there.
#[derive(Debug, Clone)]
pub struct FileConflict {
    pub path: String,
    pub exists: bool,
    pub parent_path: Option<String>,
    pub parent_exists: bool,
    pub parent_writable: Option<bool>,
}

/// What the application observed of one output path: whether it exists,
/// whether its parent directory (`output_parent`) exists, and whether the
/// parent is writable where its metadata could be read.
#[derive(Debug, Clone, Copy)]
pub struct PathFacts {
    pub exists: bool,
    pub parent_exists: bool,
    pub parent_writable: Option<bool>,
}

/// The configured output paths, in report order.
pub open spec fn output_paths(o: OutputPathSummary) -> Seq<Seq<char>> {
    let a = match o.parquet_file {
        Some(p) => seq![p@],
        None => Seq::empty(),
    };
    let b = match o.ks_file {
        Some(p) => a.push(p@),
        None => a,
    };
    let c = match o.hints_file {
        Some(p) => b.push(p@),
        None => b,
    };
    let d = match o.trace_compat {
        Some(p) => c.push(p@),
        None => c,
    };
    match o.log_file {
        Some(p) => d.push(p@),
        None => d,
    }
}

fn push_opt(out: &mut Vec<String>, o: &Option<String>)
    ensures
        strings_view(final(out)@) == match o {
            Some(p) => strings_view(old(out)@).push(p@),
            None => strings_view(old(out)@),
        },
{
    if let Some(p) = o {
        let ghost before = out@;
        out.push(owned(p.as_str()));
        assert(strings_view(out@) =~= strings_view(before).push(p@));
    }
}

pub fn planned_output_files(outputs: &OutputPathSummary) -> (r: Vec<String>)
    ensures
        strings_view(r@) == output_paths(*outputs),
{
    let mut v: Vec<String> = Vec::new();
    assert(strings_view(v@) =~= Seq::<Seq<char>>::empty());
    push_opt(&mut v, &outputs.parquet_file);
    proof {
        if outputs.parquet_file is Some {
            assert(strings_view(v@) =~= seq![outputs.parquet_file->Some_0@]);
        }
    }
    push_opt(&mut v, &outputs.ks_file);
    push_opt(&mut v, &outputs.hints_file);
    push_opt(&mut v, &outputs.trace_compat);
    push_opt(&mut v, &outputs.log_file);
    v
}

/// The conflicts of the configured output files; `facts[i]` is what was
/// observed of the `i`-th of `planned_output_files`. Without a parent
/// directory the parent counts as existing.
pub fn output_conflicts(outputs: &OutputPathSummary, facts: &[PathFacts]) -> (r: Vec<FileConflict>)
    requires
        facts.len() == output_paths(*outputs).len(),
    ensures
        r@.len() == facts.len(),
        forall|i: int|
            0 <= i < r@.len() ==> {
                let c = #[trigger] r@[i];
                let p = output_paths(*outputs)[i];
                &&& c.path@ == p
                &&& c.exists == facts@[i].exists
                &&& opt_string_v(c.parent_path) == parent_of(p)
                &&& c.parent_exists == if parent_of(p) is Some {
                    facts@[i].parent_exists
                } else {
                    true
                }
                &&& c.parent_writable == if parent_of(p) is Some {
                    facts@[i].parent_writable
                } else {
                    None
                }
            },
{
    let paths = planned_output_files(outputs);
    let mut out: Vec<FileConflict> = Vec::new();
    let mut i: usize = 0;
    while i < paths.len()
        invariant
            i <= paths.len(),
            paths@.len() == facts.len(),
            strings_view(paths@) == output_paths(*outputs),
            out@.len() == i,
            forall|k: int|
                0 <= k < i ==> {
                    let c = #[trigger] out@[k];
                    let p = output_paths(*outputs)[k];
                    &&& c.path@ == p
                    &&& c.exists == facts@[k].exists
                    &&& opt_string_v(c.parent_path) == parent_of(p)
                    &&& c.parent_exists == if parent_of(p) is Some {
                        facts@[k].parent_exists
                    } else {
                        true
                    }
                    &&& c.parent_writable == if parent_of(p) is Some {
                        facts@[k].parent_writable
                    } else {
                        None
                    }
                },
        decreases paths.len() - i,
    {
        let path = paths[i].as_str();
        assert(strings_view(paths@)[i as int] == paths@[i as int]@);
        let parent = output_parent(path);
        let f = facts[i];
        let (parent_exists, parent_writable) = match &parent {
            Some(_) => (f.parent_exists, f.parent_writable),
            None => (true, None),
        };
        out.push(
            FileConflict {
                path: owned(path),
                exists: f.exists,
                parent_path: parent,
                parent_exists,
                parent_writable,
            },
        );
        i += 1;
    }
    out
}

// ── Artifacts ──────────────────────────────────────────────

#[derive(Debug, Clone)]
pub struct ParquetArtifactSummary {
    pub row_count: i64,
    pub row_group_count: usize,
    pub schema_fields: Vec<String>,
}

#[derive(Debug, Clone)]
pub struct ArtifactSummary {
    pub kind: String,
    pub path: String,
    pub exists: bool,
    pub size_bytes: Option<u64>,
    pub sha256: Option<String>,
    pub line_count: Option<usize>,
    pub parquet: Option<ParquetArtifactSummary>,
}

/// What the application read of one artifact file (each `None` where the
/// read failed).
#[derive(Debug, Clone)]
pub struct ArtifactFacts {
    pub exists: bool,
    pub size_bytes: Option<u64>,
    pub sha256: Option<String>,
    pub line_count: Option<usize>,
    pub parquet: Option<ParquetArtifactSummary>,
}

/// The artifact kinds of the configured outputs, in report order.
pub open spec fn artifact_kinds(o: OutputPathSummary) -> Seq<Seq<char>> {
    let a = if o.parquet_file is Some {
        seq!["parquet"@]
    } else {
        Seq::empty()
    };
    let b = if o.ks_file is Some {
        a.push("ks"@)
    } else {
        a
    };
    let c = if o.hints_file is Some {
        b.push("hints"@)
    } else {
        b
    };
    let d = if o.trace_compat is Some {
        c.push("trace"@)
    } else {
        c
    };
    if o.log_file is Some {
        d.push("log"@)
    } else {
        d
    }
}

pub fn artifact_kind_list(outputs: &OutputPathSummary) -> (r: Vec<&'static str>)
    ensures
        crate::profiles::strs_view(r@) == artifact_kinds(*outputs),
{
    let mut v: Vec<&'static str> = Vec::new();
    if outputs.parquet_file.is_some() {
        v.push("parquet");
    }
    if outputs.ks_file.is_some() {
        v.push("ks");
    }
    if outputs.hints_file.is_some() {
        v.push("hints");
    }
    if outputs.trace_compat.is_some() {
        v.push("trace");
    }
    if outputs.log_file.is_some() {
        v.push("log");
    }
    proof {
        assert(crate::profiles::strs_view(v@) =~= artifact_kinds(*outputs));
    }
    v
}

/// Whether the line count of an artifact of this kind is reported.
pub open spec fn counts_lines(kind: Seq<char>) -> bool {
    kind == "ks"@ || kind == "trace"@ || kind == "log"@ || kind == "hints"@
}

/// `r` summarises the artifact `kind` at `path` from what was read of it:
/// nothing but its name where it does not exist; the line count only for
/// text kinds and the Parquet metadata only for Parquet files.
pub open spec fn summarizes(r: ArtifactSummary, kind: Seq<char>, path: Seq<char>, facts: ArtifactFacts) -> bool {
    &&& r.kind@ == kind
    &&& r.path@ == path
    &&& r.exists == facts.exists
    &&& !facts.exists ==> r.size_bytes is None && r.sha256 is None && r.line_count is None
        && r.parquet is None
    &&& facts.exists ==> {
        &&& r.size_bytes == facts.size_bytes
        &&& opt_string_v(r.sha256) == opt_string_v(facts.sha256)
        &&& r.line_count == (if counts_lines(kind) {
            facts.line_count
        } else {
            None
        })
        &&& r.parquet == (if kind == "parquet"@ {
            facts.parquet
        } else {
            None
        })
    }
}

/// One artifact's summary from what was read of it.
pub fn summarize_artifact(kind: &str, path: &str, facts: ArtifactFacts) -> (r: ArtifactSummary)
    ensures
        summarizes(r, kind@, path@, facts),
{
    if !facts.exists {
        return ArtifactSummary {
            kind: owned(kind),
            path: owned(path),
            exists: false,
            size_bytes: None,
            sha256: None,
            line_count: None,
            parquet: None,
        };
    }
    let lines = str_eq(kind, "ks") || str_eq(kind, "trace") || str_eq(kind, "log") || str_eq(
        kind,
        "hints",
    );
    let is_parquet = str_eq(kind, "parquet");
    ArtifactSummary {
        kind: owned(kind),
        path: owned(path),
        exists: true,
        size_bytes: facts.size_bytes,
        sha256: facts.sha256,
        line_count: if lines {
            facts.line_count
        } else {
            None
        },
        parquet: if is_parquet {
            facts.parquet
        } else {
            None
        },
    }
}

/// The artifacts of the configured outputs; `facts[i]` is what was read of
/// the `i`-th of `planned_output_files`.
pub fn collect_artifacts(outputs: &OutputPathSummary, facts: Vec<ArtifactFacts>) -> (r: Vec<ArtifactSummary>)
    requires
        facts.len() == output_paths(*outputs).len(),
    ensures
        r@.len() == facts.len(),
        forall|i: int|
            0 <= i < r@.len() ==> summarizes(
                #[trigger] r@[i],
                artifact_kinds(*outputs)[i],
                output_paths(*outputs)[i],
                facts@[i],
            ),
{
    let paths = planned_output_files(outputs);
    let kinds = artifact_kind_list(outputs);
    proof {
        assert(artifact_kinds(*outputs).len() == output_paths(*outputs).len());
    }
    let mut out: Vec<ArtifactSummary> = Vec::new();
    let mut facts = facts;
    let ghost fs = facts@;
    let mut i: usize = 0;
    while i < paths.len()
        invariant
            i <= paths.len(),
            paths@.len() == fs.len(),
            kinds@.len() == fs.len(),
            strings_view(paths@) == output_paths(*outputs),
            crate::profiles::strs_view(kinds@) == artifact_kinds(*outputs),
            facts@.len() == fs.len() - i,
            forall|k: int| 0 <= k < facts@.len() ==> facts@[k] == fs[k + i],
            out@.len() == i,
            forall|k: int|
                0 <= k < i ==> summarizes(
                    #[trigger] out@[k],
                    artifact_kinds(*outputs)[k],
                    output_paths(*outputs)[k],
                    fs[k],
                ),
        decreases paths.len() - i,
    {
        let f = facts.remove(0);
        assert(strings_view(paths@)[i as int] == paths@[i as int]@);
        assert(crate::profiles::strs_view(kinds@)[i as int] == kinds@[i as int]@);
        out.push(summarize_artifact(kinds[i], paths[i].as_str(), f));
        i += 1;
    }
    out
}

// ── Doctor ─────────────────────────────────────────────────

#[derive(Debug, Clone)]
pub struct DoctorCheck {
    pub name: String,
    pub status: String,
    pub message: String,
}

#[derive(Debug, Clone)]
pub struct DoctorReport {
    pub schema_version: &'static str,
    pub tool_version: &'static str,
    pub status: String,
    pub local_only: bool,
    pub cwd: String,
    pub checks: Vec<DoctorCheck>,
}

pub type CheckV = (Seq<char>, Seq<char>, Seq<char>);

pub open spec fn check_view(c: DoctorCheck) -> CheckV {
    (c.name@, c.status@, c.message@)
}

pub open spec fn checks_view(v: Seq<DoctorCheck>) -> Seq<CheckV> {
    Seq::new(v.len(), |i: int| check_view(v[i]))
}

fn check(name: &str, status: &str, message: String) -> (r: DoctorCheck)
    ensures
        check_view(r) == (name@, status@, message@),
{
    DoctorCheck { name: owned(name), status: owned(status), message }
}

fn join2(a: &str, b: &str) -> (r: String)
    ensures
        r@ == a@ + b@,
{
    let mut out: Vec<char> = Vec::new();
    crate::text::append_str(&mut out, a);
    crate::text::append_str(&mut out, b);
    string_from_chars(out.as_slice())
}

fn join3(a: &str, b: &str, c: &str) -> (r: String)
    ensures
        r@ == a@ + b@ + c@,
{
    let mut out: Vec<char> = Vec::new();
    crate::text::append_str(&mut out, a);
    crate::text::append_str(&mut out, b);
    crate::text::append_str(&mut out, c);
    string_from_chars(out.as_slice())
}

/// The `endpoint_url` check: a configured endpoint with template
/// placeholders warns; a known profile that needs an explicit endpoint
/// warns when none is configured.
pub open spec fn endpoint_check_spec(endpoint: Option<Seq<char>>, profile: Option<Seq<char>>) -> CheckV {
    match endpoint {
        Some(e) => if crate::profiles::has_placeholder(e) {
            (
                "endpoint_url"@,
                "warn"@,
                "endpoint_url contains template placeholders and must be edited before a real run: "@
                    + e,
            )
        } else {
            ("endpoint_url"@, "ok"@, "endpoint_url is configured: "@ + e)
        },
        None => match profile {
            Some(n) => if crate::profiles::profile_index(n) >= 0
                && crate::profiles::profile_requires_endpoint(crate::profiles::profile_index(n)) {
                (
                    "endpoint_url"@,
                    "warn"@,
                    "profile '"@ + crate::profiles::profile_name(crate::profiles::profile_index(n))
                        + "' requires --endpoint-url or s3.endpoint_url in config"@,
                )
            } else {
                ("endpoint_url"@, "ok"@, "no explicit endpoint URL required by the selected profile"@)
            },
            None => ("endpoint_url"@, "ok"@, "no explicit endpoint URL required by the selected profile"@),
        },
    }
}

pub fn endpoint_url_check(cfg: &S3TurboConfig) -> (r: DoctorCheck)
    ensures
        check_view(r) == endpoint_check_spec(
            opt_string_v(cfg.s3.endpoint_url),
            opt_string_v(cfg.s3.profile),
        ),
{
    if let Some(endpoint) = &cfg.s3.endpoint_url {
        if crate::profiles::endpoint_url_has_template_placeholder(endpoint.as_str()) {
            return check(
                "endpoint_url",
                "warn",
                join2("endpoint_url contains template placeholders and must be edited before a real run: ", endpoint.as_str()),
            );
        }
        return check(
            "endpoint_url",
            "ok",
            join2("endpoint_url is configured: ", endpoint.as_str()),
        );
    }
    if let Some(profile_name) = &cfg.s3.profile {
        if let Some(profile) = get_profile(profile_name.as_str()) {
            proof {
                crate::profiles::lemma_profile_facts(profile, crate::profiles::profile_index(profile_name@));
            }
            if profile.requires_explicit_endpoint {
                return check(
                    "endpoint_url",
                    "warn",
                    join3("profile '", profile.name, "' requires --endpoint-url or s3.endpoint_url in config"),
                );
            }
        }
    }
    check("endpoint_url", "ok", owned("no explicit endpoint URL required by the selected profile"))
}

/// The check of an output's parent directory, given whether it exists.
pub open spec fn parent_check_spec(name: Seq<char>, path: Seq<char>, parent_exists: bool) -> CheckV {
    match parent_of(path) {
        Some(p) => if !parent_exists {
            (name, "error"@, "parent directory does not exist: "@ + p)
        } else {
            (name, "ok"@, "parent directory exists: "@ + p)
        },
        None => (name, "ok"@, "path is relative to current directory"@),
    }
}

pub fn parent_dir_check(name: &str, path: &str, parent_exists: bool) -> (r: DoctorCheck)
    ensures
        check_view(r) == parent_check_spec(name@, path@, parent_exists),
{
    match output_parent(path) {
        Some(parent) => if !parent_exists {
            check(name, "error", join2("parent directory does not exist: ", parent.as_str()))
        } else {
            check(name, "ok", join2("parent directory exists: ", parent.as_str()))
        },
        None => check(name, "ok", owned("path is relative to current directory")),
    }
}


/// What the doctor reads of the environment and the file system.
#[derive(Debug, Clone)]
pub struct DoctorFacts {
    pub cwd: String,
    pub local_config_exists: bool,
    /// The value of `AWS_PROFILE`, where it is set.
    pub aws_profile: Option<String>,
    pub output_parquet_parent_exists: bool,
    pub output_ks_parent_exists: bool,
    pub log_parent_exists: bool,
    pub trace_parent_exists: bool,
}

pub open spec fn config_file_check_spec(exists: bool) -> CheckV {
    if exists {
        ("config_file"@, "ok"@, "local s3-turbo-list.toml exists"@)
    } else {
        (
            "config_file"@,
            "warn"@,
            "local s3-turbo-list.toml not found; run init-config if you want a starter config"@,
        )
    }
}

pub open spec fn aws_profile_check_spec(p: Option<Seq<char>>) -> CheckV {
    match p {
        Some(v) => if v.len() > 0 {
            ("aws_profile"@, "ok"@, "AWS_PROFILE="@ + v)
        } else {
            aws_profile_unset()
        },
        None => aws_profile_unset(),
    }
}

pub open spec fn aws_profile_unset() -> CheckV {
    (
        "aws_profile"@,
        "warn"@,
        "AWS_PROFILE is not set; the AWS SDK will use its default credential chain"@,
    )
}

/// The extra warning when `AWS_PROFILE` names an endpoint preset.
pub open spec fn preset_name_checks_spec(p: Option<Seq<char>>) -> Seq<CheckV> {
    match p {
        Some(v) => if crate::profiles::is_preset_name(v) {
            seq![
                (
                    "aws_profile_endpoint_preset_name"@,
                    "warn"@,
                    "AWS_PROFILE="@ + v
                        + " also matches an endpoint compatibility preset name; verify this is your credentials profile, not a --profile value pasted into AWS_PROFILE"@,
                ),
            ]
        } else {
            Seq::empty()
        },
        None => Seq::empty(),
    }
}

pub open spec fn endpoint_profile_check_spec(profile: Option<Seq<char>>) -> CheckV {
    match profile {
        Some(n) => if crate::profiles::profile_index(n) >= 0 {
            (
                "endpoint_profile"@,
                "ok"@,
                "endpoint compatibility profile '"@ + n + "' is known"@,
            )
        } else {
            (
                "endpoint_profile"@,
                "warn"@,
                "endpoint compatibility profile '"@ + n
                    + "' is unknown; this is not an AWS credentials profile"@,
            )
        },
        None => ("endpoint_profile"@, "ok"@, "no endpoint compatibility profile selected"@),
    }
}

pub open spec fn network_check_spec(local_only: bool) -> CheckV {
    if local_only {
        ("network"@, "skipped"@, "local-only doctor does not contact S3 endpoints"@)
    } else {
        (
            "network"@,
            "warn"@,
            "network probing is intentionally not implemented in doctor; use compat-probe explicitly"@,
        )
    }
}

/// The parent-directory check of an optional output path.
pub open spec fn opt_parent_checks(name: Seq<char>, path: Option<Seq<char>>, exists: bool) -> Seq<CheckV> {
    match path {
        Some(p) => seq![parent_check_spec(name, p, exists)],
        None => Seq::empty(),
    }
}

/// The first checks of the doctor, which hold in every run.
pub open spec fn doctor_head_spec(facts: DoctorFacts, tool_version: Seq<char>) -> Seq<CheckV> {
    seq![
        ("binary_version"@, "ok"@, tool_version),
        ("working_directory"@, "ok"@, facts.cwd@),
        ("config_parse"@, "ok"@, "resolved configuration is valid TOML/CLI state"@),
        config_file_check_spec(facts.local_config_exists),
    ]
}

pub open spec fn aws_profile_checks_spec(p: Option<Seq<char>>) -> Seq<CheckV> {
    seq![aws_profile_check_spec(p)] + preset_name_checks_spec(p)
}

/// The doctor's checks, in the order in which it runs them.
pub open spec fn doctor_checks_spec(
    local_only: bool,
    cfg: S3TurboConfig,
    facts: DoctorFacts,
    tool_version: Seq<char>,
) -> Seq<CheckV> {
    doctor_head_spec(facts, tool_version) + aws_profile_checks_spec(opt_string_v(facts.aws_profile)) + seq![
        endpoint_profile_check_spec(opt_string_v(cfg.s3.profile)),
        endpoint_check_spec(opt_string_v(cfg.s3.endpoint_url), opt_string_v(cfg.s3.profile)),
        network_check_spec(local_only),
    ] + opt_parent_checks(
        "output_parquet_parent"@,
        opt_string_v(cfg.output.parquet_file),
        facts.output_parquet_parent_exists,
    ) + opt_parent_checks(
        "output_ks_parent"@,
        opt_string_v(cfg.output.ks_file),
        facts.output_ks_parent_exists,
    ) + opt_parent_checks("log_parent"@, opt_string_v(cfg.output.log_file), facts.log_parent_exists)
        + opt_parent_checks(
        "trace_parent"@,
        opt_string_v(cfg.s3.trace_compat),
        facts.trace_parent_exists,
    )
}

/// A report is in error when any of its checks is.
pub open spec fn any_error(checks: Seq<CheckV>) -> bool {
    exists|i: int| 0 <= i < checks.len() && (#[trigger] checks[i]).1 == "error"@
}

/// The doctor reports an error only for an output whose parent directory
/// is missing: with every configured parent present, it is never in error.
pub proof fn law_doctor_errors_only_for_missing_parents(
    local_only: bool,
    cfg: S3TurboConfig,
    facts: DoctorFacts,
    tool_version: Seq<char>,
)
    requires
        facts.output_parquet_parent_exists,
        facts.output_ks_parent_exists,
        facts.log_parent_exists,
        facts.trace_parent_exists,
    ensures
        !any_error(doctor_checks_spec(local_only, cfg, facts, tool_version)),
{
    reveal_strlit("error");
    reveal_strlit("ok");
    reveal_strlit("warn");
    reveal_strlit("skipped");
    let cs = doctor_checks_spec(local_only, cfg, facts, tool_version);
    assert forall|i: int| 0 <= i < cs.len() implies (#[trigger] cs[i]).1 != "error"@ by {
        assert("ok"@.len() != "error"@.len());
        assert("warn"@.len() != "error"@.len());
        assert("skipped"@.len() != "error"@.len());
    }
}

fn push_check(checks: &mut Vec<DoctorCheck>, c: DoctorCheck)
    ensures
        checks_view(final(checks)@) == checks_view(old(checks)@).push(check_view(c)),
{
    checks.push(c);
    assert(checks_view(checks@) =~= checks_view(old(checks)@).push(check_view(c)));
}

fn push_parent_check(checks: &mut Vec<DoctorCheck>, name: &str, path: &Option<String>, exists: bool)
    ensures
        checks_view(final(checks)@) == checks_view(old(checks)@) + opt_parent_checks(
            name@,
            opt_string_v(*path),
            exists,
        ),
{
    match path {
        Some(p) => {
            push_check(checks, parent_dir_check(name, p.as_str(), exists));
        },
        None => {
            assert(checks_view(checks@) + Seq::<CheckV>::empty() =~= checks_view(checks@));
        },
    }
}

fn config_file_check(exists: bool) -> (r: DoctorCheck)
    ensures
        check_view(r) == config_file_check_spec(exists),
{
    if exists {
        check("config_file", "ok", owned("local s3-turbo-list.toml exists"))
    } else {
        check(
            "config_file",
            "warn",
            owned("local s3-turbo-list.toml not found; run init-config if you want a starter config"),
        )
    }
}

fn network_check(local_only: bool) -> (r: DoctorCheck)
    ensures
        check_view(r) == network_check_spec(local_only),
{
    if local_only {
        check("network", "skipped", owned("local-only doctor does not contact S3 endpoints"))
    } else {
        check(
            "network",
            "warn",
            owned(
                "network probing is intentionally not implemented in doctor; use compat-probe explicitly",
            ),
        )
    }
}

fn endpoint_profile_check(profile: &Option<String>) -> (r: DoctorCheck)
    ensures
        check_view(r) == endpoint_profile_check_spec(opt_string_v(*profile)),
{
    match profile {
        Some(name) => if get_profile(name.as_str()).is_some() {
            check(
                "endpoint_profile",
                "ok",
                join3("endpoint compatibility profile '", name.as_str(), "' is known"),
            )
        } else {
            check(
                "endpoint_profile",
                "warn",
                join3(
                    "endpoint compatibility profile '",
                    name.as_str(),
                    "' is unknown; this is not an AWS credentials profile",
                ),
            )
        },
        None => check("endpoint_profile", "ok", owned("no endpoint compatibility profile selected")),
    }
}

fn aws_profile_unset_check() -> (r: DoctorCheck)
    ensures
        check_view(r) == aws_profile_unset(),
{
    check(
        "aws_profile",
        "warn",
        owned("AWS_PROFILE is not set; the AWS SDK will use its default credential chain"),
    )
}

fn aws_profile_checks(p: &Option<String>) -> (r: Vec<DoctorCheck>)
    ensures
        checks_view(r@) == aws_profile_checks_spec(opt_string_v(*p)),
{
    let mut out: Vec<DoctorCheck> = Vec::new();
    match p {
        Some(v) => {
            if str_chars(v.as_str()).len() > 0 {
                push_check(&mut out, check("aws_profile", "ok", join2("AWS_PROFILE=", v.as_str())));
            } else {
                push_check(&mut out, aws_profile_unset_check());
            }
            if crate::profiles::is_endpoint_preset_name(v.as_str()) {
                push_check(
                    &mut out,
                    check(
                        "aws_profile_endpoint_preset_name",
                        "warn",
                        join3(
                            "AWS_PROFILE=",
                            v.as_str(),
                            " also matches an endpoint compatibility preset name; verify this is your credentials profile, not a --profile value pasted into AWS_PROFILE",
                        ),
                    ),
                );
            }
        },
        None => {
            push_check(&mut out, aws_profile_unset_check());
        },
    }
    assert(checks_view(out@) =~= seq![aws_profile_check_spec(opt_string_v(*p))]
        + preset_name_checks_spec(opt_string_v(*p)));
    out
}

fn push_all(checks: &mut Vec<DoctorCheck>, more: Vec<DoctorCheck>)
    ensures
        checks_view(final(checks)@) == checks_view(old(checks)@) + checks_view(more@),
{
    let ghost m = checks_view(more@);
    let ghost start = checks_view(checks@);
    let mut i: usize = 0;
    while i < more.len()
        invariant
            i <= more.len(),
            checks_view(more@) == m,
            checks_view(checks@) == start + m.take(i as int),
        decreases more.len() - i,
    {
        push_check(checks, more[i].clone_check());
        assert(m.take(i + 1) =~= m.take(i as int).push(m[i as int]));
        i += 1;
    }
    assert(m.take(more.len() as int) =~= m);
}

impl DoctorCheck {
    fn clone_check(&self) -> (r: DoctorCheck)
        ensures
            check_view(r) == check_view(*self),
    {
        check(self.name.as_str(), self.status.as_str(), owned(self.message.as_str()))
    }
}

fn has_error(checks: &Vec<DoctorCheck>) -> (r: bool)
    ensures
        r == any_error(checks_view(checks@)),
{
    let mut i: usize = 0;
    while i < checks.len()
        invariant
            i <= checks.len(),
            forall|k: int| 0 <= k < i ==> (#[trigger] checks_view(checks@)[k]).1 != "error"@,
        decreases checks.len() - i,
    {
        assert(checks_view(checks@)[i as int] == check_view(checks@[i as int]));
        if str_eq(checks[i].status.as_str(), "error") {
            return true;
        }
        i += 1;
    }
    false
}

/// The local health report of the doctor command: its checks, in order, from
/// the configuration and the facts read of the machine; the report is in
/// error exactly when one of its checks is.
pub fn doctor_report(
    local_only: bool,
    cfg: &S3TurboConfig,
    facts: DoctorFacts,
    tool_version: &'static str,
) -> (r: DoctorReport)
    ensures
        checks_view(r.checks@) == doctor_checks_spec(local_only, *cfg, facts, tool_version@),
        r.status@ == (if any_error(checks_view(r.checks@)) {
            "error"@
        } else {
            "ok"@
        }),
        r.schema_version@ == AGENT_SCHEMA_VERSION@,
        r.tool_version == tool_version,
        r.local_only == local_only,
        r.cwd@ == facts.cwd@,
{
    let ghost f = facts;
    let mut checks: Vec<DoctorCheck> = Vec::new();
    push_check(&mut checks, check("binary_version", "ok", owned(tool_version)));
    push_check(&mut checks, check("working_directory", "ok", owned(facts.cwd.as_str())));
    push_check(
        &mut checks,
        check("config_parse", "ok", owned("resolved configuration is valid TOML/CLI state")),
    );
    push_check(&mut checks, config_file_check(facts.local_config_exists));
    assert(checks_view(checks@) =~= doctor_head_spec(f, tool_version@));
    push_all(&mut checks, aws_profile_checks(&facts.aws_profile));
    let ghost mid = checks_view(checks@);
    push_check(&mut checks, endpoint_profile_check(&cfg.s3.profile));
    push_check(&mut checks, endpoint_url_check(cfg));
    push_check(&mut checks, network_check(local_only));
    assert(checks_view(checks@) =~= mid + seq![
        endpoint_profile_check_spec(opt_string_v(cfg.s3.profile)),
        endpoint_check_spec(opt_string_v(cfg.s3.endpoint_url), opt_string_v(cfg.s3.profile)),
        network_check_spec(local_only),
    ]);
    push_parent_check(
        &mut checks,
        "output_parquet_parent",
        &cfg.output.parquet_file,
        facts.output_parquet_parent_exists,
    );
    push_parent_check(
        &mut checks,
        "output_ks_parent",
        &cfg.output.ks_file,
        facts.output_ks_parent_exists,
    );
    push_parent_check(&mut checks, "log_parent", &cfg.output.log_file, facts.log_parent_exists);
    push_parent_check(&mut checks, "trace_parent", &cfg.s3.trace_compat, facts.trace_parent_exists);
    let any = has_error(&checks);
    DoctorReport {
        schema_version: AGENT_SCHEMA_VERSION,
        tool_version,
        status: if any {
            owned("error")
        } else {
            owned("ok")
        },
        local_only,
        cwd: facts.cwd,
        checks,
    }
}


// ── Plan report ────────────────────────────────────────────

/// The dry-run plan of a command: what it would read, write and warn about,
/// without contacting any endpoint.
#[derive(Debug, Clone)]
pub struct PlanReport {
    pub schema_version: &'static str,
    pub tool_version: &'static str,
    pub status: String,
    pub command: Vec<String>,
    pub network: String,
    pub inputs: CommandInputSummary,
    pub outputs: OutputPathSummary,
    pub config_source: ConfigSourceSummary,
    pub resolved_config: ResolvedConfigSummary,
    pub hints: HintsPlan,
    pub checkpoint: CheckpointPlan,
    pub file_conflicts: Vec<FileConflict>,
    pub warnings: Vec<String>,
}

/// The command a plan is made for, as far as its warnings depend on it.
#[derive(Debug, Clone, Copy, PartialEq, Eq, Structural)]
pub enum PlanCommand {
    List,
    Diff,
    CompatProbe,
    Other,
}

pub open spec fn msg_if(b: bool, m: Seq<char>) -> Seq<Seq<char>> {
    if b {
        seq![m]
    } else {
        Seq::empty()
    }
}

pub open spec fn single_segment_source(source: Seq<char>) -> bool {
    source == "single_segment_fallback"@ || source == "disabled_single_segment_fallback"@
}

/// The warnings a plan adds to those of the configuration and the runtime
/// guardrails, in order.
pub open spec fn plan_extra_warnings(
    command: PlanCommand,
    mode: Seq<char>,
    hints_source: Seq<char>,
    delimiter_empty: bool,
    summary_only: bool,
    has_continuation_token: bool,
) -> Seq<Seq<char>> {
    msg_if(
        command == PlanCommand::CompatProbe,
        "compat-probe will contact the configured endpoint when not run with --dry-run"@,
    ) + msg_if(
        mode == "list"@ && single_segment_source(hints_source),
        "list is planned as a single ListObjectsV2 chain; --concurrency only improves throughput when hints provide multiple key-space segments"@,
    ) + msg_if(
        delimiter_empty && command == PlanCommand::List,
        "--delimiter '' means recursive listing and is omitted from ListObjectsV2 requests for S3-compatible provider compatibility"@,
    ) + msg_if(
        summary_only,
        "summary-only will scan S3 ListObjectsV2 pages when not run with --dry-run, but it will not write Parquet or KeySpace outputs"@,
    ) + msg_if(
        has_continuation_token,
        "continuation-token resumes one sequential ListObjectsV2 chain; hints and checkpoint resume are intentionally not combined with it"@,
    )
}

fn push_msg_if(out: &mut Vec<String>, b: bool, m: &str)
    ensures
        strings_view(final(out)@) == strings_view(old(out)@) + msg_if(b, m@),
{
    if b {
        out.push(owned(m));
        assert(strings_view(out@) =~= strings_view(old(out)@) + msg_if(b, m@));
    } else {
        assert(strings_view(out@) =~= strings_view(old(out)@) + msg_if(b, m@));
    }
}

/// The warnings of a plan: those of the configuration, then those of the
/// runtime guardrails, then the plan's own.
pub fn plan_warnings(
    config_warnings: &Vec<String>,
    guardrail_warnings: &Vec<String>,
    command: PlanCommand,
    mode: &str,
    hints_source: &str,
    delimiter_empty: bool,
    summary_only: bool,
    has_continuation_token: bool,
) -> (r: Vec<String>)
    ensures
        strings_view(r@) == strings_view(config_warnings@) + strings_view(guardrail_warnings@)
            + plan_extra_warnings(
            command,
            mode@,
            hints_source@,
            delimiter_empty,
            summary_only,
            has_continuation_token,
        ),
{
    let mut out = clone_strings(config_warnings);
    let g = guardrail_warnings;
    let ghost a = strings_view(out@);
    let mut i: usize = 0;
    while i < g.len()
        invariant
            i <= g.len(),
            strings_view(out@) == a + strings_view(g@).take(i as int),
        decreases g.len() - i,
    {
        let ghost before = out@;
        out.push(owned(g[i].as_str()));
        assert(strings_view(out@) =~= strings_view(before).push(g@[i as int]@));
        i += 1;
        assert(strings_view(g@).take(i as int) =~= strings_view(g@).take(i - 1).push(g@[i - 1]@));
    }
    assert(strings_view(g@).take(g.len() as int) =~= strings_view(g@));
    let is_list_mode = str_eq(mode, "list");
    let single = str_eq(hints_source, "single_segment_fallback") || str_eq(
        hints_source,
        "disabled_single_segment_fallback",
    );
    push_msg_if(
        &mut out,
        command == PlanCommand::CompatProbe,
        "compat-probe will contact the configured endpoint when not run with --dry-run",
    );
    push_msg_if(
        &mut out,
        is_list_mode && single,
        "list is planned as a single ListObjectsV2 chain; --concurrency only improves throughput when hints provide multiple key-space segments",
    );
    push_msg_if(
        &mut out,
        delimiter_empty && command == PlanCommand::List,
        "--delimiter '' means recursive listing and is omitted from ListObjectsV2 requests for S3-compatible provider compatibility",
    );
    push_msg_if(
        &mut out,
        summary_only,
        "summary-only will scan S3 ListObjectsV2 pages when not run with --dry-run, but it will not write Parquet or KeySpace outputs",
    );
    push_msg_if(
        &mut out,
        has_continuation_token,
        "continuation-token resumes one sequential ListObjectsV2 chain; hints and checkpoint resume are intentionally not combined with it",
    );
    out
}

// ── Output file stems ──────────────────────────────────────

pub open spec fn stem_part(o: Option<Seq<char>>) -> Seq<char> {
    match o {
        Some(v) => if v.len() > 0 {
            "_"@ + sanitized(v)
        } else {
            Seq::empty()
        },
        None => Seq::empty(),
    }
}

/// The stem of a run's output files: the sanitized region (when non-empty),
/// bucket, target region (when non-empty) and target bucket, then the
/// timestamp, joined by `_`.
pub open spec fn output_stem_spec(
    region: Option<Seq<char>>,
    bucket: Seq<char>,
    target_region: Option<Seq<char>>,
    target_bucket: Option<Seq<char>>,
    timestamp: Seq<char>,
) -> Seq<char> {
    let head = match region {
        Some(r) => if r.len() > 0 {
            sanitized(r) + "_"@
        } else {
            Seq::empty()
        },
        None => Seq::empty(),
    };
    let tail_bucket = match target_bucket {
        Some(b) => "_"@ + sanitized(b),
        None => Seq::empty(),
    };
    head + sanitized(bucket) + stem_part(target_region) + tail_bucket + "_"@ + timestamp
}

pub fn output_stem_with_timestamp(
    region: Option<&str>,
    bucket: &str,
    target_region: Option<&str>,
    target_bucket: Option<&str>,
    timestamp: &str,
) -> (r: String)
    ensures
        r@ == output_stem_spec(
            opt_v(region),
            bucket@,
            opt_v(target_region),
            opt_v(target_bucket),
            timestamp@,
        ),
{
    let mut out: Vec<char> = Vec::new();
    match region {
        Some(reg) => {
            if str_chars(reg).len() > 0 {
                let sr = sanitize_path_component(reg);
                crate::text::append_str(&mut out, sr.as_str());
                crate::text::append_str(&mut out, "_");
            }
        },
        None => {},
    }
    let sb = sanitize_path_component(bucket);
    crate::text::append_str(&mut out, sb.as_str());
    match target_region {
        Some(reg) => {
            if str_chars(reg).len() > 0 {
                let sr = sanitize_path_component(reg);
                crate::text::append_str(&mut out, "_");
                crate::text::append_str(&mut out, sr.as_str());
            }
        },
        None => {},
    }
    match target_bucket {
        Some(b) => {
            let st = sanitize_path_component(b);
            crate::text::append_str(&mut out, "_");
            crate::text::append_str(&mut out, st.as_str());
        },
        None => {},
    }
    crate::text::append_str(&mut out, "_");
    crate::text::append_str(&mut out, timestamp);
    proof {
        assert(out@ =~= output_stem_spec(
            opt_v(region),
            bucket@,
            opt_v(target_region),
            opt_v(target_bucket),
            timestamp@,
        ));
    }
    string_from_chars(out.as_slice())
}

// ── Runtime guardrails ─────────────────────────────────────

/// The warning given when `--profile` names an endpoint preset and nothing
/// in the environment selects credentials.
pub open spec fn preset_profile_warning(profile: Option<Seq<char>>, credential_signal: bool) -> Seq<
    Seq<char>,
> {
    match profile {
        Some(p) => if crate::profiles::is_preset_name(p) && !credential_signal {
            seq![
                "--profile '"@ + p
                    + "' is an endpoint compatibility preset only; credentials still come from AWS_PROFILE or the AWS SDK default credential chain. If '"@
                    + p + "' is also your credentials profile name, set AWS_PROFILE="@ + p + "."@,
            ]
        } else {
            Seq::empty()
        },
        None => Seq::empty(),
    }
}

/// The provider setup warnings of a command: the configuration's endpoint
/// guardrails for list and diff; for compat-probe, a warning when its
/// effective endpoint still holds template placeholders.
pub open spec fn provider_setup_warnings(
    command: PlanCommand,
    cfg: S3TurboConfig,
    probe_endpoint: Option<Seq<char>>,
) -> Seq<Seq<char>> {
    if command == PlanCommand::List || command == PlanCommand::Diff {
        crate::profiles::guardrail_warnings(
            opt_string_v(cfg.s3.profile),
            opt_string_v(cfg.s3.endpoint_url),
        )
    } else if command == PlanCommand::CompatProbe {
        match probe_endpoint {
            Some(e) => if crate::profiles::has_placeholder(e) {
                seq![crate::profiles::placeholder_warning(e)]
            } else {
                Seq::empty()
            },
            None => Seq::empty(),
        }
    } else {
        Seq::empty()
    }
}

/// The warnings printed before a run, in order.
pub open spec fn runtime_warnings_spec(
    command: PlanCommand,
    cfg: S3TurboConfig,
    credential_signal: bool,
    probe_endpoint: Option<Seq<char>>,
    summary_only: bool,
    output_path_flags: bool,
    stdout_rows: bool,
) -> Seq<Seq<char>> {
    (if command != PlanCommand::Other {
        preset_profile_warning(opt_string_v(cfg.s3.profile), credential_signal)
            + provider_setup_warnings(command, cfg, probe_endpoint)
    } else {
        Seq::empty()
    }) + msg_if(
        summary_only && output_path_flags,
        "--summary-only does not write Parquet or KeySpace outputs; output path flags are ignored"@,
    ) + (if stdout_rows {
        seq![
            "--output-format tsv/ndjson streams list rows to stdout and does not write Parquet or KeySpace outputs"@,
        ] + msg_if(
            output_path_flags,
            "output path flags are ignored when --output-format is tsv or ndjson"@,
        )
    } else {
        Seq::empty()
    }) + msg_if(
        command == PlanCommand::Diff,
        "diff partitions each side automatically; explicit --hints-file and --resume are intentionally unsupported for diff"@,
    )
}

fn push_all_strings(out: &mut Vec<String>, more: Vec<String>)
    ensures
        strings_view(final(out)@) == strings_view(old(out)@) + strings_view(more@),
{
    let ghost start = strings_view(out@);
    let mut i: usize = 0;
    while i < more.len()
        invariant
            i <= more.len(),
            strings_view(out@) == start + strings_view(more@).take(i as int),
        decreases more.len() - i,
    {
        let ghost before = out@;
        out.push(owned(more[i].as_str()));
        assert(strings_view(out@) =~= strings_view(before).push(more@[i as int]@));
        assert(strings_view(more@).take(i + 1) =~= strings_view(more@).take(i as int).push(
            more@[i as int]@,
        ));
        i += 1;
    }
    assert(strings_view(more@).take(more.len() as int) =~= strings_view(more@));
}

fn preset_warning_exec(out: &mut Vec<String>, profile: &Option<String>, credential_signal: bool)
    ensures
        strings_view(final(out)@) == strings_view(old(out)@) + preset_profile_warning(
            opt_string_v(*profile),
            credential_signal,
        ),
{
    let ghost start = strings_view(out@);
    match profile {
        Some(p) => {
            if crate::profiles::is_endpoint_preset_name(p.as_str()) && !credential_signal {
                let mut m: Vec<char> = Vec::new();
                crate::text::append_str(&mut m, "--profile '");
                crate::text::append_str(&mut m, p.as_str());
                crate::text::append_str(
                    &mut m,
                    "' is an endpoint compatibility preset only; credentials still come from AWS_PROFILE or the AWS SDK default credential chain. If '",
                );
                crate::text::append_str(&mut m, p.as_str());
                crate::text::append_str(
                    &mut m,
                    "' is also your credentials profile name, set AWS_PROFILE=",
                );
                crate::text::append_str(&mut m, p.as_str());
                crate::text::append_str(&mut m, ".");
                out.push(string_from_chars(m.as_slice()));
            }
        },
        None => {},
    }
    assert(strings_view(out@) =~= start + preset_profile_warning(
        opt_string_v(*profile),
        credential_signal,
    ));
}

/// The provider setup warnings of a command.
pub fn provider_setup_guardrail_warnings(
    command: PlanCommand,
    cfg: &S3TurboConfig,
    probe_endpoint: Option<&str>,
) -> (r: Vec<String>)
    ensures
        strings_view(r@) == provider_setup_warnings(command, *cfg, opt_v(probe_endpoint)),
{
    let mut out: Vec<String> = Vec::new();
    if command == PlanCommand::List || command == PlanCommand::Diff {
        out = crate::profiles::endpoint_profile_guardrail_warnings(cfg);
    } else if command == PlanCommand::CompatProbe {
        match probe_endpoint {
            Some(e) => {
                if crate::profiles::endpoint_url_has_template_placeholder(e) {
                    out.push(
                        join3(
                            "endpoint URL '",
                            e,
                            "' still contains template placeholders; replace values such as <account-id> or <region> before a real run",
                        ),
                    );
                }
            },
            None => {},
        }
    }
    assert(strings_view(out@) =~= provider_setup_warnings(command, *cfg, opt_v(probe_endpoint)));
    out
}

/// The warnings printed before a run: the preset-profile and provider
/// setup warnings of commands that reach an endpoint, then those about
/// ignored output flags, streamed formats and diff partitioning.
/// `credential_signal` tells whether the environment selects credentials;
/// `probe_endpoint` is compat-probe's effective endpoint.
pub fn runtime_guardrail_warnings(
    command: PlanCommand,
    cfg: &S3TurboConfig,
    credential_signal: bool,
    probe_endpoint: Option<&str>,
    summary_only: bool,
    output_path_flags: bool,
    stdout_rows: bool,
) -> (r: Vec<String>)
    ensures
        strings_view(r@) == runtime_warnings_spec(
            command,
            *cfg,
            credential_signal,
            opt_v(probe_endpoint),
            summary_only,
            output_path_flags,
            stdout_rows,
        ),
{
    let mut out: Vec<String> = Vec::new();
    if command != PlanCommand::Other {
        preset_warning_exec(&mut out, &cfg.s3.profile, credential_signal);
        push_all_strings(&mut out, provider_setup_guardrail_warnings(command, cfg, probe_endpoint));
    }
    assert(strings_view(out@) =~= (if command != PlanCommand::Other {
        preset_profile_warning(opt_string_v(cfg.s3.profile), credential_signal)
            + provider_setup_warnings(command, *cfg, opt_v(probe_endpoint))
    } else {
        Seq::empty()
    }));
    push_msg_if(
        &mut out,
        summary_only && output_path_flags,
        "--summary-only does not write Parquet or KeySpace outputs; output path flags are ignored",
    );
    let ghost mid = strings_view(out@);
    if stdout_rows {
        out.push(
            owned(
                "--output-format tsv/ndjson streams list rows to stdout and does not write Parquet or KeySpace outputs",
            ),
        );
        push_msg_if(
            &mut out,
            output_path_flags,
            "output path flags are ignored when --output-format is tsv or ndjson",
        );
    }
    assert(strings_view(out@) =~= mid + (if stdout_rows {
        seq![
            "--output-format tsv/ndjson streams list rows to stdout and does not write Parquet or KeySpace outputs"@,
        ] + msg_if(
            output_path_flags,
            "output path flags are ignored when --output-format is tsv or ndjson"@,
        )
    } else {
        Seq::empty()
    }));
    push_msg_if(
        &mut out,
        command == PlanCommand::Diff,
        "diff partitions each side automatically; explicit --hints-file and --resume are intentionally unsupported for diff",
    );
    out
}

// ── Flag combinations ──────────────────────────────────────

/// The flags of a command line that decide whether it combines.
#[derive(Clone, Copy)]
pub struct RunFlags {
    pub summary_only: bool,
    pub agent: bool,
    pub dry_run: bool,
    pub resume: bool,
    /// `--start-after` is set (on the command line or in the config).
    pub start_after: bool,
    pub hints_file: bool,
    pub no_auto_hints: bool,
}

/// Why a continuation token cannot be used, if it cannot: it must not be
/// blank, only list takes one, and it is a single chain, so no resume,
/// start-after, hints file, or conventional hints file that would be loaded.
pub open spec fn token_error(
    command: PlanCommand,
    token: Seq<char>,
    f: RunFlags,
    bucket: Seq<char>,
    region: Option<Seq<char>>,
    hints_exists: bool,
) -> Option<Seq<char>> {
    if trim(token).len() == 0 {
        Some("--continuation-token cannot be empty"@)
    } else if command != PlanCommand::List {
        Some("--continuation-token is only supported with the list command"@)
    } else if f.resume {
        Some(
            "--continuation-token cannot be combined with --resume; use checkpoint resume or a continuation token, not both"@,
        )
    } else if f.start_after {
        Some("--continuation-token cannot be combined with --start-after"@)
    } else if f.hints_file {
        Some("--continuation-token is single-chain only and cannot be combined with --hints-file"@)
    } else if !f.no_auto_hints && hints_exists {
        Some(
            "--continuation-token is single-chain only, but conventional hints file '"@
                + hints_file_name(bucket, region) + "' exists; pass --no-auto-hints to ignore it"@,
        )
    } else {
        None
    }
}

/// The first refusal of a command line, in this order: summary-only off
/// list; summary-only or agent output with rows streamed to stdout; the
/// continuation token; diff with a hints file; diff with resume.
pub open spec fn flag_error_spec(
    command: PlanCommand,
    format: Option<ListOutputFormat>,
    f: RunFlags,
    token: Option<Seq<char>>,
    bucket: Seq<char>,
    region: Option<Seq<char>>,
    hints_exists: bool,
) -> Option<Seq<char>> {
    let streams = match format {
        Some(fmt) => fmt == ListOutputFormat::Tsv || fmt == ListOutputFormat::Ndjson,
        None => false,
    };
    let tok = match token {
        Some(t) => token_error(command, t, f, bucket, region, hints_exists),
        None => None,
    };
    if f.summary_only && command != PlanCommand::List {
        Some("--summary-only is only supported with the list command"@)
    } else if f.summary_only && streams {
        Some("--summary-only cannot be combined with --output-format tsv or ndjson"@)
    } else if f.agent && !f.dry_run && streams {
        Some(
            "--agent writes the run manifest to stdout and cannot be combined with --output-format tsv or ndjson; use --run-manifest instead"@,
        )
    } else if tok is Some {
        tok
    } else if command == PlanCommand::Diff && f.hints_file {
        Some(
            "diff with --hints-file is unsupported by design: diff partitions each side automatically and an explicit shared hints file cannot describe both sides; remove --hints-file to run diff"@,
        )
    } else if command == PlanCommand::Diff && f.resume {
        Some(
            "diff --resume is unsupported by design: diff does not checkpoint partial paired comparisons; remove --resume to run diff"@,
        )
    } else {
        None
    }
}

fn some_str(m: &str) -> (r: Option<String>)
    ensures
        r is Some && r->Some_0@ == m@,
{
    Some(owned(m))
}

fn token_error_exec(
    command: PlanCommand,
    token: &str,
    f: RunFlags,
    bucket: &str,
    region: Option<&str>,
    hints_exists: bool,
) -> (r: Option<String>)
    ensures
        opt_string_v(r) == token_error(command, token@, f, bucket@, opt_v(region), hints_exists),
{
    let t = crate::text::str_chars(token);
    let trimmed = crate::text::trim_chars(t.as_slice());
    if trimmed.len() == 0 {
        some_str("--continuation-token cannot be empty")
    } else if command != PlanCommand::List {
        some_str("--continuation-token is only supported with the list command")
    } else if f.resume {
        some_str(
            "--continuation-token cannot be combined with --resume; use checkpoint resume or a continuation token, not both",
        )
    } else if f.start_after {
        some_str("--continuation-token cannot be combined with --start-after")
    } else if f.hints_file {
        some_str(
            "--continuation-token is single-chain only and cannot be combined with --hints-file",
        )
    } else if !f.no_auto_hints && hints_exists {
        let path = conventional_hints_path(bucket, region);
        Some(
            join3(
                "--continuation-token is single-chain only, but conventional hints file '",
                path.as_str(),
                "' exists; pass --no-auto-hints to ignore it",
            ),
        )
    } else {
        None
    }
}

/// Refuses a command line whose flags do not combine, with the message that
/// the run stops on (exit code `CliConfig`). `hints_exists` tells whether the
/// conventional hints file of `bucket` and `region` exists.
pub fn command_flag_error(
    command: PlanCommand,
    format: Option<ListOutputFormat>,
    f: RunFlags,
    token: Option<&str>,
    bucket: &str,
    region: Option<&str>,
    hints_exists: bool,
) -> (r: Option<String>)
    ensures
        opt_string_v(r) == flag_error_spec(
            command,
            format,
            f,
            opt_v(token),
            bucket@,
            opt_v(region),
            hints_exists,
        ),
{
    let streams = match format {
        Some(fmt) => fmt.writes_stdout_rows(),
        None => false,
    };
    if f.summary_only && command != PlanCommand::List {
        return some_str("--summary-only is only supported with the list command");
    }
    if f.summary_only && streams {
        return some_str("--summary-only cannot be combined with --output-format tsv or ndjson");
    }
    if f.agent && !f.dry_run && streams {
        return some_str(
            "--agent writes the run manifest to stdout and cannot be combined with --output-format tsv or ndjson; use --run-manifest instead",
        );
    }
    match token {
        Some(t) => {
            let e = token_error_exec(command, t, f, bucket, region, hints_exists);
            if e.is_some() {
                return e;
            }
        },
        None => {},
    }
    if command == PlanCommand::Diff && f.hints_file {
        return some_str(
            "diff with --hints-file is unsupported by design: diff partitions each side automatically and an explicit shared hints file cannot describe both sides; remove --hints-file to run diff",
        );
    }
    if command == PlanCommand::Diff && f.resume {
        return some_str(
            "diff --resume is unsupported by design: diff does not checkpoint partial paired comparisons; remove --resume to run diff",
        );
    }
    None
}

// ── Command-line overrides and output paths ────────────────

/// Which config settings the command line overrides.
#[derive(Clone, Copy)]
pub struct ConfigOverrideFlags {
    pub threads: bool,
    pub concurrency: bool,
    pub endpoint_url: bool,
    pub addressing_style: bool,
    pub profile: bool,
    pub debug_s3: bool,
    pub trace_compat: bool,
    pub start_after: bool,
    pub output_log_file: bool,
    pub output_ks_file: bool,
    pub output_parquet_file: bool,
    pub compression: bool,
    pub compression_level: bool,
}

/// The names of the overridden settings, in this fixed order.
pub open spec fn overrides_spec(f: ConfigOverrideFlags) -> Seq<Seq<char>> {
    msg_if(f.threads, "threads"@) + msg_if(f.concurrency, "concurrency"@) + msg_if(
        f.endpoint_url,
        "endpoint_url"@,
    ) + msg_if(f.addressing_style, "addressing_style"@) + msg_if(f.profile, "profile"@) + msg_if(
        f.debug_s3,
        "debug_s3"@,
    ) + msg_if(f.trace_compat, "trace_compat"@) + msg_if(f.start_after, "start_after"@) + msg_if(
        f.output_log_file,
        "output_log_file"@,
    ) + msg_if(f.output_ks_file, "output_ks_file"@) + msg_if(
        f.output_parquet_file,
        "output_parquet_file"@,
    ) + msg_if(f.compression, "compression"@) + msg_if(f.compression_level, "compression_level"@)
}

pub fn cli_config_overrides(f: ConfigOverrideFlags) -> (r: Vec<String>)
    ensures
        strings_view(r@) == overrides_spec(f),
{
    let mut out: Vec<String> = Vec::new();
    assert(strings_view(out@) =~= Seq::<Seq<char>>::empty());
    push_msg_if(&mut out, f.threads, "threads");
    push_msg_if(&mut out, f.concurrency, "concurrency");
    push_msg_if(&mut out, f.endpoint_url, "endpoint_url");
    push_msg_if(&mut out, f.addressing_style, "addressing_style");
    push_msg_if(&mut out, f.profile, "profile");
    push_msg_if(&mut out, f.debug_s3, "debug_s3");
    push_msg_if(&mut out, f.trace_compat, "trace_compat");
    push_msg_if(&mut out, f.start_after, "start_after");
    push_msg_if(&mut out, f.output_log_file, "output_log_file");
    push_msg_if(&mut out, f.output_ks_file, "output_ks_file");
    push_msg_if(&mut out, f.output_parquet_file, "output_parquet_file");
    push_msg_if(&mut out, f.compression, "compression");
    push_msg_if(&mut out, f.compression_level, "compression_level");
    out
}

/// The path of an output file: the configured one, else `<stem><ext>` in
/// the output directory when one is given, else `<stem><ext>`.
pub open spec fn output_path_spec(
    configured: Option<Seq<char>>,
    output_dir: Option<Seq<char>>,
    stem: Seq<char>,
    ext: Seq<char>,
) -> Seq<char> {
    match configured {
        Some(c) => c,
        None => match output_dir {
            Some(d) => d + "/"@ + stem + ext,
            None => stem + ext,
        },
    }
}

pub fn resolve_output_path(
    configured: Option<&str>,
    output_dir: Option<&str>,
    stem: &str,
    ext: &str,
) -> (r: String)
    ensures
        r@ == output_path_spec(opt_v(configured), opt_v(output_dir), stem@, ext@),
{
    match configured {
        Some(c) => owned(c),
        None => {
            let mut out: Vec<char> = Vec::new();
            match output_dir {
                Some(d) => {
                    crate::text::append_str(&mut out, d);
                    crate::text::append_str(&mut out, "/");
                },
                None => {},
            }
            crate::text::append_str(&mut out, stem);
            crate::text::append_str(&mut out, ext);
            string_from_chars(out.as_slice())
        },
    }
}

// ── List output formats ────────────────────────────────────

/// The output format of a list run.
#[derive(Debug, Clone, Copy, PartialEq, Eq, Structural)]
pub enum ListOutputFormat {
    Parquet,
    Tsv,
    Ndjson,
}

impl ListOutputFormat {
    /// Only Parquet output writes the Parquet and KeySpace artifacts.
    pub fn writes_artifacts(self) -> (r: bool)
        ensures
            r == (self == ListOutputFormat::Parquet),
    {
        match self {
            ListOutputFormat::Parquet => true,
            _ => false,
        }
    }

    /// TSV and NDJSON stream the rows to stdout.
    pub fn writes_stdout_rows(self) -> (r: bool)
        ensures
            r == (self == ListOutputFormat::Tsv || self == ListOutputFormat::Ndjson),
    {
        match self {
            ListOutputFormat::Parquet => false,
            _ => true,
        }
    }

    pub fn as_str(self) -> (r: &'static str)
        ensures
            r@ == match self {
                ListOutputFormat::Parquet => "parquet"@,
                ListOutputFormat::Tsv => "tsv"@,
                ListOutputFormat::Ndjson => "ndjson"@,
            },
    {
        match self {
            ListOutputFormat::Parquet => "parquet",
            ListOutputFormat::Tsv => "tsv",
            ListOutputFormat::Ndjson => "ndjson",
        }
    }
}

/// Whether a run writes artifacts: not when summary-only; otherwise unless
/// a list run streams its rows (commands other than list always do).
pub fn list_writes_artifacts(summary_only: bool, format: Option<ListOutputFormat>) -> (r: bool)
    ensures
        r == (!summary_only && match format {
            Some(f) => f == ListOutputFormat::Parquet,
            None => true,
        }),
{
    if summary_only {
        return false;
    }
    match format {
        Some(f) => f.writes_artifacts(),
        None => true,
    }
}
} // verus!
