//! Run configuration: defaults, merging a loaded config file, CLI overrides,
//! endpoint presets and addressing-style normalisation.
use crate::text::strings_view;
use crate::filter_expr::{compile_spec, FilterExpr, NodeV};
use crate::objects::{ObjectFilter, RunMode};
use crate::text::{
    append_str, dec, has_char, has_char_exec, owned, push_dec, str_chars, str_eq,
    str_to_lowercase, string_from_chars, string_push_str, unicode_lowercase,
};
use vstd::string::StringSliceAdditionalSpecFns;
use vstd::prelude::*;

verus! {

// ── AddressingStyle ────────────────────────────────────────

#[derive(Debug, Clone, Copy, PartialEq, Eq, Structural)]
pub enum AddressingStyle {
    Path,
    Virtual,
    Auto,
}

/// The lower-case name of a style.
pub open spec fn style_name(s: AddressingStyle) -> Seq<char> {
    match s {
        AddressingStyle::Path => "path"@,
        AddressingStyle::Virtual => "virtual"@,
        AddressingStyle::Auto => "auto"@,
    }
}

/// What `from_str` accepts: the style whose name equals the text after
/// Unicode lower-casing.
pub open spec fn parse_style(s: Seq<char>) -> Option<AddressingStyle> {
    let l = unicode_lowercase(s);
    if l == "path"@ {
        Some(AddressingStyle::Path)
    } else if l == "virtual"@ {
        Some(AddressingStyle::Virtual)
    } else if l == "auto"@ {
        Some(AddressingStyle::Auto)
    } else {
        None
    }
}

pub open spec fn style_error(s: Seq<char>) -> Seq<char> {
    "invalid addressing style '"@ + unicode_lowercase(s) + "'. Valid values: path, virtual, auto"@
}

impl AddressingStyle {
    pub fn default() -> (r: Self)
        ensures
            r == AddressingStyle::Auto,
    {
        AddressingStyle::Auto
    }

    /// Parses a style name, ignoring case.
    pub fn from_str(s: &str) -> (r: Result<Self, String>)
        ensures
            match r {
                Ok(style) => parse_style(s@) == Some(style),
                Err(msg) => parse_style(s@) is None && msg@ == style_error(s@),
            },
    {
        let lower = str_to_lowercase(s);
        if str_eq(lower.as_str(), "path") {
            Ok(AddressingStyle::Path)
        } else if str_eq(lower.as_str(), "virtual") {
            Ok(AddressingStyle::Virtual)
        } else if str_eq(lower.as_str(), "auto") {
            Ok(AddressingStyle::Auto)
        } else {
            let mut msg = owned("invalid addressing style '");
            crate::text::string_push_str(&mut msg, lower.as_str());
            crate::text::string_push_str(&mut msg, "'. Valid values: path, virtual, auto");
            Err(msg)
        }
    }

    pub fn as_str(&self) -> (r: &'static str)
        ensures
            r@ == style_name(*self),
    {
        match self {
            AddressingStyle::Path => "path",
            AddressingStyle::Virtual => "virtual",
            AddressingStyle::Auto => "auto",
        }
    }

    /// The style's name, as it is displayed.
    pub fn to_string(&self) -> (r: String)
        ensures
            r@ == style_name(*self),
    {
        owned(self.as_str())
    }
}

impl std::str::FromStr for AddressingStyle {
    type Err = String;

    fn from_str(s: &str) -> (r: Result<Self, String>)
        ensures
            match r {
                Ok(style) => parse_style(s@) == Some(style),
                Err(msg) => parse_style(s@) is None && msg@ == style_error(s@),
            },
    {
        AddressingStyle::from_str(s)
    }
}

// ── Config sections ────────────────────────────────────────

#[derive(Debug, Clone)]
pub struct S3Config {
    pub max_attempts: u32,
    pub initial_backoff_secs: u64,
    pub connect_timeout_secs: u64,
    pub operation_timeout_secs: u64,
    pub endpoint_url: Option<String>,
    pub force_path_style: bool,
    pub addressing_style: AddressingStyle,
    pub profile: Option<String>,
    pub debug_s3: bool,
    pub trace_compat: Option<String>,
    /// Listing begins after this key, whatever the hint segments say.
    pub start_after: Option<String>,
}

#[derive(Debug, Clone)]
pub struct RuntimeConfig {
    pub worker_threads: usize,
    pub max_concurrency: usize,
}

#[derive(Debug, Clone)]
pub struct OutputConfig {
    pub row_group_size: usize,
    pub compression: String,
    pub compression_level: u32,
    pub log_file: Option<String>,
    pub ks_file: Option<String>,
    pub parquet_file: Option<String>,
}

#[derive(Debug, Clone)]
pub struct AutoHintsConfig {
    pub sample_threshold: usize,
    pub max_prefix_depth: usize,
    pub max_prefix_entries: usize,
}

#[derive(Debug, Clone)]
pub struct ChannelConfig {
    pub capacity: usize,
}

#[derive(Debug, Clone)]
pub struct S3TurboConfig {
    pub s3: S3Config,
    pub runtime: RuntimeConfig,
    pub output: OutputConfig,
    pub auto_hints: AutoHintsConfig,
    pub channel: ChannelConfig,
}

/// Where the configuration came from.
#[derive(Debug, Clone)]
pub struct ConfigLoadSummary {
    pub explicit_config: Option<String>,
    pub loaded_config: Option<String>,
    pub loaded_config_kind: String,
    pub searched: Vec<String>,
    pub warnings: Vec<String>,
}

// ── Defaults ───────────────────────────────────────────────

pub fn default_max_attempts() -> (r: u32)
    ensures
        r == 10,
{
    10
}

pub fn default_initial_backoff_secs() -> (r: u64)
    ensures
        r == 30,
{
    30
}

pub fn default_connect_timeout_secs() -> (r: u64)
    ensures
        r == 60,
{
    60
}

pub fn default_operation_timeout_secs() -> (r: u64)
    ensures
        r == 5,
{
    5
}

pub fn default_worker_threads() -> (r: usize)
    ensures
        r == 10,
{
    10
}

pub fn default_max_concurrency() -> (r: usize)
    ensures
        r == 100,
{
    100
}

pub fn default_row_group_size() -> (r: usize)
    ensures
        r == 100000,
{
    100000
}

pub fn default_compression() -> (r: String)
    ensures
        r@ == "zstd"@,
{
    owned("zstd")
}

pub fn default_compression_level() -> (r: u32)
    ensures
        r == 1,
{
    1
}

pub fn default_sample_threshold() -> (r: usize)
    ensures
        r == 10000,
{
    10000
}

pub fn default_max_prefix_depth() -> (r: usize)
    ensures
        r == 5,
{
    5
}

pub fn default_max_prefix_entries() -> (r: usize)
    ensures
        r == 1_000_000,
{
    1_000_000
}

pub fn default_channel_capacity() -> (r: usize)
    ensures
        r == 64,
{
    64
}

pub open spec fn is_default_s3(c: S3Config) -> bool {
    &&& c.max_attempts == 10
    &&& c.initial_backoff_secs == 30
    &&& c.connect_timeout_secs == 60
    &&& c.operation_timeout_secs == 5
    &&& c.endpoint_url is None
    &&& !c.force_path_style
    &&& c.addressing_style == AddressingStyle::Auto
    &&& c.profile is None
    &&& !c.debug_s3
    &&& c.trace_compat is None
    &&& c.start_after is None
}

pub open spec fn is_default_output(c: OutputConfig) -> bool {
    &&& c.row_group_size == 100000
    &&& c.compression@ == "zstd"@
    &&& c.compression_level == 1
    &&& c.log_file is None
    &&& c.ks_file is None
    &&& c.parquet_file is None
}

pub open spec fn is_default_config(c: S3TurboConfig) -> bool {
    &&& is_default_s3(c.s3)
    &&& c.runtime.worker_threads == 10
    &&& c.runtime.max_concurrency == 100
    &&& is_default_output(c.output)
    &&& c.auto_hints.sample_threshold == 10000
    &&& c.auto_hints.max_prefix_depth == 5
    &&& c.auto_hints.max_prefix_entries == 1_000_000
    &&& c.channel.capacity == 64
}

impl S3Config {
    pub fn default() -> (r: Self)
        ensures
            is_default_s3(r),
    {
        Self {
            max_attempts: default_max_attempts(),
            initial_backoff_secs: default_initial_backoff_secs(),
            connect_timeout_secs: default_connect_timeout_secs(),
            operation_timeout_secs: default_operation_timeout_secs(),
            endpoint_url: None,
            force_path_style: false,
            addressing_style: AddressingStyle::default(),
            profile: None,
            debug_s3: false,
            trace_compat: None,
            start_after: None,
        }
    }
}

impl RuntimeConfig {
    pub fn default() -> (r: Self)
        ensures
            r.worker_threads == 10,
            r.max_concurrency == 100,
    {
        Self { worker_threads: default_worker_threads(), max_concurrency: default_max_concurrency() }
    }
}

impl OutputConfig {
    pub fn default() -> (r: Self)
        ensures
            is_default_output(r),
    {
        Self {
            row_group_size: default_row_group_size(),
            compression: default_compression(),
            compression_level: default_compression_level(),
            log_file: None,
            ks_file: None,
            parquet_file: None,
        }
    }
}

impl AutoHintsConfig {
    pub fn default() -> (r: Self)
        ensures
            r.sample_threshold == 10000,
            r.max_prefix_depth == 5,
            r.max_prefix_entries == 1_000_000,
    {
        Self {
            sample_threshold: default_sample_threshold(),
            max_prefix_depth: default_max_prefix_depth(),
            max_prefix_entries: default_max_prefix_entries(),
        }
    }
}

impl ChannelConfig {
    pub fn default() -> (r: Self)
        ensures
            r.capacity == 64,
    {
        Self { capacity: default_channel_capacity() }
    }
}

// ── Merge and overrides ────────────────────────────────────

pub open spec fn prefer_some<T>(new: Option<T>, old: Option<T>) -> Option<T> {
    if new is Some {
        new
    } else {
        old
    }
}

/// What `merge` makes of `base` with a loaded file config `file`: plain
/// values are taken from the file, optional ones only where the file sets
/// them, and the codec only when the file names a non-default one or the
/// base still has the default.
pub open spec fn merged(base: S3TurboConfig, file: S3TurboConfig) -> S3TurboConfig {
    S3TurboConfig {
        s3: S3Config {
            max_attempts: file.s3.max_attempts,
            initial_backoff_secs: file.s3.initial_backoff_secs,
            connect_timeout_secs: file.s3.connect_timeout_secs,
            operation_timeout_secs: file.s3.operation_timeout_secs,
            endpoint_url: prefer_some(file.s3.endpoint_url, base.s3.endpoint_url),
            force_path_style: file.s3.force_path_style,
            addressing_style: file.s3.addressing_style,
            profile: prefer_some(file.s3.profile, base.s3.profile),
            debug_s3: file.s3.debug_s3,
            trace_compat: prefer_some(file.s3.trace_compat, base.s3.trace_compat),
            start_after: prefer_some(file.s3.start_after, base.s3.start_after),
        },
        runtime: file.runtime,
        output: OutputConfig {
            row_group_size: file.output.row_group_size,
            compression: if file.output.compression@ != "zstd"@ || base.output.compression@
                == "zstd"@ {
                file.output.compression
            } else {
                base.output.compression
            },
            compression_level: file.output.compression_level,
            log_file: prefer_some(file.output.log_file, base.output.log_file),
            ks_file: prefer_some(file.output.ks_file, base.output.ks_file),
            parquet_file: prefer_some(file.output.parquet_file, base.output.parquet_file),
        },
        auto_hints: file.auto_hints,
        channel: file.channel,
    }
}

pub open spec fn opt_owned(o: Option<&str>) -> Option<Seq<char>> {
    match o {
        Some(s) => Some(s@),
        None => None,
    }
}

pub open spec fn opt_string_v(o: Option<String>) -> Option<Seq<char>> {
    match o {
        Some(s) => Some(s@),
        None => None,
    }
}

/// The (style, force-path) pair after the `--addressing-style` and
/// `--force-path-style` flags: a recognised style sets both, and the force
/// flag then wins.
pub open spec fn addressing_after_cli(
    style: AddressingStyle,
    force: bool,
    cli_style: Option<Seq<char>>,
    cli_force: bool,
) -> (AddressingStyle, bool) {
    let after_style = match cli_style {
        Some(s) => match parse_style(s) {
            Some(AddressingStyle::Path) => (AddressingStyle::Path, true),
            Some(AddressingStyle::Virtual) => (AddressingStyle::Virtual, false),
            Some(AddressingStyle::Auto) => (AddressingStyle::Auto, false),
            None => (style, force),
        },
        None => (style, force),
    };
    if cli_force {
        (AddressingStyle::Path, true)
    } else {
        after_style
    }
}

/// The (style, force-path) pair after normalisation: forcing path style
/// wins; otherwise the flag follows the style.
pub open spec fn normalized_addressing(style: AddressingStyle, force: bool) -> (
    AddressingStyle,
    bool,
) {
    if force {
        (AddressingStyle::Path, true)
    } else {
        (style, style == AddressingStyle::Path)
    }
}

fn opt_to_string(o: Option<&str>) -> (r: Option<String>)
    ensures
        opt_string_v(r) == opt_owned(o),
{
    match o {
        Some(s) => Some(owned(s)),
        None => None,
    }
}

fn set_opt(dst: &mut Option<String>, v: Option<&str>)
    ensures
        opt_string_v(*final(dst)) == prefer_some(opt_owned(v), opt_string_v(*old(dst))),
{
    if let Some(s) = v {
        *dst = Some(owned(s));
    }
}

fn apply_addressing_override(s3: &mut S3Config, addressing_style: Option<&str>, force: bool)
    ensures
        (final(s3).addressing_style, final(s3).force_path_style) == addressing_after_cli(
            old(s3).addressing_style,
            old(s3).force_path_style,
            opt_owned(addressing_style),
            force,
        ),
        final(s3).endpoint_url == old(s3).endpoint_url,
        final(s3).profile == old(s3).profile,
        final(s3).debug_s3 == old(s3).debug_s3,
        final(s3).trace_compat == old(s3).trace_compat,
        final(s3).start_after == old(s3).start_after,
        final(s3).max_attempts == old(s3).max_attempts,
        final(s3).initial_backoff_secs == old(s3).initial_backoff_secs,
        final(s3).connect_timeout_secs == old(s3).connect_timeout_secs,
        final(s3).operation_timeout_secs == old(s3).operation_timeout_secs,
{
    if let Some(s) = addressing_style {
        if let Ok(style) = AddressingStyle::from_str(s) {
            match style {
                AddressingStyle::Path => {
                    s3.addressing_style = AddressingStyle::Path;
                    s3.force_path_style = true;
                },
                AddressingStyle::Virtual => {
                    s3.addressing_style = AddressingStyle::Virtual;
                    s3.force_path_style = false;
                },
                AddressingStyle::Auto => {
                    s3.addressing_style = AddressingStyle::Auto;
                    s3.force_path_style = false;
                },
            }
        }
    }
    if force {
        s3.force_path_style = true;
        s3.addressing_style = AddressingStyle::Path;
    }
}

/// `b` is `a` with at most the endpoint and the addressing style changed.
pub open spec fn only_endpoint_and_style_changed(a: S3TurboConfig, b: S3TurboConfig) -> bool {
    b == (S3TurboConfig {
        s3: (S3Config {
            endpoint_url: b.s3.endpoint_url,
            addressing_style: b.s3.addressing_style,
            ..a.s3
        }),
        ..a
    })
}

/// `b` is `a` with at most the addressing style and `force_path_style`
/// changed.
pub open spec fn only_addressing_changed(a: S3TurboConfig, b: S3TurboConfig) -> bool {
    b == (S3TurboConfig {
        s3: (S3Config {
            addressing_style: b.s3.addressing_style,
            force_path_style: b.s3.force_path_style,
            ..a.s3
        }),
        ..a
    })
}

impl S3TurboConfig {
    pub fn default() -> (r: Self)
        ensures
            is_default_config(r),
    {
        Self {
            s3: S3Config::default(),
            runtime: RuntimeConfig::default(),
            output: OutputConfig::default(),
            auto_hints: AutoHintsConfig::default(),
            channel: ChannelConfig::default(),
        }
    }

    /// Merges a config loaded from a file into this one (see `merged`).
    pub fn merge(&mut self, other: S3TurboConfig)
        ensures
            *final(self) == merged(*old(self), other),
    {
        self.s3.max_attempts = other.s3.max_attempts;
        self.s3.initial_backoff_secs = other.s3.initial_backoff_secs;
        self.s3.connect_timeout_secs = other.s3.connect_timeout_secs;
        self.s3.operation_timeout_secs = other.s3.operation_timeout_secs;
        if other.s3.endpoint_url.is_some() {
            self.s3.endpoint_url = other.s3.endpoint_url;
        }
        self.s3.force_path_style = other.s3.force_path_style;
        self.s3.addressing_style = other.s3.addressing_style;
        if other.s3.profile.is_some() {
            self.s3.profile = other.s3.profile;
        }
        self.s3.debug_s3 = other.s3.debug_s3;
        if other.s3.trace_compat.is_some() {
            self.s3.trace_compat = other.s3.trace_compat;
        }
        if other.s3.start_after.is_some() {
            self.s3.start_after = other.s3.start_after;
        }
        self.runtime = other.runtime;
        self.output.row_group_size = other.output.row_group_size;
        if !str_eq(other.output.compression.as_str(), "zstd") || str_eq(
            self.output.compression.as_str(),
            "zstd",
        ) {
            self.output.compression = other.output.compression;
        }
        self.output.compression_level = other.output.compression_level;
        if other.output.log_file.is_some() {
            self.output.log_file = other.output.log_file;
        }
        if other.output.ks_file.is_some() {
            self.output.ks_file = other.output.ks_file;
        }
        if other.output.parquet_file.is_some() {
            self.output.parquet_file = other.output.parquet_file;
        }
        self.auto_hints = other.auto_hints;
        self.channel = other.channel;
    }

    /// Applies command-line overrides: every given value replaces the
    /// configured one; `debug_s3` only switches tracing on; the addressing
    /// style follows `addressing_after_cli`.
    pub fn apply_cli_overrides(
        &mut self,
        threads: Option<usize>,
        concurrency: Option<usize>,
        endpoint: Option<&str>,
        force_path_style: bool,
        addressing_style: Option<&str>,
        profile: Option<&str>,
        debug_s3: bool,
        trace_compat: Option<&str>,
        start_after: Option<&str>,
        log_file: Option<&str>,
        ks_file: Option<&str>,
        parquet_file: Option<&str>,
        compression: Option<&str>,
        compression_level: Option<u32>,
    )
        ensures
            final(self).runtime.worker_threads == match threads {
                Some(t) => t,
                None => old(self).runtime.worker_threads,
            },
            final(self).runtime.max_concurrency == match concurrency {
                Some(c) => c,
                None => old(self).runtime.max_concurrency,
            },
            opt_string_v(final(self).s3.endpoint_url) == prefer_some(
                opt_owned(endpoint),
                opt_string_v(old(self).s3.endpoint_url),
            ),
            (final(self).s3.addressing_style, final(self).s3.force_path_style)
                == addressing_after_cli(
                old(self).s3.addressing_style,
                old(self).s3.force_path_style,
                opt_owned(addressing_style),
                force_path_style,
            ),
            opt_string_v(final(self).s3.profile) == prefer_some(
                opt_owned(profile),
                opt_string_v(old(self).s3.profile),
            ),
            final(self).s3.debug_s3 == (old(self).s3.debug_s3 || debug_s3),
            opt_string_v(final(self).s3.trace_compat) == prefer_some(
                opt_owned(trace_compat),
                opt_string_v(old(self).s3.trace_compat),
            ),
            opt_string_v(final(self).s3.start_after) == prefer_some(
                opt_owned(start_after),
                opt_string_v(old(self).s3.start_after),
            ),
            opt_string_v(final(self).output.log_file) == prefer_some(
                opt_owned(log_file),
                opt_string_v(old(self).output.log_file),
            ),
            opt_string_v(final(self).output.ks_file) == prefer_some(
                opt_owned(ks_file),
                opt_string_v(old(self).output.ks_file),
            ),
            opt_string_v(final(self).output.parquet_file) == prefer_some(
                opt_owned(parquet_file),
                opt_string_v(old(self).output.parquet_file),
            ),
            final(self).output.compression@ == match compression {
                Some(c) => c@,
                None => old(self).output.compression@,
            },
            final(self).output.compression_level == match compression_level {
                Some(l) => l,
                None => old(self).output.compression_level,
            },
            final(self).s3.max_attempts == old(self).s3.max_attempts,
            final(self).s3.initial_backoff_secs == old(self).s3.initial_backoff_secs,
            final(self).s3.connect_timeout_secs == old(self).s3.connect_timeout_secs,
            final(self).s3.operation_timeout_secs == old(self).s3.operation_timeout_secs,
            final(self).output.row_group_size == old(self).output.row_group_size,
            final(self).auto_hints == old(self).auto_hints,
            final(self).channel == old(self).channel,
    {
        if let Some(t) = threads {
            self.runtime.worker_threads = t;
        }
        if let Some(c) = concurrency {
            self.runtime.max_concurrency = c;
        }
        set_opt(&mut self.s3.endpoint_url, endpoint);
        apply_addressing_override(&mut self.s3, addressing_style, force_path_style);
        set_opt(&mut self.s3.profile, profile);
        if debug_s3 {
            self.s3.debug_s3 = true;
        }
        set_opt(&mut self.s3.trace_compat, trace_compat);
        set_opt(&mut self.s3.start_after, start_after);
        set_opt(&mut self.output.log_file, log_file);
        set_opt(&mut self.output.ks_file, ks_file);
        set_opt(&mut self.output.parquet_file, parquet_file);
        if let Some(codec) = compression {
            self.output.compression = owned(codec);
        }
        if let Some(level) = compression_level {
            self.output.compression_level = level;
        }
    }

    /// Applies the configured endpoint profile's defaults (see
    /// `profiles::apply_profile_preset`), with no region given.
    pub fn apply_profile_preset(&mut self)
        ensures
            only_endpoint_and_style_changed(*old(self), *final(self)),
            match old(self).s3.profile {
                None => *final(self) == *old(self),
                Some(name) => if crate::profiles::profile_index(name@) < 0 {
                    *final(self) == *old(self)
                } else {
                    &&& opt_string_v(final(self).s3.endpoint_url)
                        == crate::profiles::preset_endpoint(
                        opt_string_v(old(self).s3.endpoint_url),
                        crate::profiles::profile_index(name@),
                        None,
                    )
                    &&& final(self).s3.addressing_style == crate::profiles::preset_style(
                        old(self).s3.addressing_style,
                        crate::profiles::profile_index(name@),
                    )
                },
            },
    {
        let _ = crate::profiles::apply_profile_preset(self, None);
    }

    /// Makes `force_path_style` and the addressing style agree (see
    /// `normalized_addressing`); nothing else changes.
    pub fn normalize_addressing_style(&mut self)
        ensures
            (final(self).s3.addressing_style, final(self).s3.force_path_style)
                == normalized_addressing(old(self).s3.addressing_style, old(self).s3.force_path_style),
            only_addressing_changed(*old(self), *final(self)),
    {
        if self.s3.force_path_style {
            self.s3.addressing_style = AddressingStyle::Path;
            return;
        }
        match self.s3.addressing_style {
            AddressingStyle::Path => self.s3.force_path_style = true,
            AddressingStyle::Virtual | AddressingStyle::Auto => self.s3.force_path_style = false,
        }
    }
}

/// Normalising twice is the same as normalising once, and afterwards path
/// style is forced exactly when the style is `Path`.
pub proof fn law_normalize_idempotent(style: AddressingStyle, force: bool)
    ensures
        normalized_addressing(
            normalized_addressing(style, force).0,
            normalized_addressing(style, force).1,
        ) == normalized_addressing(style, force),
        normalized_addressing(style, force).1 <==> normalized_addressing(style, force).0
            == AddressingStyle::Path,
{
}

/// Merging a file config into the built-in defaults takes every plain
/// setting from the file.
pub proof fn law_merge_into_defaults_takes_file(base: S3TurboConfig, file: S3TurboConfig)
    requires
        is_default_config(base),
    ensures
        merged(base, file).s3.max_attempts == file.s3.max_attempts,
        merged(base, file).s3.addressing_style == file.s3.addressing_style,
        merged(base, file).runtime == file.runtime,
        merged(base, file).output.compression == file.output.compression,
        merged(base, file).s3.endpoint_url == file.s3.endpoint_url,
        merged(base, file).s3.profile == file.s3.profile,
{
}

// ── Filter compilation ─────────────────────────────────────

/// Longest filter expression accepted, in bytes.
pub const OBJECT_FILTER_MAX_LEN: usize = 512;

/// What building a filter gives: the length limit, the ban on quotes, then
/// the compiled expression (`TARGET` only in diff mode) or its error.
pub open spec fn filter_engine_spec(text: Seq<char>, bytes: Seq<u8>, allow_target: bool) -> Result<
    NodeV,
    Seq<char>,
> {
    if bytes.len() > OBJECT_FILTER_MAX_LEN {
        Err("Filter expression is too long: "@ + dec(bytes.len()) + " bytes, max "@ + dec(
            OBJECT_FILTER_MAX_LEN as nat,
        ))
    } else if has_char(text, '"') || has_char(text, '\'') {
        Err("Filter expression cannot contain string or character literals"@)
    } else {
        match compile_spec(bytes, allow_target) {
            Ok(n) => Ok(n),
            Err(m) => Err("Filter expression contains unsupported syntax or identifiers: "@ + m),
        }
    }
}

pub open spec fn built(r: Result<ObjectFilter, String>) -> Result<NodeV, Seq<char>> {
    match r {
        Ok(f) => match f.tree() {
            Some(t) => Ok(t),
            None => Err(Seq::empty()),
        },
        Err(m) => Err(m@),
    }
}

fn build_filter_engine(expr: &str, allow_target: bool) -> (r: Result<ObjectFilter, String>)
    ensures
        built(r) == filter_engine_spec(expr@, expr.spec_bytes(), allow_target),
        r is Ok ==> r->Ok_0.tree() is Some,
{
    let byte_len = expr.as_bytes().len();
    if byte_len > OBJECT_FILTER_MAX_LEN {
        let mut out: Vec<char> = Vec::new();
        append_str(&mut out, "Filter expression is too long: ");
        push_dec(&mut out, byte_len as u64);
        append_str(&mut out, " bytes, max ");
        push_dec(&mut out, OBJECT_FILTER_MAX_LEN as u64);
        assert(out@ =~= "Filter expression is too long: "@ + dec(expr.spec_bytes().len())
            + " bytes, max "@ + dec(OBJECT_FILTER_MAX_LEN as nat));
        return Err(string_from_chars(out.as_slice()));
    }
    let chars = str_chars(expr);
    if has_char_exec(chars.as_slice(), '"') || has_char_exec(chars.as_slice(), '\'') {
        return Err(owned("Filter expression cannot contain string or character literals"));
    }
    match FilterExpr::compile(expr, allow_target) {
        Ok(f) => Ok(ObjectFilter::from_expr(f)),
        Err(e) => {
            let mut out = owned("Filter expression contains unsupported syntax or identifiers: ");
            string_push_str(&mut out, e.as_str());
            Err(out)
        },
    }
}

/// Compiles a filter for list mode (`TARGET` not allowed).
pub fn compile_filter(expr: &str) -> (r: Result<ObjectFilter, String>)
    ensures
        built(r) == filter_engine_spec(expr@, expr.spec_bytes(), false),
        r is Ok ==> r->Ok_0.tree() is Some,
{
    build_filter_engine(expr, false)
}

/// Compiles a filter for a run mode; `TARGET` is allowed in diff mode.
pub fn compile_filter_with_mode(expr: &str, mode: &RunMode) -> (r: Result<ObjectFilter, String>)
    ensures
        built(r) == filter_engine_spec(expr@, expr.spec_bytes(), *mode == RunMode::BiDir),
        r is Ok ==> r->Ok_0.tree() is Some,
{
    let allow_target = match mode {
        RunMode::BiDir => true,
        RunMode::List => false,
    };
    build_filter_engine(expr, allow_target)
}


/// Compiles the run's filter into the slot that holds it for the run. A
/// compile error is returned first; a slot that already holds a filter is
/// refused and kept.
pub fn install_filter(slot: &mut Option<ObjectFilter>, expr: &str, mode: &RunMode) -> (r: Result<
    (),
    String,
>)
    ensures
        match filter_engine_spec(expr@, expr.spec_bytes(), *mode == RunMode::BiDir) {
            Err(e) => r is Err && r->Err_0@ == e && *final(slot) == *old(slot),
            Ok(t) => if (*old(slot)) is Some {
                &&& r is Err
                &&& r->Err_0@ == "Object filter already installed"@
                &&& *final(slot) == *old(slot)
            } else {
                &&& r is Ok
                &&& (*final(slot)) is Some
                &&& (*final(slot))->Some_0.tree() == Some(t)
            },
        },
{
    let filter = match compile_filter_with_mode(expr, mode) {
        Ok(f) => f,
        Err(e) => return Err(e),
    };
    if slot.is_some() {
        return Err(owned("Object filter already installed"));
    }
    *slot = Some(filter);
    Ok(())
}

// ── Loading ────────────────────────────────────────────────

/// The kind of the `i`-th place searched for a config file: the explicit
/// path, or the workspace file and then the home file.
pub open spec fn search_kind(explicit: bool, i: int) -> Seq<char> {
    if explicit {
        "explicit"@
    } else if i == 0 {
        "workspace"@
    } else {
        "home"@
    }
}

/// The places searched for a config file, in order: the explicit path
/// alone when one is given, else the workspace file and the home file.
pub fn config_search_paths(cli_config_path: Option<&str>, home_config: &str) -> (r: Vec<String>)
    ensures
        strings_view(r@) == match cli_config_path {
            Some(p) => seq![p@],
            None => seq!["./s3-turbo-list.toml"@, home_config@],
        },
{
    let mut v: Vec<String> = Vec::new();
    match cli_config_path {
        Some(p) => v.push(owned(p)),
        None => {
            v.push(owned("./s3-turbo-list.toml"));
            v.push(owned(home_config));
        },
    }
    assert(strings_view(v@) =~= match cli_config_path {
        Some(p) => seq![p@],
        None => seq!["./s3-turbo-list.toml"@, home_config@],
    });
    v
}

fn search_kind_str(explicit: bool, i: usize) -> (r: &'static str)
    ensures
        r@ == search_kind(explicit, i as int),
{
    if explicit {
        "explicit"
    } else if i == 0 {
        "workspace"
    } else {
        "home"
    }
}

/// A configuration that is the built-in defaults with `file` merged in.
pub open spec fn defaults_merged_with(c: S3TurboConfig, file: S3TurboConfig) -> bool {
    exists|d: S3TurboConfig| is_default_config(d) && c == merged(d, file)
}

impl S3TurboConfig {
    /// The configuration of a run: the built-in defaults with the first
    /// config file found merged in. `found` is the index in `searched` of
    /// that file and what it holds; an explicit path that was not found is
    /// warned about.
    pub fn load(
        cli_config_path: Option<&str>,
        searched: Vec<String>,
        found: Option<(usize, S3TurboConfig)>,
    ) -> (r: (S3TurboConfig, ConfigLoadSummary))
        requires
            match found {
                Some((i, _)) => i < searched.len(),
                None => true,
            },
        ensures
            match found {
                Some((_, file)) => defaults_merged_with(r.0, file),
                None => is_default_config(r.0),
            },
            opt_string_v(r.1.explicit_config) == opt_owned(cli_config_path),
            opt_string_v(r.1.loaded_config) == match found {
                Some((i, _)) => Some(searched@[i as int]@),
                None => None,
            },
            r.1.loaded_config_kind@ == match found {
                Some((i, _)) => search_kind(cli_config_path is Some, i as int),
                None => "none"@,
            },
            r.1.searched == searched,
            strings_view(r.1.warnings@) == match (cli_config_path, found) {
                (Some(p), None) => seq![
                    "explicit config file '"@ + p@
                        + "' was not found; using built-in defaults"@,
                ],
                _ => Seq::empty(),
            },
    {
        let mut config = S3TurboConfig::default();
        let ghost d = config;
        let mut loaded: Option<String> = None;
        let mut kind = owned("none");
        match found {
            Some((i, file)) => {
                config.merge(file);
                loaded = Some(owned(searched[i].as_str()));
                kind = owned(search_kind_str(cli_config_path.is_some(), i));
            },
            None => {},
        }
        let mut warnings: Vec<String> = Vec::new();
        if loaded.is_none() {
            match cli_config_path {
                Some(p) => {
                    let mut m = owned("explicit config file '");
                    string_push_str(&mut m, p);
                    string_push_str(&mut m, "' was not found; using built-in defaults");
                    warnings.push(m);
                },
                None => {},
            }
        }
        proof {
            if found is Some {
                assert(is_default_config(d) && config == merged(d, found->Some_0.1));
            }
        }
        assert(strings_view(warnings@) =~= match (cli_config_path, found) {
            (Some(p), None) => seq![
                "explicit config file '"@ + p@ + "' was not found; using built-in defaults"@,
            ],
            _ => Seq::empty(),
        });
        let explicit_config = match cli_config_path {
            Some(p) => Some(owned(p)),
            None => None,
        };
        (
            config,
            ConfigLoadSummary {
                explicit_config,
                loaded_config: loaded,
                loaded_config_kind: kind,
                searched,
                warnings,
            },
        )
    }
}
} // verus!
