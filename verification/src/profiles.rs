//! Endpoint compatibility profiles: per-provider defaults for endpoint URL
//! and addressing style, and the guardrail warnings derived from them.
use crate::config::{AddressingStyle, S3TurboConfig, opt_string_v};
use crate::text::{
    ascii_lower_seq, eq_ignore_ascii_case, has_char, has_char_exec, owned, str_chars,
    string_from_chars, string_push_str, strings_view, to_ascii_lowercase, trim, trim_chars,
};
use vstd::prelude::*;

verus! {

/// One provider's compatibility facts.
#[derive(Debug, Clone)]
pub struct EndpointProfile {
    pub name: &'static str,
    pub provider: &'static str,
    pub status: &'static str,
    pub default_region: Option<&'static str>,
    pub default_endpoint_url: Option<&'static str>,
    /// Region-derived endpoint pattern; `{region}` is replaced by the run's
    /// region (or `default_region`) when no endpoint is set.
    pub endpoint_template: Option<&'static str>,
    pub recommended_addressing_style: AddressingStyle,
    pub requires_explicit_endpoint: bool,
    pub tested_by_project: bool,
    pub notes: Vec<&'static str>,
    pub limitations: Vec<&'static str>,
}

/// What applying a profile preset did.
#[derive(Debug, Clone)]
pub struct ProfileApplication {
    pub name: String,
    pub known: bool,
    pub endpoint_url_applied: bool,
    pub addressing_style_applied: bool,
    pub warnings: Vec<String>,
}

pub open spec fn opt_str_view(o: Option<&'static str>) -> Option<Seq<char>> {
    match o {
        Some(s) => Some(s@),
        None => None,
    }
}

pub open spec fn strs_view(v: Seq<&'static str>) -> Seq<Seq<char>> {
    Seq::new(v.len(), |i: int| v[i]@)
}

/// Number of known profiles.
pub open spec fn profile_count() -> int {
    6
}
/// Name of the `i`-th known profile.
pub open spec fn profile_name(i: int) -> Seq<char> {
    if i == 0 {
        "aws"@
    } else if i == 1 {
        "minio"@
    } else if i == 2 {
        "bos"@
    } else if i == 3 {
        "r2"@
    } else if i == 4 {
        "b2"@
    } else if i == 5 {
        "oss"@
    } else {
        Seq::empty()
    }
}

/// `p` holds the facts of the `i`-th known profile.
pub open spec fn profile_is(p: EndpointProfile, i: int) -> bool {
    if i == 0 {
        &&& p.name@ == "aws"@
        &&& p.provider@ == "AWS S3"@
        &&& p.status@ == "stable"@
        &&& opt_str_view(p.default_region) is None
        &&& p.default_endpoint_url is None
        &&& opt_str_view(p.endpoint_template) is None
        &&& p.recommended_addressing_style == AddressingStyle::Virtual
        &&& p.requires_explicit_endpoint == false
        &&& p.tested_by_project == true
        &&& strs_view(p.notes@) == seq!["baseline S3-compatible behavior"@]
        &&& strs_view(p.limitations@) == seq!["region remains user supplied or SDK/default environment supplied"@]
    } else if i == 1 {
        &&& p.name@ == "minio"@
        &&& p.provider@ == "MinIO"@
        &&& p.status@ == "stable"@
        &&& opt_str_view(p.default_region) is None
        &&& p.default_endpoint_url is None
        &&& opt_str_view(p.endpoint_template) is None
        &&& p.recommended_addressing_style == AddressingStyle::Path
        &&& p.requires_explicit_endpoint == true
        &&& p.tested_by_project == true
        &&& strs_view(p.notes@) == seq!["path-style addressing is the safest default for local MinIO deployments"@]
        &&& strs_view(p.limitations@) == seq!["endpoint URL is deployment-specific and must be supplied by the user"@]
    } else if i == 2 {
        &&& p.name@ == "bos"@
        &&& p.provider@ == "Baidu BOS S3-compatible API"@
        &&& p.status@ == "stable"@
        &&& opt_str_view(p.default_region) == Some("bj"@)
        &&& p.default_endpoint_url is None
        &&& opt_str_view(p.endpoint_template) == Some("https://s3.{region}.bcebos.com"@)
        &&& p.recommended_addressing_style == AddressingStyle::Virtual
        &&& p.requires_explicit_endpoint == false
        &&& p.tested_by_project == true
        &&& strs_view(p.notes@) == seq!["uses the standard S3-compatible ListObjectsV2 path"@, "fully compatible with hinted multi-segment listing and startup discovery"@]
        &&& strs_view(p.limitations@) == seq!["virtual-hosted addressing is the recommended default"@]
    } else if i == 3 {
        &&& p.name@ == "r2"@
        &&& p.provider@ == "Cloudflare R2"@
        &&& p.status@ == "documented"@
        &&& opt_str_view(p.default_region) == Some("auto"@)
        &&& p.default_endpoint_url is None
        &&& opt_str_view(p.endpoint_template) is None
        &&& p.recommended_addressing_style == AddressingStyle::Path
        &&& p.requires_explicit_endpoint == true
        &&& p.tested_by_project == false
        &&& strs_view(p.notes@) == seq!["R2 commonly uses region 'auto' with an account-specific endpoint"@]
        &&& strs_view(p.limitations@) == seq!["not claimed as project-validated until compat-probe or endpoint validation is run"@]
    } else if i == 4 {
        &&& p.name@ == "b2"@
        &&& p.provider@ == "Backblaze B2 S3-compatible API"@
        &&& p.status@ == "documented"@
        &&& opt_str_view(p.default_region) is None
        &&& p.default_endpoint_url is None
        &&& opt_str_view(p.endpoint_template) == Some("https://s3.{region}.backblazeb2.com"@)
        &&& p.recommended_addressing_style == AddressingStyle::Path
        &&& p.requires_explicit_endpoint == false
        &&& p.tested_by_project == false
        &&& strs_view(p.notes@) == seq!["the endpoint derives from the bucket's region (e.g. us-west-004)"@]
        &&& strs_view(p.limitations@) == seq!["not claimed as project-validated until compat-probe or endpoint validation is run"@]
    } else if i == 5 {
        &&& p.name@ == "oss"@
        &&& p.provider@ == "Alibaba Cloud OSS S3-compatible API"@
        &&& p.status@ == "documented"@
        &&& opt_str_view(p.default_region) is None
        &&& p.default_endpoint_url is None
        &&& opt_str_view(p.endpoint_template) == Some("https://{region}.aliyuncs.com"@)
        &&& p.recommended_addressing_style == AddressingStyle::Virtual
        &&& p.requires_explicit_endpoint == false
        &&& p.tested_by_project == false
        &&& strs_view(p.notes@) == seq!["the endpoint derives from the region (e.g. oss-cn-beijing)"@]
        &&& strs_view(p.limitations@) == seq!["not claimed as project-validated until compat-probe or endpoint validation is run"@]
    } else {
        false
    }
}

fn profile_0() -> (r: EndpointProfile)
    ensures
        profile_is(r, 0),
{
    let mut notes: Vec<&'static str> = Vec::new();
    notes.push("baseline S3-compatible behavior");
    let mut limitations: Vec<&'static str> = Vec::new();
    limitations.push("region remains user supplied or SDK/default environment supplied");
    let r = EndpointProfile {
        name: "aws",
        provider: "AWS S3",
        status: "stable",
        default_region: None,
        default_endpoint_url: None,
        endpoint_template: None,
        recommended_addressing_style: AddressingStyle::Virtual,
        requires_explicit_endpoint: false,
        tested_by_project: true,
        notes,
        limitations,
    };
    assert(strs_view(r.notes@) =~= seq!["baseline S3-compatible behavior"@]);
    assert(strs_view(r.limitations@) =~= seq!["region remains user supplied or SDK/default environment supplied"@]);
    r
}

fn profile_1() -> (r: EndpointProfile)
    ensures
        profile_is(r, 1),
{
    let mut notes: Vec<&'static str> = Vec::new();
    notes.push("path-style addressing is the safest default for local MinIO deployments");
    let mut limitations: Vec<&'static str> = Vec::new();
    limitations.push("endpoint URL is deployment-specific and must be supplied by the user");
    let r = EndpointProfile {
        name: "minio",
        provider: "MinIO",
        status: "stable",
        default_region: None,
        default_endpoint_url: None,
        endpoint_template: None,
        recommended_addressing_style: AddressingStyle::Path,
        requires_explicit_endpoint: true,
        tested_by_project: true,
        notes,
        limitations,
    };
    assert(strs_view(r.notes@) =~= seq!["path-style addressing is the safest default for local MinIO deployments"@]);
    assert(strs_view(r.limitations@) =~= seq!["endpoint URL is deployment-specific and must be supplied by the user"@]);
    r
}

fn profile_2() -> (r: EndpointProfile)
    ensures
        profile_is(r, 2),
{
    let mut notes: Vec<&'static str> = Vec::new();
    notes.push("uses the standard S3-compatible ListObjectsV2 path");
    notes.push("fully compatible with hinted multi-segment listing and startup discovery");
    let mut limitations: Vec<&'static str> = Vec::new();
    limitations.push("virtual-hosted addressing is the recommended default");
    let r = EndpointProfile {
        name: "bos",
        provider: "Baidu BOS S3-compatible API",
        status: "stable",
        default_region: Some("bj"),
        default_endpoint_url: None,
        endpoint_template: Some("https://s3.{region}.bcebos.com"),
        recommended_addressing_style: AddressingStyle::Virtual,
        requires_explicit_endpoint: false,
        tested_by_project: true,
        notes,
        limitations,
    };
    assert(strs_view(r.notes@) =~= seq!["uses the standard S3-compatible ListObjectsV2 path"@, "fully compatible with hinted multi-segment listing and startup discovery"@]);
    assert(strs_view(r.limitations@) =~= seq!["virtual-hosted addressing is the recommended default"@]);
    r
}

fn profile_3() -> (r: EndpointProfile)
    ensures
        profile_is(r, 3),
{
    let mut notes: Vec<&'static str> = Vec::new();
    notes.push("R2 commonly uses region 'auto' with an account-specific endpoint");
    let mut limitations: Vec<&'static str> = Vec::new();
    limitations.push("not claimed as project-validated until compat-probe or endpoint validation is run");
    let r = EndpointProfile {
        name: "r2",
        provider: "Cloudflare R2",
        status: "documented",
        default_region: Some("auto"),
        default_endpoint_url: None,
        endpoint_template: None,
        recommended_addressing_style: AddressingStyle::Path,
        requires_explicit_endpoint: true,
        tested_by_project: false,
        notes,
        limitations,
    };
    assert(strs_view(r.notes@) =~= seq!["R2 commonly uses region 'auto' with an account-specific endpoint"@]);
    assert(strs_view(r.limitations@) =~= seq!["not claimed as project-validated until compat-probe or endpoint validation is run"@]);
    r
}

fn profile_4() -> (r: EndpointProfile)
    ensures
        profile_is(r, 4),
{
    let mut notes: Vec<&'static str> = Vec::new();
    notes.push("the endpoint derives from the bucket's region (e.g. us-west-004)");
    let mut limitations: Vec<&'static str> = Vec::new();
    limitations.push("not claimed as project-validated until compat-probe or endpoint validation is run");
    let r = EndpointProfile {
        name: "b2",
        provider: "Backblaze B2 S3-compatible API",
        status: "documented",
        default_region: None,
        default_endpoint_url: None,
        endpoint_template: Some("https://s3.{region}.backblazeb2.com"),
        recommended_addressing_style: AddressingStyle::Path,
        requires_explicit_endpoint: false,
        tested_by_project: false,
        notes,
        limitations,
    };
    assert(strs_view(r.notes@) =~= seq!["the endpoint derives from the bucket's region (e.g. us-west-004)"@]);
    assert(strs_view(r.limitations@) =~= seq!["not claimed as project-validated until compat-probe or endpoint validation is run"@]);
    r
}

fn profile_5() -> (r: EndpointProfile)
    ensures
        profile_is(r, 5),
{
    let mut notes: Vec<&'static str> = Vec::new();
    notes.push("the endpoint derives from the region (e.g. oss-cn-beijing)");
    let mut limitations: Vec<&'static str> = Vec::new();
    limitations.push("not claimed as project-validated until compat-probe or endpoint validation is run");
    let r = EndpointProfile {
        name: "oss",
        provider: "Alibaba Cloud OSS S3-compatible API",
        status: "documented",
        default_region: None,
        default_endpoint_url: None,
        endpoint_template: Some("https://{region}.aliyuncs.com"),
        recommended_addressing_style: AddressingStyle::Virtual,
        requires_explicit_endpoint: false,
        tested_by_project: false,
        notes,
        limitations,
    };
    assert(strs_view(r.notes@) =~= seq!["the endpoint derives from the region (e.g. oss-cn-beijing)"@]);
    assert(strs_view(r.limitations@) =~= seq!["not claimed as project-validated until compat-probe or endpoint validation is run"@]);
    r
}

/// Every known profile, in table order.
pub fn all_profiles() -> (r: Vec<EndpointProfile>)
    ensures
        r@.len() == profile_count(),
        forall|i: int| 0 <= i < profile_count() ==> profile_is(#[trigger] r@[i], i),
{
    let mut v: Vec<EndpointProfile> = Vec::new();
    v.push(profile_0());
    v.push(profile_1());
    v.push(profile_2());
    v.push(profile_3());
    v.push(profile_4());
    v.push(profile_5());
    v
}

/// Position of the profile whose name equals `name` ignoring ASCII case, or
/// -1.
pub open spec fn profile_index(name: Seq<char>) -> int {
    if ascii_lower_seq(name) == profile_name(0) {
        0
    } else if ascii_lower_seq(name) == profile_name(1) {
        1
    } else if ascii_lower_seq(name) == profile_name(2) {
        2
    } else if ascii_lower_seq(name) == profile_name(3) {
        3
    } else if ascii_lower_seq(name) == profile_name(4) {
        4
    } else if ascii_lower_seq(name) == profile_name(5) {
        5
    } else {
        -1
    }
}

proof fn lemma_profile_names_lower()
    ensures
        forall|i: int| 0 <= i < profile_count() ==> ascii_lower_seq(#[trigger] profile_name(i)) == profile_name(i),
{
    reveal_strlit("aws");
    assert(ascii_lower_seq(profile_name(0)) =~= profile_name(0));
    reveal_strlit("minio");
    assert(ascii_lower_seq(profile_name(1)) =~= profile_name(1));
    reveal_strlit("bos");
    assert(ascii_lower_seq(profile_name(2)) =~= profile_name(2));
    reveal_strlit("r2");
    assert(ascii_lower_seq(profile_name(3)) =~= profile_name(3));
    reveal_strlit("b2");
    assert(ascii_lower_seq(profile_name(4)) =~= profile_name(4));
    reveal_strlit("oss");
    assert(ascii_lower_seq(profile_name(5)) =~= profile_name(5));
}

/// Looking a profile up by name is a find in table order: the profile
/// found is the first whose name equals the one given, ignoring ASCII case,
/// and none is found where no name does.
pub proof fn law_get_profile_finds_by_name(name: Seq<char>)
    ensures
        profile_index(name) >= 0 ==> {
            &&& profile_index(name) < profile_count()
            &&& ascii_lower_seq(profile_name(profile_index(name))) == ascii_lower_seq(name)
            &&& forall|j: int|
                0 <= j < profile_index(name) ==> ascii_lower_seq(#[trigger] profile_name(j))
                    != ascii_lower_seq(name)
        },
        profile_index(name) == -1 ==> forall|j: int|
            0 <= j < profile_count() ==> ascii_lower_seq(#[trigger] profile_name(j)) != ascii_lower_seq(
                name,
            ),
{
    lemma_profile_names_lower();
    assert(ascii_lower_seq(profile_name(0)) == profile_name(0));
    assert(ascii_lower_seq(profile_name(1)) == profile_name(1));
    assert(ascii_lower_seq(profile_name(2)) == profile_name(2));
    assert(ascii_lower_seq(profile_name(3)) == profile_name(3));
    assert(ascii_lower_seq(profile_name(4)) == profile_name(4));
    assert(ascii_lower_seq(profile_name(5)) == profile_name(5));
}

/// Looks a profile up by name, ignoring ASCII case.
pub fn get_profile(name: &str) -> (r: Option<EndpointProfile>)
    ensures
        match r {
            Some(p) => profile_index(name@) >= 0 && profile_is(p, profile_index(name@)),
            None => profile_index(name@) == -1,
        },
{
    proof {
        lemma_profile_names_lower();
    }
    let mut all = all_profiles();
    let target = str_chars(name);
    let mut i: usize = 0;
    while i < all.len()
        invariant
            all@.len() == profile_count(),
            target@ == name@,
            forall|k: int| 0 <= k < profile_count() ==> profile_is(#[trigger] all@[k], k),
            i <= all@.len(),
            forall|k: int| 0 <= k < i ==> ascii_lower_seq(name@) != #[trigger] profile_name(k),
            forall|k: int| 0 <= k < profile_count() ==> ascii_lower_seq(#[trigger] profile_name(k)) == profile_name(k),
        decreases all@.len() - i,
    {
        let pname = str_chars(all[i].name);
        proof {
            assert(profile_is(all@[i as int], i as int));
            assert(all@[i as int].name@ == profile_name(i as int));
        }
        let same = eq_ignore_ascii_case(pname.as_slice(), target.as_slice());
        proof {
            assert(pname@ == profile_name(i as int));
            assert(target@ == name@);
            assert(ascii_lower_seq(profile_name(i as int)) == profile_name(i as int));
            assert(same == (ascii_lower_seq(pname@) == ascii_lower_seq(target@)));
            assert(same == (profile_name(i as int) == ascii_lower_seq(name@)));
        }
        if same {
            proof {
                assert(profile_index(name@) == i as int);
            }
            let p = all.remove(i);
            return Some(p);
        }
        i += 1;
    }
    None
}

pub open spec fn is_preset_name(name: Seq<char>) -> bool {
    let l = ascii_lower_seq(name);
    l == "bos"@ || l == "minio"@ || l == "r2"@ || l == "b2"@ || l == "oss"@
}

/// Whether a name is one of the endpoint preset names (not `aws`).
pub fn is_endpoint_preset_name(name: &str) -> (r: bool)
    ensures
        r == is_preset_name(name@),
{
    let lower = to_ascii_lowercase(str_chars(name).as_slice());
    let l = string_from_chars(lower.as_slice());
    crate::text::str_eq(l.as_str(), "bos") || crate::text::str_eq(l.as_str(), "minio")
        || crate::text::str_eq(l.as_str(), "r2") || crate::text::str_eq(l.as_str(), "b2")
        || crate::text::str_eq(l.as_str(), "oss")
}

pub open spec fn has_placeholder(endpoint: Seq<char>) -> bool {
    has_char(endpoint, '<') || has_char(endpoint, '>')
}

/// Whether an endpoint URL still holds `<...>` template placeholders.
pub fn endpoint_url_has_template_placeholder(endpoint: &str) -> (r: bool)
    ensures
        r == has_placeholder(endpoint@),
{
    let c = str_chars(endpoint);
    has_char_exec(c.as_slice(), '<') || has_char_exec(c.as_slice(), '>')
}

// ── Per-profile facts by position ──────────────────────────

pub open spec fn profile_template(i: int) -> Option<Seq<char>> {
    if i == 2 {
        Some("https://s3.{region}.bcebos.com"@)
    } else if i == 4 {
        Some("https://s3.{region}.backblazeb2.com"@)
    } else if i == 5 {
        Some("https://{region}.aliyuncs.com"@)
    } else {
        None
    }
}

pub open spec fn profile_default_region(i: int) -> Option<Seq<char>> {
    if i == 2 {
        Some("bj"@)
    } else if i == 3 {
        Some("auto"@)
    } else {
        None
    }
}

pub open spec fn profile_style(i: int) -> AddressingStyle {
    if i == 1 || i == 3 || i == 4 {
        AddressingStyle::Path
    } else {
        AddressingStyle::Virtual
    }
}

pub open spec fn profile_requires_endpoint(i: int) -> bool {
    i == 1 || i == 3
}

pub(crate) proof fn lemma_profile_facts(p: EndpointProfile, i: int)
    requires
        0 <= i < profile_count(),
        profile_is(p, i),
    ensures
        p.name@ == profile_name(i),
        opt_str_view(p.endpoint_template) == profile_template(i),
        opt_str_view(p.default_region) == profile_default_region(i),
        p.default_endpoint_url is None,
        p.recommended_addressing_style == profile_style(i),
        p.requires_explicit_endpoint == profile_requires_endpoint(i),
{
}

// ── Applying a preset ──────────────────────────────────────

/// The region used for a template: the run's region when non-empty,
/// otherwise the profile's default region.
pub open spec fn effective_region(region: Option<Seq<char>>, i: int) -> Option<Seq<char>> {
    match region {
        Some(r) => if r.len() > 0 {
            Some(r)
        } else {
            profile_default_region(i)
        },
        None => profile_default_region(i),
    }
}

/// The endpoint after applying profile `i`: an explicit endpoint is kept;
/// otherwise the profile's template is filled with the effective region.
pub open spec fn preset_endpoint(cur: Option<Seq<char>>, i: int, region: Option<Seq<char>>) -> Option<
    Seq<char>,
> {
    if cur is Some {
        cur
    } else if profile_template(i) is Some && effective_region(region, i) is Some {
        Some(
            crate::text::replace_all(
                profile_template(i)->0,
                "{region}"@,
                effective_region(region, i)->0,
            ),
        )
    } else {
        None
    }
}

/// The addressing style after applying profile `i`: only `Auto` is
/// replaced by the recommendation.
pub open spec fn preset_style(cur: AddressingStyle, i: int) -> AddressingStyle {
    if cur == AddressingStyle::Auto {
        profile_style(i)
    } else {
        cur
    }
}

fn opt_str_to_string(o: Option<&'static str>) -> (r: Option<String>)
    ensures
        opt_string_v(r) == opt_str_view(o),
{
    match o {
        Some(s) => Some(owned(s)),
        None => None,
    }
}

fn strs_to_strings(v: &Vec<&'static str>) -> (r: Vec<String>)
    ensures
        r@.len() == v@.len(),
        forall|i: int| 0 <= i < v@.len() ==> #[trigger] r@[i]@ == v@[i]@,
{
    let mut out: Vec<String> = Vec::new();
    let mut i: usize = 0;
    while i < v.len()
        invariant
            i <= v@.len(),
            out@.len() == i,
            forall|k: int| 0 <= k < i ==> #[trigger] out@[k]@ == v@[k]@,
        decreases v@.len() - i,
    {
        out.push(owned(v[i]));
        i += 1;
    }
    out
}

/// Applies the configured endpoint profile's defaults. Without a profile
/// nothing happens (`None`); an unknown profile changes nothing and is
/// reported; a known one fills a missing endpoint from its template and
/// replaces an `Auto` addressing style by its recommendation.
pub fn apply_profile_preset(cfg: &mut S3TurboConfig, region: Option<&str>) -> (r: Option<
    ProfileApplication,
>)
    ensures
        crate::config::only_endpoint_and_style_changed(*old(cfg), *final(cfg)),
        match old(cfg).s3.profile {
            None => r is None && *final(cfg) == *old(cfg),
            Some(name) => r is Some && if profile_index(name@) < 0 {
                &&& *final(cfg) == *old(cfg)
                &&& r->0.name@ == name@
                &&& !r->0.known
                &&& !r->0.endpoint_url_applied
                &&& !r->0.addressing_style_applied
                &&& r->0.warnings@.len() == 1
                &&& r->0.warnings@[0]@ == "unknown endpoint profile; no preset applied"@
            } else {
                let i = profile_index(name@);
                &&& opt_string_v(final(cfg).s3.endpoint_url) == preset_endpoint(
                    opt_string_v(old(cfg).s3.endpoint_url),
                    i,
                    crate::config::opt_owned(region),
                )
                &&& final(cfg).s3.addressing_style == preset_style(
                    old(cfg).s3.addressing_style,
                    i,
                )
                &&& r->0.name@ == profile_name(i)
                &&& r->0.known
                &&& r->0.endpoint_url_applied == (opt_string_v(final(cfg).s3.endpoint_url)
                    != opt_string_v(old(cfg).s3.endpoint_url))
                &&& r->0.addressing_style_applied == (old(cfg).s3.addressing_style
                    == AddressingStyle::Auto)
            },
        },
{
    let name = match &cfg.s3.profile {
        None => {
            return None;
        },
        Some(n) => n.clone(),
    };
    let profile = match get_profile(name.as_str()) {
        None => {
            let mut warnings: Vec<String> = Vec::new();
            warnings.push(owned("unknown endpoint profile; no preset applied"));
            return Some(
                ProfileApplication {
                    name,
                    known: false,
                    endpoint_url_applied: false,
                    addressing_style_applied: false,
                    warnings,
                },
            );
        },
        Some(p) => p,
    };
    let ghost i = profile_index(name@);
    proof {
        lemma_profile_facts(profile, i);
        reveal_strlit("{region}");
    }
    let mut endpoint_url_applied = false;
    if cfg.s3.endpoint_url.is_none() {
        if let Some(template) = profile.endpoint_template {
            let eff: Option<&str> = match region {
                Some(r) => if !r.is_empty() {
                    Some(r)
                } else {
                    profile.default_region
                },
                None => profile.default_region,
            };
            if let Some(reg) = eff {
                let t = str_chars(template);
                let pat = str_chars("{region}");
                let rep = str_chars(reg);
                let filled = crate::text::replace_all_exec(t.as_slice(), pat.as_slice(), rep.as_slice());
                cfg.s3.endpoint_url = Some(string_from_chars(filled.as_slice()));
                endpoint_url_applied = true;
            }
        }
    }
    let mut addressing_style_applied = false;
    if cfg.s3.addressing_style == AddressingStyle::Auto && profile.recommended_addressing_style
        != AddressingStyle::Auto {
        cfg.s3.addressing_style = profile.recommended_addressing_style;
        addressing_style_applied = true;
    }
    let warnings = strs_to_strings(&profile.limitations);
    Some(
        ProfileApplication {
            name: owned(profile.name),
            known: true,
            endpoint_url_applied,
            addressing_style_applied,
            warnings,
        },
    )
}

// ── Guardrails ─────────────────────────────────────────────

pub open spec fn requires_endpoint_warning(name: Seq<char>) -> Seq<char> {
    "endpoint compatibility profile '"@ + name
        + "' requires an explicit endpoint URL; pass --endpoint-url or set s3.endpoint_url in config"@
}

pub open spec fn region_endpoint_warning(name: Seq<char>) -> Seq<char> {
    "endpoint compatibility profile '"@ + name
        + "' derives its endpoint from the region; pass --region or --endpoint-url"@
}

pub open spec fn placeholder_warning(endpoint: Seq<char>) -> Seq<char> {
    "endpoint URL '"@ + endpoint
        + "' still contains template placeholders; replace values such as <account-id> or <region> before a real run"@
}

/// The warnings about a profile that needs an endpoint it does not have.
pub open spec fn profile_warnings(profile: Option<Seq<char>>, endpoint: Option<Seq<char>>) -> Seq<
    Seq<char>,
> {
    match profile {
        Some(name) => {
            let i = profile_index(name);
            let missing = match endpoint {
                Some(e) => trim(e).len() == 0,
                None => true,
            };
            if i >= 0 && missing {
                if profile_requires_endpoint(i) {
                    seq![requires_endpoint_warning(profile_name(i))]
                } else if profile_template(i) is Some && profile_default_region(i) is None {
                    seq![region_endpoint_warning(profile_name(i))]
                } else {
                    seq![]
                }
            } else {
                seq![]
            }
        },
        None => seq![],
    }
}

/// Every guardrail warning for a configuration, in order.
pub open spec fn guardrail_warnings(profile: Option<Seq<char>>, endpoint: Option<Seq<char>>) -> Seq<
    Seq<char>,
> {
    profile_warnings(profile, endpoint) + match endpoint {
        Some(e) => if has_placeholder(e) {
            seq![placeholder_warning(e)]
        } else {
            seq![]
        },
        None => seq![],
    }
}

fn concat3(a: &str, b: &str, c: &str) -> (r: String)
    ensures
        r@ == a@ + b@ + c@,
{
    let mut s = owned(a);
    string_push_str(&mut s, b);
    string_push_str(&mut s, c);
    s
}

/// Warnings about endpoint settings that will not work as configured.
pub fn endpoint_profile_guardrail_warnings(cfg: &S3TurboConfig) -> (r: Vec<String>)
    ensures
        strings_view(r@) == guardrail_warnings(
            opt_string_v(cfg.s3.profile),
            opt_string_v(cfg.s3.endpoint_url),
        ),
{
    let mut warnings: Vec<String> = Vec::new();
    if let Some(profile_name) = &cfg.s3.profile {
        if let Some(profile) = get_profile(profile_name.as_str()) {
            proof {
                lemma_profile_facts(profile, profile_index(profile_name@));
            }
            let missing = match &cfg.s3.endpoint_url {
                Some(e) => trim_chars(str_chars(e.as_str()).as_slice()).len() == 0,
                None => true,
            };
            if missing {
                if profile.requires_explicit_endpoint {
                    warnings.push(
                        concat3(
                            "endpoint compatibility profile '",
                            profile.name,
                            "' requires an explicit endpoint URL; pass --endpoint-url or set s3.endpoint_url in config",
                        ),
                    );
                } else if profile.endpoint_template.is_some() && profile.default_region.is_none() {
                    warnings.push(
                        concat3(
                            "endpoint compatibility profile '",
                            profile.name,
                            "' derives its endpoint from the region; pass --region or --endpoint-url",
                        ),
                    );
                }
            }
        }
    }
    let ghost first = strings_view(warnings@);
    assert(first =~= profile_warnings(
        opt_string_v(cfg.s3.profile),
        opt_string_v(cfg.s3.endpoint_url),
    ));
    if let Some(endpoint) = &cfg.s3.endpoint_url {
        if endpoint_url_has_template_placeholder(endpoint.as_str()) {
            warnings.push(
                concat3(
                    "endpoint URL '",
                    endpoint.as_str(),
                    "' still contains template placeholders; replace values such as <account-id> or <region> before a real run",
                ),
            );
        }
    }
    assert(strings_view(warnings@) =~= guardrail_warnings(
        opt_string_v(cfg.s3.profile),
        opt_string_v(cfg.s3.endpoint_url),
    ));
    warnings
}

} // verus!
