//! Key-space hints files: telling a TOML hints cache from a plain list of
//! boundary keys, validating plain lines against leaked TOML syntax, the
//! warnings a boundary list earns, and the sorted, de-duplicated boundary
//! set that a plain file yields. Reading the file and the TOML parse of a
//! cache are the application's.
use crate::agent::{find_eq, first_eq};
use crate::text::{
    append_chars, append_str, contains_sub, contains_sub_exec, dec, ends_with, ends_with_exec,
    has_char, has_char_exec, has_control, has_control_exec, lines, owned, push_dec, seq_lt,
    split_lines, starts_with, starts_with_exec, str_chars, string_from_chars, strings_view, trim,
    trim_chars,
};
use vstd::prelude::*;

verus! {

// ── Hints cache ────────────────────────────────────────────

/// Estimated size of one key-space segment.
#[derive(Debug, Clone)]
pub struct SegmentEstimate {
    pub start_after: String,
    pub end_before: Option<String>,
    pub estimated_objects: usize,
}

/// A TOML hints cache.
#[derive(Debug, Clone)]
pub struct HintsCache {
    pub bucket: String,
    pub region: Option<String>,
    pub prefix: Option<String>,
    pub total_objects: usize,
    pub boundaries: Vec<String>,
    pub generated_at: String,
    pub source_count: Option<usize>,
    pub source_files: Vec<String>,
    pub max_keys: Option<i32>,
    pub max_prefix_entries: Option<usize>,
    pub prefix_counts_truncated: bool,
    pub scan_mode: Option<String>,
    pub sampled_objects: Option<usize>,
    pub sampled_pages: Option<usize>,
    pub sample_limit: Option<usize>,
    pub max_pages: Option<usize>,
    pub estimate_mode: Option<String>,
    pub segment_estimates: Vec<SegmentEstimate>,
}

#[derive(Debug, Clone, Copy, PartialEq, Eq, Structural)]
pub enum HintsFormat {
    Toml,
    Plain,
}

#[derive(Debug, Clone)]
pub struct HintsMetadata {
    pub bucket: Option<String>,
    pub region: Option<String>,
    pub total_objects: Option<usize>,
    pub generated_at: Option<String>,
    pub scan_mode: Option<String>,
    pub sampled_objects: Option<usize>,
    pub sampled_pages: Option<usize>,
    pub sample_limit: Option<usize>,
    pub max_pages: Option<usize>,
}

#[derive(Debug, Clone)]
pub struct HintsValidationReport {
    pub path: String,
    pub format: HintsFormat,
    pub boundary_count: usize,
    pub metadata: Option<HintsMetadata>,
    pub first_boundaries: Vec<String>,
    pub warnings: Vec<String>,
    pub valid: bool,
}

// ── Telling TOML from plain ────────────────────────────────

/// The top-level keys of a hints cache.
pub open spec fn toml_field(k: Seq<char>) -> bool {
    k == "bucket"@ || k == "region"@ || k == "total_objects"@ || k == "boundaries"@ || k
        == "generated_at"@ || k == "scan_mode"@ || k == "sampled_objects"@ || k
        == "sampled_pages"@ || k == "sample_limit"@ || k == "max_pages"@
}

/// A TOML table header: `[` first, `]` last, more than two characters
/// (for such a line the byte length exceeds two exactly when this does).
pub open spec fn is_table_header(l: Seq<char>) -> bool {
    l.len() > 2 && l[0] == '[' && l.last() == ']'
}

/// A line that counts as a key/value pair: not blank, not a comment, with
/// an `=`.
pub open spec fn is_kv_line(l: Seq<char>) -> bool {
    let t = trim(l);
    t.len() > 0 && !starts_with(t, "#"@) && first_eq(t) >= 0
}

pub open spec fn kv_key(l: Seq<char>) -> Seq<char> {
    let t = trim(l);
    trim(t.take(first_eq(t)))
}

pub open spec fn kv_count(ls: Seq<Seq<char>>) -> nat
    decreases ls.len(),
{
    if ls.len() == 0 {
        0
    } else {
        kv_count(ls.drop_last()) + if is_kv_line(ls.last()) {
            1nat
        } else {
            0nat
        }
    }
}

pub open spec fn non_blank_count(ls: Seq<Seq<char>>) -> nat
    decreases ls.len(),
{
    if ls.len() == 0 {
        0
    } else {
        non_blank_count(ls.drop_last()) + if trim(ls.last()).len() > 0 {
            1nat
        } else {
            0nat
        }
    }
}

pub open spec fn has_known_field(ls: Seq<Seq<char>>) -> bool {
    exists|i: int| 0 <= i < ls.len() && is_kv_line(ls[i]) && toml_field(kv_key(ls[i]))
}

pub open spec fn has_table_header(ls: Seq<Seq<char>>) -> bool {
    exists|i: int| 0 <= i < ls.len() && is_table_header(trim(ls[i]))
}

/// Whether hints text is a TOML cache: a `boundaries` array, a table
/// header, or at least half the non-blank lines being key/value pairs with
/// one of them a cache field.
pub open spec fn looks_like_toml(content: Seq<char>) -> bool {
    let t = trim(content);
    let ls = lines(t);
    if t.len() == 0 {
        false
    } else if contains_sub(t, "boundaries = ["@) || contains_sub(t, "boundaries=["@) {
        true
    } else if has_table_header(ls) {
        true
    } else {
        kv_count(ls) >= non_blank_count(ls) / 2 && has_known_field(ls)
    }
}

fn is_toml_field(k: &[char]) -> (r: bool)
    ensures
        r == toml_field(k@),
{
    let s = string_from_chars(k);
    let k = s.as_str();
    crate::text::str_eq(k, "bucket") || crate::text::str_eq(k, "region") || crate::text::str_eq(
        k,
        "total_objects",
    ) || crate::text::str_eq(k, "boundaries") || crate::text::str_eq(k, "generated_at")
        || crate::text::str_eq(k, "scan_mode") || crate::text::str_eq(k, "sampled_objects")
        || crate::text::str_eq(k, "sampled_pages") || crate::text::str_eq(k, "sample_limit")
        || crate::text::str_eq(k, "max_pages")
}

fn is_table_header_exec(l: &[char]) -> (r: bool)
    ensures
        r == is_table_header(l@),
{
    l.len() > 2 && l[0] == '[' && l[l.len() - 1] == ']'
}

fn starts_with_str(s: &[char], p: &str) -> (r: bool)
    ensures
        r == starts_with(s@, p@),
{
    let pc = str_chars(p);
    starts_with_exec(s, pc.as_slice())
}

fn ends_with_str(s: &[char], p: &str) -> (r: bool)
    ensures
        r == ends_with(s@, p@),
{
    let pc = str_chars(p);
    ends_with_exec(s, pc.as_slice())
}

fn contains_str(s: &[char], p: &str) -> (r: bool)
    ensures
        r == contains_sub(s@, p@),
{
    let pc = str_chars(p);
    contains_sub_exec(s, pc.as_slice())
}

/// Whether a line is a key/value pair, and whether its key is a cache
/// field.
fn kv_line(l: &[char]) -> (r: (bool, bool))
    ensures
        r.0 == is_kv_line(l@),
        r.1 == (is_kv_line(l@) && toml_field(kv_key(l@))),
{
    let t = trim_chars(l);
    if t.len() == 0 || starts_with_str(t.as_slice(), "#") {
        return (false, false);
    }
    match find_eq(t.as_slice()) {
        None => (false, false),
        Some(p) => {
            let key = crate::text::slice_chars(t.as_slice(), 0, p);
            let k = trim_chars(key.as_slice());
            (true, is_toml_field(k.as_slice()))
        },
    }
}

pub fn looks_like_toml_hints(content: &str) -> (r: bool)
    ensures
        r == looks_like_toml(content@),
{
    let c = str_chars(content);
    let t = trim_chars(c.as_slice());
    if t.len() == 0 {
        return false;
    }
    if contains_str(t.as_slice(), "boundaries = [") || contains_str(t.as_slice(), "boundaries=[") {
        return true;
    }
    let ls = split_lines(t.as_slice());
    let ghost lv = lines(t@);
    let mut i: usize = 0;
    while i < ls.len()
        invariant
            i <= ls.len(),
            ls@.len() == lv.len(),
            forall|j: int| 0 <= j < ls@.len() ==> #[trigger] ls@[j]@ == lv[j],
            forall|j: int| 0 <= j < i ==> !is_table_header(trim(#[trigger] lv[j])),
            lv == lines(trim(content@)),
            trim(content@).len() > 0,
            !contains_sub(trim(content@), "boundaries = ["@),
            !contains_sub(trim(content@), "boundaries=["@),
        decreases ls.len() - i,
    {
        let stripped = trim_chars(ls[i].as_slice());
        if is_table_header_exec(stripped.as_slice()) {
            assert(is_table_header(trim(lv[i as int])));
            assert(has_table_header(lv));
            return true;
        }
        i += 1;
    }
    let mut kv: usize = 0;
    let mut non_blank: usize = 0;
    let mut known = false;
    let mut i: usize = 0;
    while i < ls.len()
        invariant
            i <= ls.len(),
            ls@.len() == lv.len(),
            forall|j: int| 0 <= j < ls@.len() ==> #[trigger] ls@[j]@ == lv[j],
            kv == kv_count(lv.take(i as int)),
            non_blank == non_blank_count(lv.take(i as int)),
            kv <= i,
            non_blank <= i,
            known == has_known_field(lv.take(i as int)),
        decreases ls.len() - i,
    {
        assert(lv.take(i + 1).drop_last() =~= lv.take(i as int));
        assert(lv.take(i + 1).last() == lv[i as int]);
        let (is_kv, is_known) = kv_line(ls[i].as_slice());
        if is_kv {
            kv += 1;
        }
        if is_known {
            known = true;
        }
        let stripped = trim_chars(ls[i].as_slice());
        if stripped.len() > 0 {
            non_blank += 1;
        }
        proof {
            let p = lv.take(i + 1);
            if is_known {
                assert(p[i as int] == lv[i as int]);
            }
            if has_known_field(lv.take(i as int)) {
                let w = choose|w: int|
                    0 <= w < lv.take(i as int).len() && is_kv_line(lv.take(i as int)[w])
                        && toml_field(kv_key(lv.take(i as int)[w]));
                assert(p[w] == lv.take(i as int)[w]);
            }
            if has_known_field(p) {
                let w = choose|w: int|
                    0 <= w < p.len() && is_kv_line(p[w]) && toml_field(kv_key(p[w]));
                if w < i {
                    assert(lv.take(i as int)[w] == p[w]);
                }
            }
        }
        i += 1;
    }
    assert(lv.take(ls.len() as int) =~= lv);
    kv >= non_blank / 2 && known
}

// ── Plain lines ────────────────────────────────────────────

/// Why a plain hints line is refused as leaked TOML syntax (`line_no` is
/// zero-based), or `None` where it is a plain key.
pub open spec fn boundary_line_error(s: Seq<char>, line_no: nat) -> Option<Seq<char>> {
    if (starts_with(s, "\""@) && ends_with(s, ","@)) || (starts_with(s, "'"@) && ends_with(
        s,
        ","@,
    )) {
        Some(
            "value '"@ + s
                + "' looks like a quoted TOML array entry with trailing comma. Plain hints files should contain bare keys (e.g. 'alpha/'), not quoted TOML values."@,
        )
    } else if starts_with(s, "boundaries ="@) || starts_with(s, "boundaries="@) {
        Some(
            "line "@ + dec(line_no + 1) + " is TOML array header '"@ + s
                + "'. Plain hints files should contain only object keys, not TOML structure."@,
        )
    } else if s == "]"@ {
        Some(
            "line "@ + dec(line_no + 1)
                + " is a TOML closing bracket ']'. Plain hints files should contain only object keys."@,
        )
    } else if is_table_header(s) {
        Some(
            "line "@ + dec(line_no + 1) + " looks like a TOML table header '"@ + s
                + "'. Plain hints files should contain only object keys."@,
        )
    } else if has_char(s, '=') && !starts_with(s, "#"@) {
        Some(
            "line "@ + dec(line_no + 1) + " looks like a TOML assignment '"@ + s
                + "'. Plain hints files should contain only object keys. If this IS an object key containing '=', use TOML format instead."@,
        )
    } else {
        None
    }
}

pub fn validate_boundary_line(s: &str, line_no: usize) -> (r: Result<(), String>)
    requires
        line_no < usize::MAX,
    ensures
        match boundary_line_error(s@, line_no as nat) {
            Some(m) => r is Err && r->Err_0@ == m,
            None => r is Ok,
        },
{
    let c = str_chars(s);
    let cs = c.as_slice();
    let mut out: Vec<char> = Vec::new();
    if (starts_with_str(cs, "\"") && ends_with_str(cs, ",")) || (starts_with_str(cs, "'")
        && ends_with_str(cs, ",")) {
        append_str(&mut out, "value '");
        append_chars(&mut out, cs);
        append_str(
            &mut out,
            "' looks like a quoted TOML array entry with trailing comma. Plain hints files should contain bare keys (e.g. 'alpha/'), not quoted TOML values.",
        );
    } else if starts_with_str(cs, "boundaries =") || starts_with_str(cs, "boundaries=") {
        append_str(&mut out, "line ");
        push_dec(&mut out, (line_no + 1) as u64);
        append_str(&mut out, " is TOML array header '");
        append_chars(&mut out, cs);
        append_str(
            &mut out,
            "'. Plain hints files should contain only object keys, not TOML structure.",
        );
    } else if crate::text::str_eq(s, "]") {
        append_str(&mut out, "line ");
        push_dec(&mut out, (line_no + 1) as u64);
        append_str(
            &mut out,
            " is a TOML closing bracket ']'. Plain hints files should contain only object keys.",
        );
    } else if is_table_header_exec(cs) {
        append_str(&mut out, "line ");
        push_dec(&mut out, (line_no + 1) as u64);
        append_str(&mut out, " looks like a TOML table header '");
        append_chars(&mut out, cs);
        append_str(&mut out, "'. Plain hints files should contain only object keys.");
    } else if has_char_exec(cs, '=') && !starts_with_str(cs, "#") {
        append_str(&mut out, "line ");
        push_dec(&mut out, (line_no + 1) as u64);
        append_str(&mut out, " looks like a TOML assignment '");
        append_chars(&mut out, cs);
        append_str(
            &mut out,
            "'. Plain hints files should contain only object keys. If this IS an object key containing '=', use TOML format instead.",
        );
    } else {
        return Ok(());
    }
    proof {
        let m = boundary_line_error(s@, line_no as nat)->Some_0;
        assert(out@ =~= m);
    }
    Err(string_from_chars(out.as_slice()))
}

// ── Boundary lists ─────────────────────────────────────────

/// Some adjacent pair is out of order.
pub open spec fn unsorted(v: Seq<Seq<char>>) -> bool {
    exists|i: int| 0 <= i && i + 1 < v.len() && seq_lt(#[trigger] v[i + 1], v[i])
}

/// How many entries repeat an earlier one (what de-duplication removes).
pub open spec fn dup_count(v: Seq<Seq<char>>) -> nat
    decreases v.len(),
{
    if v.len() == 0 {
        0
    } else {
        dup_count(v.drop_last()) + if v.drop_last().contains(v.last()) {
            1nat
        } else {
            0nat
        }
    }
}

pub open spec fn unsorted_text() -> Seq<char> {
    "boundaries are not sorted; regenerate hints for deterministic segment ordering"@
}

pub open spec fn duplicates_text(n: nat) -> Seq<char> {
    "duplicate boundaries detected; "@ + dec(n) + " duplicate entries will be ignored"@
}

/// The warnings a boundary list earns: out of order, then duplicates.
pub open spec fn warnings_for(v: Seq<Seq<char>>) -> Seq<Seq<char>> {
    let w = if unsorted(v) {
        seq![unsorted_text()]
    } else {
        Seq::empty()
    };
    if dup_count(v) > 0 {
        w.push(duplicates_text(dup_count(v)))
    } else {
        w
    }
}

fn push_string(out: &mut Vec<String>, s: String)
    ensures
        strings_view(final(out)@) == strings_view(old(out)@).push(s@),
{
    let ghost before = out@;
    out.push(s);
    assert(strings_view(out@) =~= strings_view(before).push(s@));
}

fn string_eq(a: &String, b: &String) -> (r: bool)
    ensures
        r == (a@ == b@),
{
    crate::text::str_eq(a.as_str(), b.as_str())
}

fn string_lt(a: &String, b: &String) -> (r: bool)
    ensures
        r == seq_lt(a@, b@),
{
    let ac = str_chars(a.as_str());
    let bc = str_chars(b.as_str());
    crate::text::compare_chars(ac.as_slice(), bc.as_slice()) == -1
}

pub fn boundary_warnings(boundaries: &[String]) -> (r: Vec<String>)
    ensures
        strings_view(r@) == warnings_for(strings_view(boundaries@)),
{
    let ghost v = strings_view(boundaries@);
    let mut warnings: Vec<String> = Vec::new();
    let mut i: usize = 0;
    let mut found = false;
    while i < boundaries.len() && i + 1 < boundaries.len() && !found
        invariant
            v == strings_view(boundaries@),
            i <= boundaries.len(),
            found ==> unsorted(v),
            !found ==> forall|k: int| 0 <= k < i ==> !seq_lt(#[trigger] v[k + 1], v[k]),
        decreases boundaries.len() - i, if found {
            0int
        } else {
            1int
        },
    {
        if string_lt(&boundaries[i + 1], &boundaries[i]) {
            assert(seq_lt(v[i + 1], v[i as int]));
            found = true;
        } else {
            i += 1;
        }
    }
    if found {
        push_string(&mut warnings, owned(
            "boundaries are not sorted; regenerate hints for deterministic segment ordering",
        ));
    }
    proof {
        assert(strings_view(warnings@) =~= if unsorted(v) {
            seq![unsorted_text()]
        } else {
            Seq::empty()
        });
    }
    let mut dups: usize = 0;
    let mut j: usize = 0;
    while j < boundaries.len()
        invariant
            v == strings_view(boundaries@),
            j <= boundaries.len(),
            dups == dup_count(v.take(j as int)),
            dups <= j,
        decreases boundaries.len() - j,
    {
        assert(v.take(j + 1).drop_last() =~= v.take(j as int));
        let mut k: usize = 0;
        let mut seen = false;
        while k < j && !seen
            invariant
                v == strings_view(boundaries@),
                k <= j < boundaries.len(),
                seen ==> v.take(j as int).contains(v[j as int]),
                !seen ==> forall|t: int| 0 <= t < k ==> v[t] != v[j as int],
            decreases j - k, if seen {
                0int
            } else {
                1int
            },
        {
            if string_eq(&boundaries[k], &boundaries[j]) {
                assert(v.take(j as int)[k as int] == v[j as int]);
                seen = true;
            } else {
                k += 1;
            }
        }
        proof {
            if !seen {
                assert forall|t: int| 0 <= t < v.take(j as int).len() implies v.take(j as int)[t]
                    != v[j as int] by {
                    assert(v.take(j as int)[t] == v[t]);
                }
            }
            assert(v.take(j + 1).last() == v[j as int]);
        }
        if seen {
            dups += 1;
        }
        j += 1;
    }
    assert(v.take(boundaries.len() as int) =~= v);
    if dups > 0 {
        let mut msg: Vec<char> = Vec::new();
        append_str(&mut msg, "duplicate boundaries detected; ");
        push_dec(&mut msg, dups as u64);
        append_str(&mut msg, " duplicate entries will be ignored");
        assert(msg@ =~= duplicates_text(dups as nat));
        push_string(&mut warnings, string_from_chars(msg.as_slice()));
    }
    warnings
}

/// Every earlier entry strictly precedes every later one.
pub open spec fn strictly_sorted(v: Seq<Seq<char>>) -> bool {
    forall|i: int, j: int| 0 <= i < j < v.len() ==> seq_lt(#[trigger] v[i], #[trigger] v[j])
}

/// The sorted, de-duplicated form of a list: strictly ascending, with the
/// same entries (which determines it).
pub fn sorted_unique(v: &[String]) -> (r: Vec<String>)
    ensures
        strictly_sorted(strings_view(r@)),
        forall|x: Seq<char>| strings_view(r@).contains(x) <==> strings_view(v@).contains(x),
{
    let ghost vs = strings_view(v@);
    let mut out: Vec<String> = Vec::new();
    let mut i: usize = 0;
    while i < v.len()
        invariant
            vs == strings_view(v@),
            i <= v.len(),
            strictly_sorted(strings_view(out@)),
            forall|x: Seq<char>| strings_view(out@).contains(x) <==> vs.take(i as int).contains(x),
        decreases v.len() - i,
    {
        let ghost os = strings_view(out@);
        let b = &v[i];
        let mut p: usize = 0;
        while p < out.len() && string_lt(&out[p], b)
            invariant
                os == strings_view(out@),
                p <= out.len(),
                forall|k: int| 0 <= k < p ==> seq_lt(#[trigger] os[k], b@),
            decreases out.len() - p,
        {
            p += 1;
        }
        proof {
            assert(vs.take(i + 1) =~= vs.take(i as int).push(b@));
            assert forall|x: Seq<char>| vs.take(i + 1).contains(x) <==> (vs.take(
            i as int,
            ).contains(x) || x == b@) by {
            let t1 = vs.take(i + 1);
            let t0 = vs.take(i as int);
            if t1.contains(x) {
                let w = choose|w: int| 0 <= w < t1.len() && #[trigger] t1[w] == x;
                if w < i {
                    assert(t0[w] == x);
                }
            }
            if t0.contains(x) {
                let w = choose|w: int| 0 <= w < t0.len() && #[trigger] t0[w] == x;
                assert(t1[w] == x);
            }
            if x == b@ {
                assert(t1[i as int] == x);
            }
            }
        }
        if p < out.len() && string_eq(&out[p], b) {
            proof {
                assert(os[p as int] == b@);
                assert(os.contains(b@));
            }
        } else {
            proof {
                if p < out.len() {
                    crate::text::lemma_seq_lt_total(os[p as int], b@);
                    assert(seq_lt(b@, os[p as int]));
                }
            }
            let copy = owned(b.as_str());
            out.insert(p, copy);
            proof {
                let ns = strings_view(out@);
                assert(ns =~= os.insert(p as int, b@));
                assert forall|c: int| p < c < ns.len() implies seq_lt(b@, #[trigger] ns[c]) by {
                    assert(ns[c] == os[c - 1]);
                    if c - 1 > p {
                        assert(seq_lt(os[p as int], os[c - 1]));
                        crate::text::lemma_seq_lt_trans(b@, os[p as int], os[c - 1]);
                    }
                }
                assert forall|a: int, c: int| 0 <= a < c < ns.len() implies seq_lt(
                    #[trigger] ns[a],
                    #[trigger] ns[c],
                ) by {
                    if c < p {
                        assert(ns[a] == os[a] && ns[c] == os[c]);
                    } else if c == p {
                        assert(ns[a] == os[a]);
                    } else if a < p {
                        assert(ns[a] == os[a]);
                        assert(seq_lt(b@, ns[c]));
                        crate::text::lemma_seq_lt_trans(ns[a], b@, ns[c]);
                    } else if a == p {
                        assert(seq_lt(b@, ns[c]));
                    } else {
                        assert(ns[a] == os[a - 1] && ns[c] == os[c - 1]);
                    }
                }
                assert forall|x: Seq<char>| ns.contains(x) <==> (os.contains(x) || x == b@) by {
                    if ns.contains(x) {
                        let w = choose|w: int| 0 <= w < ns.len() && #[trigger] ns[w] == x;
                        if w < p {
                            assert(os[w] == x);
                        } else if w > p {
                            assert(os[w - 1] == x);
                        }
                    }
                    if os.contains(x) {
                        let w = choose|w: int| 0 <= w < os.len() && #[trigger] os[w] == x;
                        if w < p {
                            assert(ns[w] == x);
                        } else {
                            assert(ns[w + 1] == x);
                        }
                    }
                    if x == b@ {
                        assert(ns[p as int] == x);
                    }
                }
            }
        }
        i += 1;
    }
    assert(vs.take(v.len() as int) =~= vs);
    out
}

// ── Plain files ────────────────────────────────────────────

/// The boundaries and warnings of a plain hints file.
#[derive(Debug, Clone)]
pub struct PlainParse {
    pub boundaries: Vec<String>,
    pub warnings: Vec<String>,
}

pub open spec fn skipped_line(t: Seq<char>) -> bool {
    t.len() == 0 || starts_with(t, "#"@)
}

pub open spec fn leaked_toml_text(path: Seq<char>, line_no: nat, t: Seq<char>, reason: Seq<char>) -> Seq<
    char,
> {
    "Hints file '"@ + path + "' line "@ + dec(line_no + 1) + " looks like leaked TOML syntax: '"@
        + t + "' - "@ + reason
}

pub open spec fn control_text(line_no: nat) -> Seq<char> {
    "line "@ + dec(line_no + 1) + " contains control characters and should be regenerated"@
}

/// The scan of the first lines of a plain file: the trimmed keys (blank
/// lines and `#` comments skipped) and the control-character warnings, or
/// the first line that looks like leaked TOML.
pub open spec fn plain_scan(ls: Seq<Seq<char>>, path: Seq<char>) -> Result<
    (Seq<Seq<char>>, Seq<Seq<char>>),
    Seq<char>,
>
    decreases ls.len(),
{
    if ls.len() == 0 {
        Ok((Seq::empty(), Seq::empty()))
    } else {
        match plain_scan(ls.drop_last(), path) {
            Err(e) => Err(e),
            Ok((bs, ws)) => {
                let n = (ls.len() - 1) as nat;
                let t = trim(ls.last());
                if skipped_line(t) {
                    Ok((bs, ws))
                } else {
                    match boundary_line_error(t, n) {
                        Some(reason) => Err(leaked_toml_text(path, n, t, reason)),
                        None => Ok(
                            (
                                bs.push(t),
                                if has_control(t) {
                                    ws.push(control_text(n))
                                } else {
                                    ws
                                },
                            ),
                        ),
                    }
                }
            },
        }
    }
}

/// What collecting a plain file gives: the scan, with the list's warnings
/// after the per-line ones.
pub open spec fn plain_collect(content: Seq<char>, path: Seq<char>) -> Result<
    (Seq<Seq<char>>, Seq<Seq<char>>),
    Seq<char>,
> {
    match plain_scan(lines(content), path) {
        Err(e) => Err(e),
        Ok((bs, ws)) => Ok((bs, ws + warnings_for(bs))),
    }
}

pub fn collect_plain_boundaries(path: &str, content: &str) -> (r: Result<PlainParse, String>)
    ensures
        match plain_collect(content@, path@) {
            Err(e) => r is Err && r->Err_0@ == e,
            Ok((bs, ws)) => r is Ok && strings_view(r->Ok_0.boundaries@) == bs && strings_view(
                r->Ok_0.warnings@,
            ) == ws,
        },
{
    let c = str_chars(content);
    let ls = split_lines(c.as_slice());
    let ghost lv = lines(content@);
    let mut boundaries: Vec<String> = Vec::new();
    let mut warnings: Vec<String> = Vec::new();
    let mut i: usize = 0;
    proof {
        assert(lv.take(0).len() == 0);
        assert(strings_view(boundaries@) =~= Seq::<Seq<char>>::empty());
        assert(strings_view(warnings@) =~= Seq::<Seq<char>>::empty());
    }
    while i < ls.len()
        invariant
            i <= ls.len(),
            ls@.len() == lv.len(),
            lv == lines(content@),
            forall|j: int| 0 <= j < ls@.len() ==> #[trigger] ls@[j]@ == lv[j],
            plain_scan(lv.take(i as int), path@) == Ok::<
                (Seq<Seq<char>>, Seq<Seq<char>>),
                Seq<char>,
            >((strings_view(boundaries@), strings_view(warnings@))),
        decreases ls.len() - i,
    {
        proof {
            assert(lv.take(i + 1).drop_last() =~= lv.take(i as int));
            assert(lv.take(i + 1).last() == lv[i as int]);
        }
        let t = trim_chars(ls[i].as_slice());
        if t.len() == 0 || starts_with_str(t.as_slice(), "#") {
            i += 1;
        } else {
            let ts = string_from_chars(t.as_slice());
            match validate_boundary_line(ts.as_str(), i) {
                Err(reason) => {
                    let mut msg: Vec<char> = Vec::new();
                    append_str(&mut msg, "Hints file '");
                    append_str(&mut msg, path);
                    append_str(&mut msg, "' line ");
                    push_dec(&mut msg, (i + 1) as u64);
                    append_str(&mut msg, " looks like leaked TOML syntax: '");
                    append_chars(&mut msg, t.as_slice());
                    append_str(&mut msg, "' - ");
                    append_str(&mut msg, reason.as_str());
                    proof {
                        assert(msg@ =~= leaked_toml_text(path@, i as nat, t@, reason@));
                        lemma_plain_scan_err(lv, (i + 1) as int, path@);
                    }
                    return Err(string_from_chars(msg.as_slice()));
                },
                Ok(()) => {},
            }
            if has_control_exec(t.as_slice()) {
                let mut msg: Vec<char> = Vec::new();
                append_str(&mut msg, "line ");
                push_dec(&mut msg, (i + 1) as u64);
                append_str(&mut msg, " contains control characters and should be regenerated");
                assert(msg@ =~= control_text(i as nat));
                push_string(&mut warnings, string_from_chars(msg.as_slice()));
            }
            push_string(&mut boundaries, ts);
            i += 1;
        }
    }
    assert(lv.take(ls.len() as int) =~= lv);
    let extra = boundary_warnings(boundaries.as_slice());
    let ghost before = strings_view(warnings@);
    let mut k: usize = 0;
    while k < extra.len()
        invariant
            k <= extra.len(),
            strings_view(warnings@) == before + strings_view(extra@).take(k as int),
        decreases extra.len() - k,
    {
        push_string(&mut warnings, owned(extra[k].as_str()));
        k += 1;
        assert(strings_view(extra@).take(k as int) =~= strings_view(extra@).take(k - 1).push(
            extra@[k - 1]@,
        ));
    }
    assert(strings_view(extra@).take(extra.len() as int) =~= strings_view(extra@));
    Ok(PlainParse { boundaries, warnings })
}

proof fn lemma_plain_scan_err(ls: Seq<Seq<char>>, n: int, path: Seq<char>)
    requires
        0 < n <= ls.len(),
        plain_scan(ls.take(n), path) is Err,
    ensures
        plain_scan(ls, path) == plain_scan(ls.take(n), path),
    decreases ls.len(),
{
    if ls.len() > n {
        assert(ls.drop_last().take(n) =~= ls.take(n));
        lemma_plain_scan_err(ls.drop_last(), n, path);
    } else {
        assert(ls.take(n) =~= ls);
    }
}

/// The boundaries of a plain hints file: sorted and de-duplicated.
pub fn parse_as_plain(path: &str, content: &str) -> (r: Result<Vec<String>, String>)
    ensures
        match plain_collect(content@, path@) {
            Err(e) => r is Err && r->Err_0@ == e,
            Ok((bs, _)) => r is Ok && strictly_sorted(strings_view(r->Ok_0@)) && forall|
                x: Seq<char>,
            | strings_view(r->Ok_0@).contains(x) <==> bs.contains(x),
        },
{
    match collect_plain_boundaries(path, content) {
        Err(e) => Err(e),
        Ok(parsed) => Ok(sorted_unique(parsed.boundaries.as_slice())),
    }
}

// ── TOML caches ────────────────────────────────────────────

pub open spec fn toml_parse_error_text(path: Seq<char>, err: Seq<char>) -> Seq<char> {
    "Hints file '"@ + path + "' looks like a TOML hints cache but failed to parse: "@ + err
        + ". If this is a plain hints file, remove any lines containing '=', '[', or ']'."@
}

/// The message for a hints file that looks like TOML but does not parse.
pub fn toml_parse_error(path: &str, err: &str) -> (r: String)
    ensures
        r@ == toml_parse_error_text(path@, err@),
{
    let mut msg: Vec<char> = Vec::new();
    append_str(&mut msg, "Hints file '");
    append_str(&mut msg, path);
    append_str(&mut msg, "' looks like a TOML hints cache but failed to parse: ");
    append_str(&mut msg, err);
    append_str(
        &mut msg,
        ". If this is a plain hints file, remove any lines containing '=', '[', or ']'.",
    );
    assert(msg@ =~= toml_parse_error_text(path@, err@));
    string_from_chars(msg.as_slice())
}

/// The first boundary of a cache that fails the plain-line check (by its
/// index) or holds a control character, as an error; `None` where all pass.
pub open spec fn cache_error(bs: Seq<Seq<char>>, path: Seq<char>) -> Option<Seq<char>>
    decreases bs.len(),
{
    if bs.len() == 0 {
        None
    } else {
        match cache_error(bs.drop_last(), path) {
            Some(e) => Some(e),
            None => {
                let i = (bs.len() - 1) as nat;
                let b = bs.last();
                match boundary_line_error(b, i) {
                    Some(reason) => Some(
                        "Hints file '"@ + path + "' boundary "@ + dec(i) + " is malformed: "@
                            + reason,
                    ),
                    None => if has_control(b) {
                        Some(
                            "Hints file '"@ + path + "' boundary "@ + dec(i)
                                + " contains control characters"@,
                        )
                    } else {
                        None
                    },
                }
            },
        }
    }
}

proof fn lemma_cache_error_prefix(bs: Seq<Seq<char>>, n: int, path: Seq<char>)
    requires
        0 < n <= bs.len(),
        cache_error(bs.take(n), path) is Some,
    ensures
        cache_error(bs, path) == cache_error(bs.take(n), path),
    decreases bs.len(),
{
    if bs.len() > n {
        assert(bs.drop_last().take(n) =~= bs.take(n));
        lemma_cache_error_prefix(bs.drop_last(), n, path);
    } else {
        assert(bs.take(n) =~= bs);
    }
}

/// Checks the boundaries of a parsed TOML cache.
pub fn check_toml_cache(path: &str, cache: HintsCache) -> (r: Result<HintsCache, String>)
    ensures
        match cache_error(strings_view(cache.boundaries@), path@) {
            Some(e) => r is Err && r->Err_0@ == e,
            None => r is Ok && r->Ok_0 == cache,
        },
{
    let ghost bv = strings_view(cache.boundaries@);
    let mut i: usize = 0;
    while i < cache.boundaries.len()
        invariant
            i <= cache.boundaries.len(),
            bv == strings_view(cache.boundaries@),
            cache_error(bv.take(i as int), path@) is None,
        decreases cache.boundaries.len() - i,
    {
        proof {
            assert(bv.take(i + 1).drop_last() =~= bv.take(i as int));
            assert(bv.take(i + 1).last() == bv[i as int]);
        }
        let b = cache.boundaries[i].as_str();
        match validate_boundary_line(b, i) {
            Err(reason) => {
                let mut msg: Vec<char> = Vec::new();
                append_str(&mut msg, "Hints file '");
                append_str(&mut msg, path);
                append_str(&mut msg, "' boundary ");
                push_dec(&mut msg, i as u64);
                append_str(&mut msg, " is malformed: ");
                append_str(&mut msg, reason.as_str());
                proof {
                    lemma_cache_error_prefix(bv, (i + 1) as int, path@);
                    assert(msg@ =~= cache_error(bv.take(i + 1), path@)->Some_0);
                }
                return Err(string_from_chars(msg.as_slice()));
            },
            Ok(()) => {},
        }
        let bc = str_chars(b);
        if has_control_exec(bc.as_slice()) {
            let mut msg: Vec<char> = Vec::new();
            append_str(&mut msg, "Hints file '");
            append_str(&mut msg, path);
            append_str(&mut msg, "' boundary ");
            push_dec(&mut msg, i as u64);
            append_str(&mut msg, " contains control characters");
            proof {
                lemma_cache_error_prefix(bv, (i + 1) as int, path@);
                assert(msg@ =~= cache_error(bv.take(i + 1), path@)->Some_0);
            }
            return Err(string_from_chars(msg.as_slice()));
        }
        i += 1;
    }
    assert(bv.take(cache.boundaries.len() as int) =~= bv);
    Ok(cache)
}

fn clone_opt(o: &Option<String>) -> (r: Option<String>)
    ensures
        crate::config::opt_string_v(r) == crate::config::opt_string_v(*o),
{
    match o {
        Some(s) => Some(owned(s.as_str())),
        None => None,
    }
}

impl HintsMetadata {
    /// The metadata that a validation report shows for a cache.
    pub fn from(cache: &HintsCache) -> (r: Self)
        ensures
            crate::config::opt_string_v(r.bucket) == Some(cache.bucket@),
            crate::config::opt_string_v(r.region) == crate::config::opt_string_v(cache.region),
            r.total_objects == Some(cache.total_objects),
            crate::config::opt_string_v(r.generated_at) == Some(cache.generated_at@),
            crate::config::opt_string_v(r.scan_mode) == crate::config::opt_string_v(
                cache.scan_mode,
            ),
            r.sampled_objects == cache.sampled_objects,
            r.sampled_pages == cache.sampled_pages,
            r.sample_limit == cache.sample_limit,
            r.max_pages == cache.max_pages,
    {
        HintsMetadata {
            bucket: Some(owned(cache.bucket.as_str())),
            region: clone_opt(&cache.region),
            total_objects: Some(cache.total_objects),
            generated_at: Some(owned(cache.generated_at.as_str())),
            scan_mode: clone_opt(&cache.scan_mode),
            sampled_objects: cache.sampled_objects,
            sampled_pages: cache.sampled_pages,
            sample_limit: cache.sample_limit,
            max_pages: cache.max_pages,
        }
    }
}

// ── Validation reports ─────────────────────────────────────

pub open spec fn no_boundaries_text() -> Seq<char> {
    "hints file contains no boundaries"@
}

fn first_n(v: &[String], n: usize) -> (r: Vec<String>)
    ensures
        strings_view(r@) == strings_view(v@).take(if n < v.len() {
            n as int
        } else {
            v.len() as int
        }),
{
    let end = if n < v.len() {
        n
    } else {
        v.len()
    };
    let mut out: Vec<String> = Vec::new();
    let mut i: usize = 0;
    while i < end
        invariant
            i <= end <= v.len(),
            strings_view(out@) == strings_view(v@).take(i as int),
        decreases end - i,
    {
        push_string(&mut out, owned(v[i].as_str()));
        i += 1;
        assert(strings_view(v@).take(i as int) =~= strings_view(v@).take(i - 1).push(v@[i - 1]@));
    }
    out
}

/// The validation report of a plain hints file.
pub fn inspect_plain_hints(path: &str, content: &str, preview_limit: usize) -> (r: Result<
    HintsValidationReport,
    String,
>)
    ensures
        match plain_collect(content@, path@) {
            Err(e) => r is Err && r->Err_0@ == e,
            Ok((bs, ws)) => {
                &&& r is Ok
                &&& r->Ok_0.path@ == path@
                &&& r->Ok_0.format == HintsFormat::Plain
                &&& r->Ok_0.metadata is None
                &&& r->Ok_0.valid
                &&& exists|u: Seq<Seq<char>>|
                    {
                        &&& #[trigger] strictly_sorted(u)
                        &&& forall|x: Seq<char>| u.contains(x) <==> bs.contains(x)
                        &&& r->Ok_0.boundary_count == u.len()
                        &&& strings_view(r->Ok_0.first_boundaries@) == u.take(
                            if preview_limit < u.len() {
                                preview_limit as int
                            } else {
                                u.len() as int
                            },
                        )
                    }
                &&& strings_view(r->Ok_0.warnings@) == if r->Ok_0.boundary_count == 0 {
                    ws.push(no_boundaries_text())
                } else {
                    ws
                }
                &&& r->Ok_0.boundary_count == 0 <==> bs.len() == 0
            },
        },
{
    let parsed = match collect_plain_boundaries(path, content) {
        Err(e) => return Err(e),
        Ok(p) => p,
    };
    let boundaries = sorted_unique(parsed.boundaries.as_slice());
    let mut warnings = parsed.warnings;
    if boundaries.len() == 0 {
        push_string(&mut warnings, owned("hints file contains no boundaries"));
    }
    proof {
        let bs = strings_view(parsed.boundaries@);
        if bs.len() > 0 {
            assert(bs.contains(bs[0]));
            assert(strings_view(boundaries@).contains(bs[0]));
        }
        if boundaries@.len() > 0 {
            assert(strings_view(boundaries@).contains(strings_view(boundaries@)[0]));
        }
    }
    let first_boundaries = first_n(boundaries.as_slice(), preview_limit);
    proof {
        let u = strings_view(boundaries@);
        assert(strictly_sorted(u));
    }
    Ok(
        HintsValidationReport {
            path: owned(path),
            format: HintsFormat::Plain,
            boundary_count: boundaries.len(),
            metadata: None,
            first_boundaries,
            warnings,
            valid: true,
        },
    )
}

/// The validation report of a parsed TOML hints cache.
pub fn inspect_toml_hints(path: &str, cache: HintsCache, preview_limit: usize) -> (r: Result<
    HintsValidationReport,
    String,
>)
    ensures
        match cache_error(strings_view(cache.boundaries@), path@) {
            Some(e) => r is Err && r->Err_0@ == e,
            None => {
                let bs = strings_view(cache.boundaries@);
                let ws = warnings_for(bs);
                &&& r is Ok
                &&& r->Ok_0.path@ == path@
                &&& r->Ok_0.format == HintsFormat::Toml
                &&& r->Ok_0.boundary_count == bs.len()
                &&& r->Ok_0.metadata is Some
                &&& r->Ok_0.metadata->Some_0.sample_limit == cache.sample_limit
                &&& crate::config::opt_string_v(r->Ok_0.metadata->Some_0.scan_mode)
                    == crate::config::opt_string_v(cache.scan_mode)
                &&& strings_view(r->Ok_0.first_boundaries@) == bs.take(
                    if preview_limit < bs.len() {
                        preview_limit as int
                    } else {
                        bs.len() as int
                    },
                )
                &&& strings_view(r->Ok_0.warnings@) == if bs.len() == 0 {
                    ws.push(no_boundaries_text())
                } else {
                    ws
                }
                &&& r->Ok_0.valid
            },
        },
{
    let cache = match check_toml_cache(path, cache) {
        Err(e) => return Err(e),
        Ok(c) => c,
    };
    let mut warnings = boundary_warnings(cache.boundaries.as_slice());
    if cache.boundaries.len() == 0 {
        push_string(&mut warnings, owned("hints file contains no boundaries"));
    }
    let first_boundaries = first_n(cache.boundaries.as_slice(), preview_limit);
    let metadata = HintsMetadata::from(&cache);
    Ok(
        HintsValidationReport {
            path: owned(path),
            format: HintsFormat::Toml,
            boundary_count: cache.boundaries.len(),
            metadata: Some(metadata),
            first_boundaries,
            warnings,
            valid: true,
        },
    )
}

pub open spec fn bos_warning_text(n: nat) -> Seq<char> {
    "BOS profile with hinted multi-segment listing detected ("@ + dec(n)
        + " boundaries). BOS has a documented ListObjectsV2 start_after + continuation-token compatibility issue; hinted BOS scans are not authoritative until BOS fixes the service-side behavior. Use single-segment listing for authoritative BOS output."@
}

/// The warning owed to a hinted multi-segment listing under the BOS
/// profile, whose pagination is not authoritative there.
pub fn warn_bos_hinted_segments(profile: Option<&str>, boundaries: &[String]) -> (r: Option<String>)
    ensures
        match r {
            Some(m) => crate::config::opt_owned(profile) == Some("bos"@) && boundaries.len() > 0
                && m@ == bos_warning_text(boundaries.len() as nat),
            None => !(crate::config::opt_owned(profile) == Some("bos"@) && boundaries.len() > 0),
        },
{
    let is_bos = match profile {
        Some(p) => crate::text::str_eq(p, "bos"),
        None => false,
    };
    if is_bos && boundaries.len() > 0 {
        let mut msg: Vec<char> = Vec::new();
        append_str(&mut msg, "BOS profile with hinted multi-segment listing detected (");
        push_dec(&mut msg, boundaries.len() as u64);
        append_str(
            &mut msg,
            " boundaries). BOS has a documented ListObjectsV2 start_after + continuation-token compatibility issue; hinted BOS scans are not authoritative until BOS fixes the service-side behavior. Use single-segment listing for authoritative BOS output.",
        );
        assert(msg@ =~= bos_warning_text(boundaries.len() as nat));
        Some(string_from_chars(msg.as_slice()))
    } else {
        None
    }
}

/// Two strictly sorted lists with the same entries are the same list: the
/// sorted, de-duplicated form of a boundary list is unique.
pub proof fn law_sorted_unique_is_determined(a: Seq<Seq<char>>, b: Seq<Seq<char>>)
    requires
        strictly_sorted(a),
        strictly_sorted(b),
        forall|x: Seq<char>| a.contains(x) <==> b.contains(x),
    ensures
        a == b,
    decreases a.len() + b.len(),
{
    if a.len() == 0 {
        if b.len() > 0 {
            assert(b.contains(b[0]));
        }
        assert(a =~= b);
    } else if b.len() == 0 {
        assert(a.contains(a[0]));
    } else {
        // The first entries are each the least of the same set.
        assert(a.contains(a[0]));
        assert(b.contains(b[0]));
        let ia = choose|i: int| 0 <= i < a.len() && a[i] == b[0];
        let ib = choose|i: int| 0 <= i < b.len() && b[i] == a[0];
        if ia > 0 {
            assert(seq_lt(a[0], a[ia]));
            if ib > 0 {
                assert(seq_lt(b[0], b[ib]));
                crate::text::lemma_seq_lt_asym(a[0], b[0]);
            }
        }
        if ib > 0 && ia == 0 {
            assert(seq_lt(b[0], b[ib]));
            crate::text::lemma_seq_lt_irreflexive(a[0]);
        }
        assert(a[0] == b[0]);
        let ar = a.drop_first();
        let br = b.drop_first();
        assert forall|x: Seq<char>| ar.contains(x) <==> br.contains(x) by {
            if ar.contains(x) {
                let i = choose|i: int| 0 <= i < ar.len() && ar[i] == x;
                assert(a[i + 1] == x);
                assert(seq_lt(a[0], x));
                crate::text::lemma_seq_lt_irreflexive(x);
                assert(b.contains(x));
                let j = choose|j: int| 0 <= j < b.len() && b[j] == x;
                assert(j != 0);
                assert(br[j - 1] == x);
            }
            if br.contains(x) {
                let i = choose|i: int| 0 <= i < br.len() && br[i] == x;
                assert(b[i + 1] == x);
                assert(seq_lt(b[0], x));
                crate::text::lemma_seq_lt_irreflexive(x);
                assert(a.contains(x));
                let j = choose|j: int| 0 <= j < a.len() && a[j] == x;
                assert(j != 0);
                assert(ar[j - 1] == x);
            }
        }
        assert forall|i: int, j: int| 0 <= i < j < ar.len() implies seq_lt(
            #[trigger] ar[i],
            #[trigger] ar[j],
        ) by {
            assert(ar[i] == a[i + 1] && ar[j] == a[j + 1]);
        }
        assert forall|i: int, j: int| 0 <= i < j < br.len() implies seq_lt(
            #[trigger] br[i],
            #[trigger] br[j],
        ) by {
            assert(br[i] == b[i + 1] && br[j] == b[j + 1]);
        }
        law_sorted_unique_is_determined(ar, br);
        assert(a =~= seq![a[0]] + ar);
        assert(b =~= seq![b[0]] + br);
    }
}

} // verus!
