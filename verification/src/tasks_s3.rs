//! Decisions of the flat listing tasks: the per-segment split control that
//! a reactor and a segment task share, the ancestor ladder and flat cuts a
//! split probe tries, the page boundary of a segment, the retry step, and
//! the classification of SDK failures.
use crate::config::opt_string_v;
use crate::error::{
    code_errno, errno_is_retryable, effective_next_start, s3_error_code_to_errno,
    FlatRuntimeError, ERROR_NO_BUCKET, ERROR_S3_CLIENT_CONNECTION_TIMEOUT,
    ERROR_S3_CLIENT_GENERIC, ERROR_S3_MISSING_REGION, ERROR_UNKNOWN,
};
use crate::objects::OBJECT_PROPS_FLAG_DIFF_MODE;
use crate::text::{
    compare_chars, contains_sub, contains_sub_exec, last_index_of, lemma_last_index_of, owned,
    seq_lt, str_chars, str_eq, string_from_chars, strings_view,
};
use vstd::prelude::*;
use vstd::string::StringSliceAdditionalSpecFns;
use vstd::utf8::{decode_utf8, encode_utf8, is_char_boundary};

verus! {

/// Pages a segment must have processed before it is a split candidate.
pub const SPLIT_MIN_PAGES: u32 = 5;

/// Most ancestor-directory probes per split attempt.
pub const SPLIT_PROBE_MAX_RUNGS: usize = 4;

// ── Ranges ─────────────────────────────────────────────────

/// Whether `k` lies strictly after `cursor` and strictly before `end`
/// (no upper bound when `end` is absent).
pub open spec fn strictly_inside(k: Seq<char>, cursor: Seq<char>, end: Option<Seq<char>>) -> bool {
    seq_lt(cursor, k) && match end {
        Some(e) => seq_lt(k, e),
        None => true,
    }
}

pub fn is_strictly_inside(k: &str, cursor: &str, end: Option<&str>) -> (r: bool)
    ensures
        r == strictly_inside(k@, cursor@, crate::config::opt_owned(end)),
{
    let kc = str_chars(k);
    let cc = str_chars(cursor);
    if compare_chars(cc.as_slice(), kc.as_slice()) != -1 {
        return false;
    }
    match end {
        Some(e) => {
            let ec = str_chars(e);
            compare_chars(kc.as_slice(), ec.as_slice()) == -1
        },
        None => true,
    }
}

/// Right half of a split: the child segment's range.
#[derive(Debug, Clone)]
pub struct SplitRange {
    pub start: String,
    pub end: Option<String>,
}

// ── Segment control ────────────────────────────────────────

/// What a reactor and one running segment share: the last fully processed
/// key, the current (exclusive) end, a proposed cut awaiting the segment's
/// decision, the number of pages, and the split flags. The application
/// keeps it behind a lock.
#[derive(Debug, Clone)]
pub struct SegmentControl {
    pub cursor: String,
    pub end_before: Option<String>,
    pub pending_split: Option<String>,
    pub pages: u32,
    /// A probe or a pending decision is in flight.
    pub splitting: bool,
    /// No structural boundary exists in the remaining range.
    pub unsplittable: bool,
    /// The segment gave part of its range away.
    pub was_split: bool,
}

fn clone_opt(o: &Option<String>) -> (r: Option<String>)
    ensures
        opt_string_v(r) == opt_string_v(*o),
{
    match o {
        Some(s) => Some(owned(s.as_str())),
        None => None,
    }
}

impl SegmentControl {
    pub fn new(end: Option<String>) -> (r: Self)
        ensures
            r.cursor@ == Seq::<char>::empty(),
            r.end_before == end,
            r.pending_split is None,
            r.pages == 0,
            !r.splitting,
            !r.unsplittable,
            !r.was_split,
    {
        SegmentControl {
            cursor: String::new(),
            end_before: end,
            pending_split: None,
            pages: 0,
            splitting: false,
            unsplittable: false,
            was_split: false,
        }
    }

    pub fn current_end(&self) -> (r: Option<String>)
        ensures
            opt_string_v(r) == opt_string_v(self.end_before),
    {
        clone_opt(&self.end_before)
    }

    /// Records a processed page ending at `cursor`; the page counter wraps
    /// as an atomic `u32` does.
    pub fn record_page(&mut self, cursor: &str)
        ensures
            final(self).cursor@ == cursor@,
            final(self).pages == old(self).pages.wrapping_add(1),
            final(self).end_before == old(self).end_before,
            final(self).pending_split == old(self).pending_split,
            final(self).splitting == old(self).splitting,
            final(self).unsplittable == old(self).unsplittable,
            final(self).was_split == old(self).was_split,
    {
        self.cursor = owned(cursor);
        self.pages = self.pages.wrapping_add(1);
    }

    pub fn snapshot(&self) -> (r: (String, Option<String>))
        ensures
            r.0@ == self.cursor@,
            opt_string_v(r.1) == opt_string_v(self.end_before),
    {
        (owned(self.cursor.as_str()), self.current_end())
    }

    pub fn was_split(&self) -> (r: bool)
        ensures
            r == self.was_split,
    {
        self.was_split
    }

    /// Long enough running, and neither being probed nor known to have no
    /// structural boundary.
    pub fn is_split_candidate(&self) -> (r: bool)
        ensures
            r == (self.pages >= SPLIT_MIN_PAGES && !self.splitting && !self.unsplittable),
    {
        self.pages >= SPLIT_MIN_PAGES && !self.splitting && !self.unsplittable
    }

    /// At a page boundary: accepts the pending cut only where it lies
    /// strictly after the cursor and before the current end. An accepted cut
    /// becomes this segment's end and the returned child runs from the cut
    /// to the old end; either way the proposal is consumed and the probe
    /// flag cleared.
    pub fn try_accept_split(&mut self) -> (r: Option<SplitRange>)
        ensures
            final(self).cursor == old(self).cursor,
            final(self).pages == old(self).pages,
            final(self).unsplittable == old(self).unsplittable,
            final(self).pending_split is None,
            match old(self).pending_split {
                None => r is None && final(self).end_before == old(self).end_before
                    && final(self).splitting == old(self).splitting && final(self).was_split
                    == old(self).was_split,
                Some(p) => if strictly_inside(
                    p@,
                    old(self).cursor@,
                    opt_string_v(old(self).end_before),
                ) {
                    &&& r is Some
                    &&& r->Some_0.start@ == p@
                    &&& r->Some_0.end == old(self).end_before
                    &&& final(self).end_before == Some(p)
                    &&& final(self).was_split
                    &&& !final(self).splitting
                } else {
                    &&& r is None
                    &&& final(self).end_before == old(self).end_before
                    &&& final(self).was_split == old(self).was_split
                    &&& !final(self).splitting
                },
            },
    {
        let proposed = match self.pending_split.take() {
            Some(p) => p,
            None => return None,
        };
        let end = match &self.end_before {
            Some(e) => Some(e.as_str()),
            None => None,
        };
        let in_range = is_strictly_inside(proposed.as_str(), self.cursor.as_str(), end);
        if !in_range {
            self.splitting = false;
            return None;
        }
        let child_start = owned(proposed.as_str());
        let old_end = self.end_before.take();
        self.end_before = Some(proposed);
        self.was_split = true;
        self.splitting = false;
        Some(SplitRange { start: child_start, end: old_end })
    }
}

// ── Ancestor ladder ────────────────────────────────────────

/// Byte length of a character sequence in UTF-8.
pub open spec fn utf8_len(s: Seq<char>) -> nat {
    encode_utf8(s).len()
}

/// The directories above position `idx` of `cursor`, deepest first: each
/// prefix that ends at a `/`, while it is longer (in bytes) than the
/// listing prefix.
pub open spec fn ladder(c: Seq<char>, idx: int, lp: Seq<char>) -> Seq<Seq<char>>
    decreases idx,
{
    if idx <= 0 || idx > c.len() {
        Seq::empty()
    } else {
        let pos = last_index_of(c.take(idx), '/');
        if pos < 0 || pos >= idx {
            Seq::empty()
        } else {
            let dir = c.take(pos + 1);
            if utf8_len(dir) <= utf8_len(lp) {
                Seq::empty()
            } else {
                seq![dir] + ladder(c, pos, lp)
            }
        }
    }
}

/// The ancestor directories of `cursor`, deepest first, ending at the
/// listing prefix: `big/a/0005` gives `big/a/`, `big/`, then the prefix.
pub open spec fn ancestors(c: Seq<char>, lp: Seq<char>) -> Seq<Seq<char>> {
    let d = ladder(c, c.len() as int, lp);
    if d.len() > 0 && d.last() == lp {
        d
    } else {
        d.push(lp)
    }
}

fn utf8_byte_len(s: &String) -> (r: usize)
    ensures
        r as int == utf8_len(s@),
{
    s.as_str().as_bytes().len()
}

pub fn ancestor_dirs(cursor: &str, listing_prefix: &str) -> (r: Vec<String>)
    ensures
        strings_view(r@) == ancestors(cursor@, listing_prefix@),
{
    let c = str_chars(cursor);
    let lp_len = listing_prefix.as_bytes().len();
    let mut dirs: Vec<String> = Vec::new();
    let mut idx: usize = c.len();
    let ghost lp = listing_prefix@;
    let mut done = false;
    while !done && idx > 0
        invariant
            c@ == cursor@,
            lp == listing_prefix@,
            lp_len == utf8_len(lp),
            idx <= c.len(),
            done ==> ladder(c@, idx as int, lp) == Seq::<Seq<char>>::empty(),
            strings_view(dirs@) + ladder(c@, idx as int, lp) == ladder(c@, c@.len() as int, lp),
        decreases idx, if done {
            0int
        } else {
            1int
        },
    {
        proof {
            lemma_last_index_of(c@.take(idx as int), '/');
        }
        let head = crate::text::slice_chars(c.as_slice(), 0, idx);
        let found = crate::text::last_index_of_exec(head.as_slice(), '/');
        proof {
            assert(head@ =~= c@.take(idx as int));
        }
        match found {
            None => {
                done = true;
            },
            Some(pos) => {
                let dir = string_from_chars(crate::text::slice_chars(c.as_slice(), 0, pos + 1).as_slice());
                proof {
                    assert(dir@ =~= c@.take(pos + 1));
                }
                if utf8_byte_len(&dir) <= lp_len {
                    done = true;
                } else {
                    let ghost before = dirs@;
                    dirs.push(dir);
                    proof {
                        assert(strings_view(dirs@) =~= strings_view(before).push(c@.take(pos + 1)));
                        assert(seq![c@.take(pos + 1)] + ladder(c@, pos as int, lp) =~= seq![c@.take(pos + 1)].add(ladder(c@, pos as int, lp)));
                        assert(strings_view(dirs@) + ladder(c@, pos as int, lp) =~= strings_view(before) + (seq![c@.take(pos + 1)] + ladder(c@, pos as int, lp)));
                    }
                    idx = pos;
                }
            },
        }
    }
    proof {
        assert(ladder(c@, idx as int, lp) == Seq::<Seq<char>>::empty());
        assert(strings_view(dirs@) =~= strings_view(dirs@) + Seq::<Seq<char>>::empty());
    }
    let n = dirs.len();
    let ends_with_prefix = n > 0 && str_eq(dirs[n - 1].as_str(), listing_prefix);
    if !ends_with_prefix {
        let ghost before = dirs@;
        dirs.push(owned(listing_prefix));
        proof {
            assert(strings_view(dirs@) =~= strings_view(before).push(listing_prefix@));
        }
    }
    dirs
}

// ── Flat cuts ──────────────────────────────────────────────

/// The cut made at byte `pos` of the cursor: the bytes before it, then the
/// byte at `pos` plus one, where `pos` is a character boundary and holds a
/// printable ASCII byte below `~`.
pub open spec fn cut_at(c: Seq<char>, pos: int) -> Option<Seq<char>> {
    let cb = encode_utf8(c);
    if 0 <= pos < cb.len() && is_char_boundary(cb, pos) && 0x20 <= cb[pos] < 0x7e {
        Some(decode_utf8(cb.subrange(0, pos)).push(((cb[pos] + 1) as u8) as char))
    } else {
        None
    }
}

/// The byte position at fraction `num / den` of the cursor's tail after the
/// listing prefix (at most the tail's last byte).
pub open spec fn cut_pos(clen: int, lplen: int, num: int, den: int) -> int {
    let ts = if lplen < clen {
        lplen
    } else {
        clen
    };
    let tl = clen - ts;
    let off = tl * num / den;
    ts + if off < tl - 1 {
        off
    } else {
        tl - 1
    }
}

pub open spec fn add_cut(
    acc: Seq<Seq<char>>,
    cand: Option<Seq<char>>,
    c: Seq<char>,
    end: Option<Seq<char>>,
) -> Seq<Seq<char>> {
    match cand {
        Some(k) => if strictly_inside(k, c, end) && !acc.contains(k) {
            acc.push(k)
        } else {
            acc
        },
        None => acc,
    }
}

/// Candidate cuts for a flat range: bumps at 1/2, 3/4, 7/8 and 1/4 of the
/// tail, each kept where it lies inside `(cursor, end)` and is new.
pub open spec fn flat_cuts(c: Seq<char>, lplen: int, end: Option<Seq<char>>) -> Seq<Seq<char>> {
    let clen = utf8_len(c) as int;
    let ts = if lplen < clen {
        lplen
    } else {
        clen
    };
    if clen - ts == 0 {
        Seq::empty()
    } else {
        let a1 = add_cut(Seq::empty(), cut_at(c, cut_pos(clen, lplen, 1, 2)), c, end);
        let a2 = add_cut(a1, cut_at(c, cut_pos(clen, lplen, 3, 4)), c, end);
        let a3 = add_cut(a2, cut_at(c, cut_pos(clen, lplen, 7, 8)), c, end);
        add_cut(a3, cut_at(c, cut_pos(clen, lplen, 1, 4)), c, end)
    }
}

fn contains_string(v: &Vec<String>, k: &String) -> (r: bool)
    ensures
        r == strings_view(v@).contains(k@),
{
    let mut i: usize = 0;
    while i < v.len()
        invariant
            i <= v.len(),
            forall|j: int| 0 <= j < i ==> v@[j]@ != k@,
        decreases v.len() - i,
    {
        if str_eq(v[i].as_str(), k.as_str()) {
            assert(strings_view(v@)[i as int] == k@);
            return true;
        }
        i += 1;
    }
    proof {
        if strings_view(v@).contains(k@) {
            let j = choose|j: int| 0 <= j < strings_view(v@).len() && strings_view(v@)[j] == k@;
            assert(v@[j]@ == k@);
        }
    }
    false
}

fn cut_position(clen: usize, lplen: usize, num: u128, den: u128) -> (r: usize)
    requires
        lplen < clen,
        0 < den <= 8,
        num < den,
    ensures
        r as int == cut_pos(clen as int, lplen as int, num as int, den as int),
        r < clen,
{
    let tail_start = lplen;
    let tail_len = clen - tail_start;
    assert((tail_len as int) * (num as int) <= (tail_len as int) * 8) by (nonlinear_arith)
        requires
            num < 8,
    ;
    let off = (tail_len as u128) * num / den;
    assert(off <= tail_len) by (nonlinear_arith)
        requires
            off == (tail_len as int) * (num as int) / (den as int),
            num < den,
            0 < den,
    ;
    let off = off as usize;
    tail_start + if off < tail_len - 1 {
        off
    } else {
        tail_len - 1
    }
}

fn try_cut(cursor: &str, pos: usize, end: Option<&str>, out: &mut Vec<String>)
    requires
        pos < cursor.spec_bytes().len(),
    ensures
        strings_view(final(out)@) == add_cut(
            strings_view(old(out)@),
            cut_at(cursor@, pos as int),
            cursor@,
            crate::config::opt_owned(end),
        ),
{
    let bytes = cursor.as_bytes();
    proof {
        vstd::utf8::encode_utf8_valid_utf8(cursor@);
    }
    if !cursor.is_char_boundary(pos) {
        return;
    }
    let byte = bytes[pos];
    if !(0x20 <= byte && byte < 0x7e) {
        return;
    }
    let (head, _) = cursor.split_at(pos);
    let mut cand = head.to_owned();
    proof {
        vstd::utf8::encode_utf8_decode_utf8(head@);
        assert(head@ == decode_utf8(bytes@.subrange(0, pos as int)));
    }
    crate::text::string_push(&mut cand, (byte + 1) as char);
    if is_strictly_inside(cand.as_str(), cursor, end) && !contains_string(out, &cand) {
        let ghost before = out@;
        out.push(cand);
        proof {
            assert(strings_view(out@) =~= strings_view(before).push(cand@));
        }
    }
}

/// Candidate cuts for a flat range, mid-depth first (most balanced), then
/// deeper (closer to the cursor), then a quarter in.
pub fn flat_cut_candidates(cursor: &str, listing_prefix: &str, end: Option<&str>) -> (r: Vec<
    String,
>)
    ensures
        strings_view(r@) == flat_cuts(
            cursor@,
            listing_prefix.spec_bytes().len() as int,
            crate::config::opt_owned(end),
        ),
{
    let clen = cursor.as_bytes().len();
    let lplen = listing_prefix.as_bytes().len();
    let tail_start = if lplen < clen {
        lplen
    } else {
        clen
    };
    let tail_len = clen - tail_start;
    let mut candidates: Vec<String> = Vec::new();
    proof {
        assert(strings_view(candidates@) =~= Seq::<Seq<char>>::empty());
    }
    if tail_len == 0 {
        return candidates;
    }
    try_cut(cursor, cut_position(clen, lplen, 1, 2), end, &mut candidates);
    try_cut(cursor, cut_position(clen, lplen, 3, 4), end, &mut candidates);
    try_cut(cursor, cut_position(clen, lplen, 7, 8), end, &mut candidates);
    try_cut(cursor, cut_position(clen, lplen, 1, 4), end, &mut candidates);
    candidates
}

// ── The cut a delimiter probe proposes ─────────────────────

/// Key order, non-strict.
pub open spec fn key_le(a: Seq<char>, b: Seq<char>) -> bool {
    !seq_lt(b, a)
}

pub open spec fn key_leq() -> spec_fn(Seq<char>, Seq<char>) -> bool {
    |a: Seq<char>, b: Seq<char>| key_le(a, b)
}

/// The common prefixes that lie strictly inside `(cursor, end)`.
pub open spec fn inside_cuts(ps: Seq<Seq<char>>, cursor: Seq<char>, end: Option<Seq<char>>) -> Seq<
    Seq<char>,
> {
    ps.filter(cut_inside(cursor, end))
}

pub open spec fn cut_inside(cursor: Seq<char>, end: Option<Seq<char>>) -> spec_fn(Seq<char>) -> bool {
    |c: Seq<char>| strictly_inside(c, cursor, end)
}

/// The cut a probe proposes: the middle one, in key order, of the common
/// prefixes inside the remaining range (the upper one of two middles); none
/// when no prefix lies inside.
pub open spec fn middle_cut(ps: Seq<Seq<char>>, cursor: Seq<char>, end: Option<Seq<char>>) -> Option<
    Seq<char>,
> {
    let f = inside_cuts(ps, cursor, end);
    if f.len() == 0 {
        None
    } else {
        Some(f.sort_by(key_leq())[(f.len() / 2) as int])
    }
}

proof fn lemma_key_le_total()
    ensures
        vstd::relations::total_ordering(key_leq()),
{
    let r = key_leq();
    assert forall|x: Seq<char>| #[trigger] r(x, x) by {
        crate::text::lemma_seq_lt_irreflexive(x);
    }
    assert forall|x: Seq<char>, y: Seq<char>| #[trigger] r(x, y) && #[trigger] r(y, x) implies x == y by {
        crate::text::lemma_seq_lt_total(x, y);
    }
    assert forall|x: Seq<char>, y: Seq<char>, z: Seq<char>| #[trigger] r(x, y) && #[trigger] r(
        y,
        z,
    ) implies r(x, z) by {
        crate::text::lemma_seq_lt_total(x, y);
        crate::text::lemma_seq_lt_total(y, z);
        if seq_lt(z, x) {
            if seq_lt(x, y) && seq_lt(y, z) {
                crate::text::lemma_seq_lt_trans(x, y, z);
                crate::text::lemma_seq_lt_asym(x, z);
            } else if seq_lt(x, y) {
                crate::text::lemma_seq_lt_asym(x, z);
            } else if seq_lt(y, z) {
                crate::text::lemma_seq_lt_asym(x, z);
            } else {
                crate::text::lemma_seq_lt_irreflexive(x);
            }
        }
    }
    assert forall|x: Seq<char>, y: Seq<char>| #[trigger] r(x, y) || #[trigger] r(y, x) by {
        crate::text::lemma_seq_lt_asym(x, y);
    }
}

/// The cut that a delimiter probe's common prefixes propose for a segment
/// whose last processed key is `cursor` and whose range ends before `end`.
pub fn middle_split_cut(prefixes: &[String], cursor: &str, end: Option<&str>) -> (r: Option<String>)
    ensures
        opt_string_v(r) == middle_cut(
            strings_view(prefixes@),
            cursor@,
            crate::config::opt_owned(end),
        ),
{
    let ghost ps = strings_view(prefixes@);
    let ghost e = crate::config::opt_owned(end);
    let ghost pred = cut_inside(cursor@, e);
    let mut inside: Vec<String> = Vec::new();
    let mut i: usize = 0;
    while i < prefixes.len()
        invariant
            i <= prefixes.len(),
            ps == strings_view(prefixes@),
            e == crate::config::opt_owned(end),
            pred == cut_inside(cursor@, e),
            strings_view(inside@) == ps.take(i as int).filter(pred),
        decreases prefixes.len() - i,
    {
        let ghost before = inside@;
        assert(ps.take(i + 1).drop_last() =~= ps.take(i as int));
        assert(ps.take(i + 1).last() == ps[i as int]);
        let keep = is_strictly_inside(prefixes[i].as_str(), cursor, end);
        assert(keep == pred(ps[i as int]));
        assert(ps.take(i + 1).filter(pred) == (if pred(ps[i as int]) {
            ps.take(i as int).filter(pred).push(ps[i as int])
        } else {
            ps.take(i as int).filter(pred)
        })) by {
            reveal(Seq::filter);
        }
        if keep {
            inside.push(owned(prefixes[i].as_str()));
            assert(strings_view(inside@) =~= strings_view(before).push(ps[i as int]));
        }
        i += 1;
    }
    assert(ps.take(prefixes.len() as int) =~= ps);
    let ghost fv = strings_view(inside@);
    assert(fv == inside_cuts(ps, cursor@, e));
    let ghost leq = key_leq();
    proof {
        lemma_key_le_total();
    }
    let mut sorted: Vec<String> = Vec::new();
    assert(strings_view(sorted@) =~= fv.take(0));
    let mut k: usize = 0;
    while k < inside.len()
        invariant
            k <= inside.len(),
            fv == strings_view(inside@),
            leq == key_leq(),
            vstd::relations::total_ordering(leq),
            vstd::relations::sorted_by(strings_view(sorted@), leq),
            strings_view(sorted@).to_multiset() == fv.take(k as int).to_multiset(),
            sorted@.len() == k,
        decreases inside.len() - k,
    {
        let ghost sv = strings_view(sorted@);
        let xc = str_chars(inside[k].as_str());
        let mut j: usize = 0;
        while j < sorted.len() && compare_chars(
            xc.as_slice(),
            str_chars(sorted[j].as_str()).as_slice(),
        ) != -1
            invariant
                j <= sorted.len(),
                sv == strings_view(sorted@),
                xc@ == fv[k as int],
                forall|t: int| 0 <= t < j ==> !seq_lt(fv[k as int], #[trigger] sv[t]),
            decreases sorted.len() - j,
        {
            j += 1;
        }
        let ghost x = fv[k as int];
        proof {
            if j < sorted.len() {
                assert(seq_lt(x, sv[j as int]));
                assert forall|t: int| j <= t < sv.len() implies seq_lt(x, #[trigger] sv[t]) by {
                    if t > j {
                        assert(leq(sv[j as int], sv[t]));
                        crate::text::lemma_seq_lt_total(sv[j as int], sv[t]);
                        if seq_lt(sv[j as int], sv[t]) {
                            crate::text::lemma_seq_lt_trans(x, sv[j as int], sv[t]);
                        }
                    }
                }
            }
        }
        sorted.insert(j, owned(inside[k].as_str()));
        proof {
            let nv = strings_view(sorted@);
            assert(nv =~= sv.insert(j as int, x));
            assert forall|a: int, b: int| 0 <= a < b < nv.len() implies #[trigger] leq(
                nv[a],
                nv[b],
            ) by {
                if a < j && b < j {
                    assert(leq(sv[a], sv[b]));
                } else if a < j && b == j {
                    assert(!seq_lt(x, sv[a]));
                } else if a < j {
                    assert(leq(sv[a], sv[b - 1]));
                } else if a == j {
                    assert(seq_lt(x, sv[b - 1]));
                    crate::text::lemma_seq_lt_asym(x, sv[b - 1]);
                } else {
                    assert(leq(sv[a - 1], sv[b - 1]));
                }
            }
            vstd::seq_lib::to_multiset_insert(sv, j as int, x);
            assert(fv.take(k + 1) =~= fv.take(k as int).push(x));
            vstd::seq_lib::to_multiset_build(fv.take(k as int), x);
        }
        k += 1;
    }
    assert(fv.take(inside.len() as int) =~= fv);
    if sorted.len() == 0 {
        assert(fv.len() == 0) by {
            vstd::seq_lib::to_multiset_len(fv);
            vstd::seq_lib::to_multiset_len(strings_view(sorted@));
        }
        return None;
    }
    proof {
        let sv = strings_view(sorted@);
        fv.lemma_sort_by_ensures(leq);
        vstd::seq_lib::lemma_sorted_unique(sv, fv.sort_by(leq), leq);
        vstd::seq_lib::to_multiset_len(fv);
        vstd::seq_lib::to_multiset_len(sv);
    }
    let mid = sorted.len() / 2;
    Some(owned(sorted[mid].as_str()))
}

// ── Segment listing steps ──────────────────────────────────

/// Runtime splitting applies to plain list runs only: not in diff mode,
/// and not with `--start-after` or `--continuation-token`.
pub fn allow_split(dir: u8, has_start_after: bool, has_continuation_token: bool) -> (r: bool)
    ensures
        r == (dir & OBJECT_PROPS_FLAG_DIFF_MODE == 0 && !has_start_after
            && !has_continuation_token),
{
    dir & OBJECT_PROPS_FLAG_DIFF_MODE == 0 && !has_start_after && !has_continuation_token
}

/// The first request's `start_after` for a segment: none with a
/// continuation token, else `--start-after` where given, else the
/// segment's start.
pub fn initial_start_after(
    continuation_token: Option<&str>,
    cli_start_after: Option<&str>,
    segment_start: &str,
) -> (r: String)
    ensures
        r@ == if continuation_token is Some {
            Seq::<char>::empty()
        } else {
            match cli_start_after {
                Some(s) => s@,
                None => segment_start@,
            }
        },
{
    if continuation_token.is_some() {
        String::new()
    } else {
        match cli_start_after {
            Some(s) => owned(s),
            None => owned(segment_start),
        }
    }
}

/// The number of leading keys of a page that belong to the segment, whose
/// range ends at `until` inclusive: a key equal to the boundary is kept,
/// the first key after it ends the segment.
pub open spec fn page_cut(keys: Seq<Seq<char>>, until: Option<Seq<char>>) -> int
    decreases keys.len(),
{
    if keys.len() == 0 {
        0
    } else {
        let prev = page_cut(keys.drop_last(), until);
        if prev < keys.len() - 1 {
            prev
        } else {
            match until {
                Some(e) => if seq_lt(e, keys.last()) {
                    keys.len() - 1
                } else {
                    keys.len() as int
                },
                None => keys.len() as int,
            }
        }
    }
}

/// How many keys of a page to keep, and whether the segment boundary was
/// reached in it.
pub fn page_boundary(keys: &[String], until: Option<&str>) -> (r: (usize, bool))
    ensures
        r.0 as int == page_cut(strings_view(keys@), crate::config::opt_owned(until)),
        r.1 == (r.0 < keys.len()),
        r.0 <= keys.len(),
{
    let ghost ks = strings_view(keys@);
    let ghost u = crate::config::opt_owned(until);
    let ec = match until {
        Some(e) => Some(str_chars(e)),
        None => None,
    };
    let mut i: usize = 0;
    while i < keys.len()
        invariant
            i <= keys.len(),
            ks == strings_view(keys@),
            u == crate::config::opt_owned(until),
            match ec {
                Some(v) => u == Some(v@),
                None => u is None,
            },
            page_cut(ks.take(i as int), u) == i as int,
        decreases keys.len() - i,
    {
        assert(ks.take(i + 1).drop_last() =~= ks.take(i as int));
        let past = match &ec {
            Some(v) => {
                let kc = str_chars(keys[i].as_str());
                compare_chars(v.as_slice(), kc.as_slice()) == -1
            },
            None => false,
        };
        if past {
            proof {
                lemma_page_cut_prefix(ks, (i + 1) as int, u);
            }
            return (i, true);
        }
        i += 1;
    }
    assert(ks.take(keys.len() as int) =~= ks);
    (keys.len(), false)
}

proof fn lemma_page_cut_prefix(ks: Seq<Seq<char>>, n: int, u: Option<Seq<char>>)
    requires
        1 <= n <= ks.len(),
        page_cut(ks.take(n), u) == n - 1,
    ensures
        page_cut(ks, u) == n - 1,
    decreases ks.len(),
{
    if ks.len() > n {
        assert(ks.drop_last().take(n) =~= ks.take(n));
        lemma_page_cut_prefix(ks.drop_last(), n, u);
    } else {
        assert(ks.take(n) =~= ks);
    }
}

/// After a failed listing attempt: the `start_after` and attempt number of
/// the retry, where the error is retryable and attempts remain; `None`
/// where the segment fails.
pub fn next_retry(err: &FlatRuntimeError, retry_attempt: u32, max_attempts: u32) -> (r: Option<
    (String, u32),
>)
    ensures
        match r {
            Some((start, attempt)) => errno_is_retryable(err.errno) && attempt
                == retry_attempt.saturating_add(1) && attempt < max_attempts && start@
                == effective_next_start(err.next_start@),
            None => !(errno_is_retryable(err.errno) && retry_attempt.saturating_add(1)
                < max_attempts),
        },
{
    let next = retry_attempt.saturating_add(1);
    if err.continue_on_error() && next < max_attempts {
        Some((err.next_start_owned(), next))
    } else {
        None
    }
}

// ── SDK failures ───────────────────────────────────────────

/// What a failed `ListObjectsV2` call reported, as plain values.
#[derive(Debug, Clone)]
pub enum SdkFailure {
    /// The service answered with an error.
    Service {
        http_status: u16,
        code: Option<String>,
        message: Option<String>,
        request_id: Option<String>,
        body_excerpt: Option<String>,
    },
    /// The request was not dispatched; `connector_text` is the connector
    /// error's text where there is one.
    Dispatch { is_timeout: bool, connector_text: Option<String>, debug_text: String },
    /// Any other SDK error.
    Other { debug_text: String },
}

/// Which failure counter to bump.
#[derive(Debug, Clone, Copy, PartialEq, Eq, Structural)]
pub enum FailureCounter {
    NoCounter,
    ClientTimeout,
    ClientGeneric,
}

/// The classification of an SDK failure: the segment error, the counter,
/// and the fields of the trace event to emit.
#[derive(Debug, Clone)]
pub struct SdkFailureOutcome {
    pub error: FlatRuntimeError,
    pub counter: FailureCounter,
    pub trace_http_status: u16,
    pub trace_error_code: Option<String>,
    pub trace_error_message: Option<String>,
    pub trace_request_id: Option<String>,
    pub trace_raw_body: Option<String>,
    pub retryable: bool,
    pub fatal: bool,
}

pub open spec fn region_missing(t: Option<String>) -> bool {
    match t {
        Some(s) => contains_sub(s@, "region must be set"@),
        None => false,
    }
}

/// The errno of a dispatch failure.
pub open spec fn dispatch_errno(is_timeout: bool, connector_text: Option<String>) -> u8 {
    if is_timeout {
        ERROR_S3_CLIENT_CONNECTION_TIMEOUT
    } else if region_missing(connector_text) {
        ERROR_S3_MISSING_REGION
    } else {
        ERROR_S3_CLIENT_GENERIC
    }
}

pub open spec fn service_errno(code: Option<String>) -> u8 {
    match code {
        Some(c) => code_errno(c@),
        None => ERROR_UNKNOWN,
    }
}

/// Classifies a failed listing call made from `next_start`.
pub fn classify_sdk_failure(failure: SdkFailure, next_start: &str) -> (r: SdkFailureOutcome)
    ensures
        r.error.next_start@ == next_start@,
        match failure {
            SdkFailure::Service { http_status, code, message, request_id, body_excerpt } => {
                &&& r.error.errno == service_errno(code)
                &&& r.error.errmsg@ == match message {
                    Some(m) => m@,
                    None => "Unknown S3 error"@,
                }
                &&& r.error.http_status_code == http_status
                &&& opt_string_v(r.error.s3_error_code) == opt_string_v(code)
                &&& opt_string_v(r.error.request_id) == opt_string_v(request_id)
                &&& opt_string_v(r.error.raw_body_excerpt) == opt_string_v(body_excerpt)
                &&& r.counter == FailureCounter::NoCounter
                &&& r.trace_http_status == http_status
                &&& opt_string_v(r.trace_error_code) == opt_string_v(code)
                &&& opt_string_v(r.trace_error_message) == opt_string_v(message)
                &&& opt_string_v(r.trace_request_id) == opt_string_v(request_id)
                &&& opt_string_v(r.trace_raw_body) == opt_string_v(body_excerpt)
                &&& r.retryable == (service_errno(code) < ERROR_NO_BUCKET)
                &&& r.fatal == (service_errno(code) >= ERROR_NO_BUCKET)
            },
            SdkFailure::Dispatch { is_timeout, connector_text, debug_text } => {
                &&& r.error.errno == dispatch_errno(is_timeout, connector_text)
                &&& r.error.errmsg@ == debug_text@
                &&& r.error.http_status_code == 0
                &&& r.error.s3_error_code is None
                &&& r.counter == if is_timeout {
                    FailureCounter::ClientTimeout
                } else if region_missing(connector_text) {
                    FailureCounter::NoCounter
                } else {
                    FailureCounter::ClientGeneric
                }
                &&& r.trace_http_status == 0
                &&& opt_string_v(r.trace_error_code) == Some(
                    if is_timeout {
                        "ConnectionTimeout"@
                    } else {
                        "DispatchFailure"@
                    },
                )
                &&& opt_string_v(r.trace_error_message) == Some(debug_text@)
                &&& r.trace_request_id is None
                &&& r.trace_raw_body is None
                &&& r.retryable
                &&& !r.fatal
            },
            SdkFailure::Other { debug_text } => {
                &&& r.error.errno == ERROR_S3_CLIENT_GENERIC
                &&& r.error.errmsg@ == debug_text@
                &&& r.error.http_status_code == 0
                &&& r.error.s3_error_code is None
                &&& r.counter == FailureCounter::ClientGeneric
                &&& r.trace_http_status == 0
                &&& opt_string_v(r.trace_error_code) == Some("Unknown"@)
                &&& opt_string_v(r.trace_error_message) == Some(debug_text@)
                &&& r.trace_request_id is None
                &&& r.trace_raw_body is None
                &&& !r.retryable
                &&& !r.fatal
            },
        },
{
    match failure {
        SdkFailure::Service { http_status, code, message, request_id, body_excerpt } => {
            let errno = s3_error_code_to_errno(
                match &code {
                    Some(c) => Some(c.as_str()),
                    None => None,
                },
            );
            let msg = match &message {
                Some(m) => owned(m.as_str()),
                None => owned("Unknown S3 error"),
            };
            let error = FlatRuntimeError::new(errno, msg, owned(next_start)).with_s3_error_details(
                http_status,
                clone_opt(&code),
                clone_opt(&request_id),
                clone_opt(&body_excerpt),
            );
            SdkFailureOutcome {
                error,
                counter: FailureCounter::NoCounter,
                trace_http_status: http_status,
                trace_error_code: code,
                trace_error_message: message,
                trace_request_id: request_id,
                trace_raw_body: body_excerpt,
                retryable: errno < ERROR_NO_BUCKET,
                fatal: errno >= ERROR_NO_BUCKET,
            }
        },
        SdkFailure::Dispatch { is_timeout, connector_text, debug_text } => {
            let region = match &connector_text {
                Some(t) => {
                    let tc = str_chars(t.as_str());
                    let pat = str_chars("region must be set");
                    contains_sub_exec(tc.as_slice(), pat.as_slice())
                },
                None => false,
            };
            let (errno, counter) = if is_timeout {
                (ERROR_S3_CLIENT_CONNECTION_TIMEOUT, FailureCounter::ClientTimeout)
            } else if region {
                (ERROR_S3_MISSING_REGION, FailureCounter::NoCounter)
            } else {
                (ERROR_S3_CLIENT_GENERIC, FailureCounter::ClientGeneric)
            };
            let code = if is_timeout {
                owned("ConnectionTimeout")
            } else {
                owned("DispatchFailure")
            };
            let message = owned(debug_text.as_str());
            SdkFailureOutcome {
                error: FlatRuntimeError::new(errno, debug_text, owned(next_start)),
                counter,
                trace_http_status: 0,
                trace_error_code: Some(code),
                trace_error_message: Some(message),
                trace_request_id: None,
                trace_raw_body: None,
                retryable: errno < ERROR_NO_BUCKET,
                fatal: false,
            }
        },
        SdkFailure::Other { debug_text } => {
            let message = owned(debug_text.as_str());
            SdkFailureOutcome {
                error: FlatRuntimeError::new(ERROR_S3_CLIENT_GENERIC, debug_text, owned(next_start)),
                counter: FailureCounter::ClientGeneric,
                trace_http_status: 0,
                trace_error_code: Some(owned("Unknown")),
                trace_error_message: Some(message),
                trace_request_id: None,
                trace_raw_body: None,
                retryable: false,
                fatal: false,
            }
        },
    }
}

} // verus!
