//! The data-map stage's bookkeeping: part-file names, TSV escaping, the
//! per-prefix object and byte counts with their top entries, the summary of
//! a list batch, and the ordering decisions of the diff merge. Channels,
//! writers and the Parquet output are the application's.
use crate::objects::{
    etag_missing, key_prefix, list_output_includes, match_outcome, props_is_left, props_is_right,
    MatchResult, ObjectKey, ObjectProps, PrefixMetric,
};
use crate::text::{
    append_chars, append_str, compare_chars, dec, last_index_of, last_index_of_exec, push_dec,
    seq_lt, slice_chars, str_chars, string_from_chars,
};
use std::collections::VecDeque;
use vstd::prelude::*;

verus! {

pub const OUTPUT_FLAG_EQUAL: u8 = 0;
pub const OUTPUT_FLAG_PLUS: u8 = 1;
pub const OUTPUT_FLAG_MINUS: u8 = 2;
pub const OUTPUT_FLAG_ASTRISK: u8 = 3;

#[derive(Debug, Clone, Copy, PartialEq, Eq, Structural)]
pub enum ListTextOutputFormat {
    Tsv,
    Ndjson,
}

// ── Part files ─────────────────────────────────────────────

/// The path of output part `index`: the base itself for part 0, else
/// `.part<index>` before the basename's extension (a dot in a directory
/// or at the start of the basename is no extension), or appended.
pub open spec fn part_path_spec(base: Seq<char>, index: nat) -> Seq<char> {
    if index == 0 {
        base
    } else {
        let s = last_index_of(base, '/');
        let dir = if s >= 0 {
            base.take(s + 1)
        } else {
            Seq::empty()
        };
        let name = if s >= 0 {
            base.skip(s + 1)
        } else {
            base
        };
        let d = last_index_of(name, '.');
        if d > 0 {
            dir + name.take(d) + ".part"@ + dec(index) + name.skip(d)
        } else {
            base + ".part"@ + dec(index)
        }
    }
}

pub fn part_path(base: &str, index: usize) -> (r: String)
    ensures
        r@ == part_path_spec(base@, index as nat),
{
    if index == 0 {
        return crate::text::owned(base);
    }
    let b = str_chars(base);
    proof {
        crate::text::lemma_last_index_of(b@, '/');
    }
    let (dir, name) = match last_index_of_exec(b.as_slice(), '/') {
        Some(pos) => (slice_chars(b.as_slice(), 0, pos + 1), slice_chars(b.as_slice(), pos + 1, b.len())),
        None => (Vec::new(), slice_chars(b.as_slice(), 0, b.len())),
    };
    proof {
        assert(name@ =~= (if last_index_of(b@, '/') >= 0 {
            b@.skip(last_index_of(b@, '/') + 1)
        } else {
            b@
        }));
        assert(dir@ =~= (if last_index_of(b@, '/') >= 0 {
            b@.take(last_index_of(b@, '/') + 1)
        } else {
            Seq::empty()
        }));
        crate::text::lemma_last_index_of(name@, '.');
    }
    let mut out: Vec<char> = Vec::new();
    match last_index_of_exec(name.as_slice(), '.') {
        Some(dot) if dot > 0 => {
            append_chars(&mut out, dir.as_slice());
            append_chars(&mut out, slice_chars(name.as_slice(), 0, dot).as_slice());
            append_str(&mut out, ".part");
            push_dec(&mut out, index as u64);
            append_chars(&mut out, slice_chars(name.as_slice(), dot, name.len()).as_slice());
        },
        _ => {
            append_chars(&mut out, b.as_slice());
            append_str(&mut out, ".part");
            push_dec(&mut out, index as u64);
        },
    }
    proof {
        assert(out@ =~= part_path_spec(base@, index as nat));
    }
    string_from_chars(out.as_slice())
}

// ── TSV ────────────────────────────────────────────────────

/// The TSV form of one character: backslash, tab, line feed and carriage
/// return escaped with a backslash.
pub open spec fn tsv_char(c: char) -> Seq<char> {
    if c == '\\' {
        seq!['\\', '\\']
    } else if c == '\t' {
        seq!['\\', 't']
    } else if c == '\n' {
        seq!['\\', 'n']
    } else if c == '\r' {
        seq!['\\', 'r']
    } else {
        seq![c]
    }
}

pub open spec fn tsv_text(s: Seq<char>) -> Seq<char>
    decreases s.len(),
{
    if s.len() == 0 {
        Seq::empty()
    } else {
        tsv_text(s.drop_last()) + tsv_char(s.last())
    }
}

/// No character of `s` is one that TSV escapes (backslash, TAB, LF, CR).
pub open spec fn tsv_plain(s: Seq<char>) -> bool {
    forall|i: int|
        #![trigger s[i]]
        0 <= i < s.len() ==> s[i] != '\\' && s[i] != '\t' && s[i] != '\n' && s[i] != '\r'
}

/// TSV escaping leaves a key that holds none of the escaped characters as
/// it is, and never lets a raw TAB, LF or CR through, so each escaped field
/// stays within its column and row.
pub proof fn law_tsv_escape_keeps_plain_and_hides_separators(s: Seq<char>)
    ensures
        tsv_plain(s) ==> tsv_text(s) == s,
        forall|i: int|
            #![trigger tsv_text(s)[i]]
            0 <= i < tsv_text(s).len() ==> tsv_text(s)[i] != '\t' && tsv_text(s)[i] != '\n'
                && tsv_text(s)[i] != '\r',
    decreases s.len(),
{
    if s.len() > 0 {
        let p = s.drop_last();
        law_tsv_escape_keeps_plain_and_hides_separators(p);
        let t = tsv_text(p);
        let c = tsv_char(s.last());
        assert(tsv_text(s) == t + c);
        assert forall|i: int| 0 <= i < (t + c).len() implies #[trigger] (t + c)[i] != '\t' && (t
            + c)[i] != '\n' && (t + c)[i] != '\r' by {
            if i < t.len() {
                assert((t + c)[i] == t[i]);
            } else {
                assert((t + c)[i] == c[i - t.len()]);
            }
        }
        if tsv_plain(s) {
            assert(tsv_plain(p)) by {
                assert forall|i: int| 0 <= i < p.len() implies #[trigger] p[i] != '\\' && p[i] != '\t'
                    && p[i] != '\n' && p[i] != '\r' by {
                    assert(p[i] == s[i]);
                }
            }
            assert(s[s.len() - 1] == s.last());
            assert(t + c =~= s);
        }
    }
}

/// The character that a backslash followed by `c` stands for.
pub open spec fn tsv_unescape_char(c: char) -> char {
    if c == 't' {
        '\t'
    } else if c == 'n' {
        '\n'
    } else if c == 'r' {
        '\r'
    } else {
        c
    }
}

/// Reading an escaped TSV field back: a backslash and the character after
/// it stand for one character; any other character for itself.
pub open spec fn tsv_unescape(s: Seq<char>) -> Seq<char>
    decreases s.len(),
{
    if s.len() == 0 {
        Seq::empty()
    } else if s[0] == '\\' && s.len() >= 2 {
        seq![tsv_unescape_char(s[1])] + tsv_unescape(s.skip(2))
    } else {
        seq![s[0]] + tsv_unescape(s.skip(1))
    }
}

proof fn lemma_tsv_text_concat(a: Seq<char>, b: Seq<char>)
    ensures
        tsv_text(a + b) == tsv_text(a) + tsv_text(b),
    decreases b.len(),
{
    if b.len() == 0 {
        assert(a + b =~= a);
        assert(tsv_text(a) + tsv_text(b) =~= tsv_text(a));
    } else {
        lemma_tsv_text_concat(a, b.drop_last());
        assert((a + b).drop_last() =~= a + b.drop_last());
        assert((a + b).last() == b.last());
        assert(tsv_text(a) + tsv_text(b.drop_last()) + tsv_char(b.last()) =~= tsv_text(a) + (
        tsv_text(b.drop_last()) + tsv_char(b.last())));
    }
}

/// Escaping loses nothing: reading the escaped field back gives the key,
/// so two different keys never share an escaped field.
pub proof fn law_tsv_escape_reads_back(s: Seq<char>)
    ensures
        tsv_unescape(tsv_text(s)) == s,
    decreases s.len(),
{
    if s.len() > 0 {
        let c = s[0];
        let rest = s.skip(1);
        law_tsv_escape_reads_back(rest);
        assert(s =~= seq![c] + rest);
        lemma_tsv_text_concat(seq![c], rest);
        assert(seq![c].drop_last() =~= Seq::<char>::empty());
        assert(tsv_text(Seq::<char>::empty()) == Seq::<char>::empty());
        assert(seq![c].last() == c);
        assert(tsv_text(seq![c]) == tsv_text(seq![c].drop_last()) + tsv_char(c));
        assert(tsv_text(seq![c]) =~= tsv_char(c));
        let t = tsv_char(c) + tsv_text(rest);
        if c == '\\' || c == '\t' || c == '\n' || c == '\r' {
            assert(t.skip(2) =~= tsv_text(rest));
            assert(t[0] == '\\');
        } else {
            assert(t.skip(1) =~= tsv_text(rest));
        }
        assert(tsv_unescape(t) =~= s);
    }
}

pub fn tsv_escape(value: &str) -> (r: String)
    ensures
        r@ == tsv_text(value@),
{
    let c = str_chars(value);
    let mut out: Vec<char> = Vec::new();
    let mut i: usize = 0;
    while i < c.len()
        invariant
            i <= c.len(),
            c@ == value@,
            out@ == tsv_text(c@.take(i as int)),
        decreases c.len() - i,
    {
        assert(c@.take(i + 1).drop_last() =~= c@.take(i as int));
        let ch = c[i];
        let ghost before = out@;
        if ch == '\\' {
            out.push('\\');
            out.push('\\');
        } else if ch == '\t' {
            out.push('\\');
            out.push('t');
        } else if ch == '\n' {
            out.push('\\');
            out.push('n');
        } else if ch == '\r' {
            out.push('\\');
            out.push('r');
        } else {
            out.push(ch);
        }
        assert(out@ =~= before + tsv_char(ch));
        i += 1;
    }
    assert(c@.take(c.len() as int) =~= c@);
    string_from_chars(out.as_slice())
}

/// One TSV output line: escaped key, size and modification time,
/// tab-separated, with a final line feed.
pub fn tsv_row(key: &str, size: u64, last_modified: u64) -> (r: String)
    ensures
        r@ == tsv_text(key@) + seq!['\t'] + dec(size as nat) + seq!['\t'] + dec(
            last_modified as nat,
        ) + seq!['\n'],
{
    let k = tsv_escape(key);
    let kc = str_chars(k.as_str());
    let mut out: Vec<char> = Vec::new();
    append_chars(&mut out, kc.as_slice());
    out.push('\t');
    push_dec(&mut out, size);
    out.push('\t');
    push_dec(&mut out, last_modified);
    out.push('\n');
    assert(out@ =~= tsv_text(key@) + seq!['\t'] + dec(size as nat) + seq!['\t'] + dec(
        last_modified as nat,
    ) + seq!['\n']);
    string_from_chars(out.as_slice())
}

// ── Prefix statistics ──────────────────────────────────────

/// Object and byte totals of one prefix.
#[derive(Debug, Clone, Copy, PartialEq, Eq, Structural)]
pub struct PrefixAggregate {
    pub objects: usize,
    pub bytes: u64,
}

/// Per-prefix totals, kept in ascending prefix order.
#[derive(Debug)]
pub struct PrefixStats {
    entries: Vec<(String, PrefixAggregate)>,
}

pub open spec fn keys_strictly_sorted(es: Seq<(Seq<char>, PrefixAggregate)>) -> bool {
    forall|i: int, j: int| 0 <= i < j < es.len() ==> seq_lt(#[trigger] es[i].0, #[trigger] es[j].0)
}

pub open spec fn has_key(es: Seq<(Seq<char>, PrefixAggregate)>, k: Seq<char>) -> bool {
    exists|i: int| 0 <= i < es.len() && #[trigger] es[i].0 == k
}

pub open spec fn value_of(es: Seq<(Seq<char>, PrefixAggregate)>, k: Seq<char>) -> PrefixAggregate {
    es[choose|i: int| 0 <= i < es.len() && #[trigger] es[i].0 == k].1
}

/// The totals as a map from prefix.
pub open spec fn stats_map(es: Seq<(Seq<char>, PrefixAggregate)>) -> Map<Seq<char>, PrefixAggregate> {
    Map::new(|k: Seq<char>| has_key(es, k), |k: Seq<char>| value_of(es, k))
}

/// The totals after adding `objects` and `bytes` to a prefix (bytes
/// saturate, as the counters do).
pub open spec fn merged_aggregate(
    m: Map<Seq<char>, PrefixAggregate>,
    k: Seq<char>,
    objects: usize,
    bytes: u64,
) -> PrefixAggregate {
    if m.dom().contains(k) {
        PrefixAggregate {
            objects: (m[k].objects + objects) as usize,
            bytes: m[k].bytes.saturating_add(bytes),
        }
    } else {
        PrefixAggregate { objects, bytes }
    }
}

proof fn lemma_unique_index(es: Seq<(Seq<char>, PrefixAggregate)>, i: int, j: int)
    requires
        keys_strictly_sorted(es),
        0 <= i < es.len(),
        0 <= j < es.len(),
        es[i].0 == es[j].0,
    ensures
        i == j,
{
    if i < j {
        assert(seq_lt(es[i].0, es[j].0));
        crate::text::lemma_seq_lt_irreflexive(es[i].0);
    } else if j < i {
        assert(seq_lt(es[j].0, es[i].0));
        crate::text::lemma_seq_lt_irreflexive(es[i].0);
    }
}

proof fn lemma_value_at(es: Seq<(Seq<char>, PrefixAggregate)>, i: int)
    requires
        keys_strictly_sorted(es),
        0 <= i < es.len(),
    ensures
        has_key(es, es[i].0),
        value_of(es, es[i].0) == es[i].1,
{
    assert(es[i].0 == es[i].0);
    let j = choose|j: int| 0 <= j < es.len() && #[trigger] es[j].0 == es[i].0;
    lemma_unique_index(es, i, j);
}

impl PrefixStats {
    #[verifier::type_invariant]
    spec fn inv(&self) -> bool {
        keys_strictly_sorted(self.entries_v())
    }

    pub closed spec fn entries_v(&self) -> Seq<(Seq<char>, PrefixAggregate)> {
        Seq::new(self.entries@.len(), |i: int| (self.entries@[i].0@, self.entries@[i].1))
    }

    pub open spec fn view(&self) -> Map<Seq<char>, PrefixAggregate> {
        stats_map(self.entries_v())
    }

    pub fn new() -> (r: Self)
        ensures
            r.entries_v().len() == 0,
            r@ == Map::<Seq<char>, PrefixAggregate>::empty(),
    {
        let r = PrefixStats { entries: Vec::new() };
        assert(r@ =~= Map::<Seq<char>, PrefixAggregate>::empty());
        r
    }

    /// The number of distinct prefixes.
    pub fn len(&self) -> (r: usize)
        ensures
            r == self.entries_v().len(),
    {
        self.entries.len()
    }

    /// The entries in ascending prefix order.
    pub fn entries(&self) -> (r: &Vec<(String, PrefixAggregate)>)
        ensures
            r@.len() == self.entries_v().len(),
            forall|i: int| 0 <= i < r@.len() ==> (#[trigger] r@[i]).0@ == self.entries_v()[i].0
                && r@[i].1 == self.entries_v()[i].1,
            keys_strictly_sorted(self.entries_v()),
    {
        proof {
            use_type_invariant(self);
        }
        &self.entries
    }

    /// The first position whose prefix is not below `k`.
    fn lower_bound(&self, k: &[char]) -> (p: usize)
        ensures
            p <= self.entries_v().len(),
            forall|i: int| 0 <= i < p ==> seq_lt(#[trigger] self.entries_v()[i].0, k@),
            forall|i: int| p <= i < self.entries_v().len() ==> !seq_lt(
                #[trigger] self.entries_v()[i].0,
                k@,
            ),
    {
        proof {
            use_type_invariant(self);
        }
        let ghost es = self.entries_v();
        let mut lo: usize = 0;
        let mut hi: usize = self.entries.len();
        while lo < hi
            invariant
                es == self.entries_v(),
                keys_strictly_sorted(es),
                lo <= hi <= es.len(),
                es.len() == self.entries@.len(),
                forall|i: int| 0 <= i < lo ==> seq_lt(#[trigger] es[i].0, k@),
                forall|i: int| hi <= i < es.len() ==> !seq_lt(#[trigger] es[i].0, k@),
            decreases hi - lo,
        {
            let mid = lo + (hi - lo) / 2;
            let mc = str_chars(self.entries[mid].0.as_str());
            if compare_chars(mc.as_slice(), k) == -1 {
                proof {
                    assert forall|i: int| 0 <= i <= mid implies seq_lt(#[trigger] es[i].0, k@) by {
                        if i < mid {
                            assert(seq_lt(es[i].0, es[mid as int].0));
                            crate::text::lemma_seq_lt_trans(es[i].0, es[mid as int].0, k@);
                        }
                    }
                }
                lo = mid + 1;
            } else {
                proof {
                    assert forall|i: int| mid <= i < es.len() implies !seq_lt(#[trigger] es[i].0, k@) by {
                        if i > mid {
                            assert(seq_lt(es[mid as int].0, es[i].0));
                            if seq_lt(es[i].0, k@) {
                                crate::text::lemma_seq_lt_trans(es[mid as int].0, es[i].0, k@);
                            }
                        }
                    }
                }
                hi = mid;
            }
        }
        lo
    }

    /// The totals of a prefix.
    pub fn get(&self, prefix: &str) -> (r: Option<PrefixAggregate>)
        ensures
            r == if self@.dom().contains(prefix@) {
                Some(self@[prefix@])
            } else {
                None::<PrefixAggregate>
            },
    {
        proof {
            use_type_invariant(self);
        }
        let ghost es = self.entries_v();
        let k = str_chars(prefix);
        let p = self.lower_bound(k.as_slice());
        if p < self.entries.len() && crate::text::str_eq(self.entries[p].0.as_str(), prefix) {
            proof {
                lemma_value_at(es, p as int);
            }
            Some(self.entries[p].1)
        } else {
            proof {
                if has_key(es, prefix@) {
                    let j = choose|j: int| 0 <= j < es.len() && #[trigger] es[j].0 == prefix@;
                    crate::text::lemma_seq_lt_irreflexive(prefix@);
                    if j > p {
                        assert(!seq_lt(es[p as int].0, prefix@));
                        crate::text::lemma_seq_lt_total(es[p as int].0, prefix@);
                        assert(seq_lt(es[p as int].0, es[j].0));
                        crate::text::lemma_seq_lt_asym(es[p as int].0, prefix@);
                    }
                }
            }
            None
        }
    }

    /// Adds `objects` objects and `bytes` bytes to a prefix's totals,
    /// creating its entry where there is none.
    pub fn add(&mut self, prefix: &str, objects: usize, bytes: u64)
        requires
            old(self)@.dom().contains(prefix@) ==> old(self)@[prefix@].objects + objects
                <= usize::MAX,
        ensures
            final(self)@ == old(self)@.insert(
                prefix@,
                merged_aggregate(old(self)@, prefix@, objects, bytes),
            ),
            final(self).entries_v().len() == old(self).entries_v().len() + if old(
                self,
            )@.dom().contains(prefix@) {
                0int
            } else {
                1int
            },
    {
        proof {
            use_type_invariant(&*self);
        }
        let ghost es = self.entries_v();
        let ghost m = self@;
        let k = str_chars(prefix);
        let p = self.lower_bound(k.as_slice());
        if p < self.entries.len() && crate::text::str_eq(self.entries[p].0.as_str(), prefix) {
            proof {
                lemma_value_at(es, p as int);
            }
            let cur = self.entries[p].1;
            let updated = PrefixAggregate {
                objects: cur.objects + objects,
                bytes: cur.bytes.saturating_add(bytes),
            };
            let key = crate::text::owned(prefix);
            let mut entries: Vec<(String, PrefixAggregate)> = Vec::new();
            std::mem::swap(&mut entries, &mut self.entries);
            entries.set(p, (key, updated));
            proof {
                let ns = Seq::new(entries@.len(), |i: int| (entries@[i].0@, entries@[i].1));
                assert(ns =~= es.update(p as int, (prefix@, updated)));
                assert(keys_strictly_sorted(ns)) by {
                    assert forall|i: int, j: int| 0 <= i < j < ns.len() implies seq_lt(
                        #[trigger] ns[i].0,
                        #[trigger] ns[j].0,
                    ) by {
                        assert(ns[i].0 == es[i].0 && ns[j].0 == es[j].0);
                    }
                }
                assert forall|x: Seq<char>| #[trigger] has_key(ns, x) == has_key(es, x) by {
                    if has_key(es, x) {
                        let w = choose|w: int| 0 <= w < es.len() && #[trigger] es[w].0 == x;
                        assert(ns[w].0 == x);
                    }
                    if has_key(ns, x) {
                        let w = choose|w: int| 0 <= w < ns.len() && #[trigger] ns[w].0 == x;
                        assert(es[w].0 == x);
                    }
                }
                assert forall|x: Seq<char>| has_key(ns, x) implies #[trigger] value_of(ns, x)
                    == (if x == prefix@ {
                    updated
                } else {
                    value_of(es, x)
                }) by {
                    let w = choose|w: int| 0 <= w < ns.len() && #[trigger] ns[w].0 == x;
                    lemma_value_at(ns, w);
                    lemma_value_at(es, w);
                    if w == p {
                    } else {
                        assert(ns[w] == es[w]);
                    }
                }
                assert(stats_map(ns) =~= m.insert(prefix@, merged_aggregate(m, prefix@, objects, bytes)));
            }
            self.entries = entries;
        } else {
            let key = crate::text::owned(prefix);
            let mut entries: Vec<(String, PrefixAggregate)> = Vec::new();
            std::mem::swap(&mut entries, &mut self.entries);
            entries.insert(p, (key, PrefixAggregate { objects, bytes }));
            proof {
                let ns = Seq::new(entries@.len(), |i: int| (entries@[i].0@, entries@[i].1));
                let nv = PrefixAggregate { objects, bytes };
                assert(ns =~= es.insert(p as int, (prefix@, nv)));
                if p < es.len() {
                    crate::text::lemma_seq_lt_total(es[p as int].0, prefix@);
                    assert(seq_lt(prefix@, es[p as int].0));
                }
                assert forall|j: int| p < j < ns.len() implies seq_lt(prefix@, #[trigger] ns[j].0) by {
                    assert(ns[j] == es[j - 1]);
                    if j - 1 > p {
                        assert(seq_lt(es[p as int].0, es[j - 1].0));
                        crate::text::lemma_seq_lt_trans(prefix@, es[p as int].0, es[j - 1].0);
                    }
                }
                assert(keys_strictly_sorted(ns)) by {
                    assert forall|i: int, j: int| 0 <= i < j < ns.len() implies seq_lt(
                        #[trigger] ns[i].0,
                        #[trigger] ns[j].0,
                    ) by {
                        if j < p {
                            assert(ns[i] == es[i] && ns[j] == es[j]);
                        } else if j == p {
                            assert(ns[i] == es[i]);
                        } else if i < p {
                            assert(ns[i] == es[i]);
                            assert(seq_lt(prefix@, ns[j].0));
                            crate::text::lemma_seq_lt_trans(ns[i].0, prefix@, ns[j].0);
                        } else if i == p {
                        } else {
                            assert(ns[i] == es[i - 1] && ns[j] == es[j - 1]);
                        }
                    }
                }
                assert(!has_key(es, prefix@)) by {
                    if has_key(es, prefix@) {
                        let j = choose|j: int| 0 <= j < es.len() && #[trigger] es[j].0 == prefix@;
                        crate::text::lemma_seq_lt_irreflexive(prefix@);
                        if j >= p {
                            assert(p < es.len());
                            if j > p {
                                assert(seq_lt(es[p as int].0, es[j].0));
                                crate::text::lemma_seq_lt_asym(prefix@, es[p as int].0);
                            }
                        }
                    }
                }
                assert forall|x: Seq<char>| #[trigger] has_key(ns, x) == (has_key(es, x) || x
                    == prefix@) by {
                    if has_key(es, x) {
                        let w = choose|w: int| 0 <= w < es.len() && #[trigger] es[w].0 == x;
                        if w < p {
                            assert(ns[w].0 == x);
                        } else {
                            assert(ns[w + 1].0 == x);
                        }
                    }
                    if x == prefix@ {
                        assert(ns[p as int].0 == x);
                    }
                    if has_key(ns, x) {
                        let w = choose|w: int| 0 <= w < ns.len() && #[trigger] ns[w].0 == x;
                        if w < p {
                            assert(es[w].0 == x);
                        } else if w > p {
                            assert(es[w - 1].0 == x);
                        }
                    }
                }
                assert forall|x: Seq<char>| has_key(ns, x) implies #[trigger] value_of(ns, x)
                    == (if x == prefix@ {
                    nv
                } else {
                    value_of(es, x)
                }) by {
                    let w = choose|w: int| 0 <= w < ns.len() && #[trigger] ns[w].0 == x;
                    lemma_value_at(ns, w);
                    if w < p {
                        assert(ns[w] == es[w]);
                        lemma_value_at(es, w);
                    } else if w > p {
                        assert(ns[w] == es[w - 1]);
                        lemma_value_at(es, w - 1);
                    }
                }
                assert(stats_map(ns) =~= m.insert(prefix@, merged_aggregate(m, prefix@, objects, bytes)));
            }
            self.entries = entries;
        }
    }
}

/// The totals after recording `objects` objects of `bytes` bytes under a
/// prefix.
pub open spec fn record(
    m: Map<Seq<char>, PrefixAggregate>,
    k: Seq<char>,
    objects: usize,
    bytes: u64,
) -> Map<Seq<char>, PrefixAggregate> {
    m.insert(k, merged_aggregate(m, k, objects, bytes))
}

/// Counts one object of `size` bytes under `prefix`.
pub fn record_prefix_stat(prefix_stats: &mut PrefixStats, prefix: &str, size: u64)
    requires
        old(prefix_stats)@.dom().contains(prefix@) ==> old(prefix_stats)@[prefix@].objects
            < usize::MAX,
    ensures
        final(prefix_stats)@ == record(old(prefix_stats)@, prefix@, 1, size),
{
    prefix_stats.add(prefix, 1, size);
}

/// Coalesces a run of objects under the same prefix into one update:
/// listing batches arrive in key order, so consecutive objects mostly
/// share a prefix.
#[derive(Debug)]
pub struct PrefixRunFolder {
    pub prefix: String,
    pub objects: usize,
    pub bytes: u64,
}

/// The totals once the pending run is flushed.
pub open spec fn with_run(m: Map<Seq<char>, PrefixAggregate>, f: PrefixRunFolder) -> Map<
    Seq<char>,
    PrefixAggregate,
> {
    if f.objects > 0 {
        record(m, f.prefix@, f.objects, f.bytes)
    } else {
        m
    }
}

/// The pending run can be flushed without overflowing its prefix's count.
pub open spec fn run_fits(m: Map<Seq<char>, PrefixAggregate>, f: PrefixRunFolder) -> bool {
    f.objects > 0 && m.dom().contains(f.prefix@) ==> m[f.prefix@].objects + f.objects
        <= usize::MAX
}

proof fn lemma_saturating_assoc(a: u64, b: u64, c: u64)
    ensures
        a.saturating_add(b).saturating_add(c) == a.saturating_add(b.saturating_add(c)),
{
}

impl PrefixRunFolder {
    pub fn new() -> (r: Self)
        ensures
            r.objects == 0,
            r.bytes == 0,
    {
        PrefixRunFolder { prefix: String::new(), objects: 0, bytes: 0 }
    }

    /// Writes the pending run into the totals and empties it.
    pub fn flush(&mut self, prefix_stats: &mut PrefixStats)
        requires
            run_fits(old(prefix_stats)@, *old(self)),
        ensures
            final(prefix_stats)@ == with_run(old(prefix_stats)@, *old(self)),
            final(self).objects == 0,
            final(self).bytes == if old(self).objects == 0 {
                old(self).bytes
            } else {
                0
            },
            final(self).prefix == old(self).prefix,
    {
        if self.objects == 0 {
            return;
        }
        prefix_stats.add(self.prefix.as_str(), self.objects, self.bytes);
        self.objects = 0;
        self.bytes = 0;
    }

    /// Adds one object of `size` bytes under `prefix`: it joins the pending
    /// run where the prefix is the same, else the run is flushed and a new
    /// one starts. The totals with the run flushed are those of counting the
    /// object directly.
    pub fn add(&mut self, prefix_stats: &mut PrefixStats, prefix: &str, size: u64)
        requires
            run_fits(old(prefix_stats)@, *old(self)),
            with_run(old(prefix_stats)@, *old(self)).dom().contains(prefix@) ==> with_run(
                old(prefix_stats)@,
                *old(self),
            )[prefix@].objects < usize::MAX,
        ensures
            run_fits(final(prefix_stats)@, *final(self)),
            with_run(final(prefix_stats)@, *final(self)) == record(
                with_run(old(prefix_stats)@, *old(self)),
                prefix@,
                1,
                size,
            ),
    {
        let ghost m0 = prefix_stats@;
        if self.objects > 0 && crate::text::str_eq(self.prefix.as_str(), prefix) {
            proof {
                lemma_saturating_assoc(
                    if m0.dom().contains(prefix@) {
                        m0[prefix@].bytes
                    } else {
                        0
                    },
                    self.bytes,
                    size,
                );
                assert(with_run(m0, *old(self)).dom().contains(prefix@));
            }
            self.objects = self.objects + 1;
            self.bytes = self.bytes.saturating_add(size);
            proof {
                if m0.dom().contains(prefix@) {
                    assert(with_run(m0, *self) =~= record(with_run(m0, *old(self)), prefix@, 1, size));
                } else {
                    assert(with_run(m0, *self) =~= record(with_run(m0, *old(self)), prefix@, 1, size));
                }
            }
            return;
        }
        self.flush(prefix_stats);
        self.prefix = crate::text::owned(prefix);
        self.objects = 1;
        self.bytes = size;
        proof {
            assert(with_run(prefix_stats@, *self) =~= record(with_run(m0, *old(self)), prefix@, 1, size));
        }
    }
}

// ── Top prefixes ───────────────────────────────────────────

pub type MetricV = (Seq<char>, usize, u64);

/// Ranking of prefixes: more objects first, then more bytes, then the
/// lower prefix.
pub open spec fn metric_before(a: MetricV, b: MetricV) -> bool {
    a.1 > b.1 || (a.1 == b.1 && (a.2 > b.2 || (a.2 == b.2 && seq_lt(a.0, b.0))))
}

pub open spec fn entry_metric(e: (Seq<char>, PrefixAggregate)) -> MetricV {
    (e.0, e.1.objects, e.1.bytes)
}

pub open spec fn metrics_view(v: Seq<PrefixMetric>) -> Seq<MetricV> {
    Seq::new(v.len(), |i: int| (v[i].prefix@, v[i].objects, v[i].bytes))
}

pub open spec fn min_len(limit: int, n: int) -> int {
    if limit < n {
        limit
    } else {
        n
    }
}

pub open spec fn is_entry_of(m: MetricV, es: Seq<(Seq<char>, PrefixAggregate)>) -> bool {
    exists|j: int| 0 <= j < es.len() && m == #[trigger] entry_metric(es[j])
}

/// `ms` is the top `limit` of the entries `es`: as many as fit, in ranking
/// order, each an entry, and every entry left out ranked after all of them.
pub open spec fn is_top(ms: Seq<MetricV>, es: Seq<(Seq<char>, PrefixAggregate)>, limit: int) -> bool {
    &&& ms.len() == min_len(limit, es.len() as int)
    &&& forall|a: int, b: int| 0 <= a < b < ms.len() ==> metric_before(#[trigger] ms[a], #[trigger] ms[b])
    &&& forall|a: int| 0 <= a < ms.len() ==> is_entry_of(#[trigger] ms[a], es)
    &&& forall|j: int| 0 <= j < es.len() && !ms.contains(#[trigger] entry_metric(es[j])) ==> forall|a: int| 0 <= a < ms.len() ==> metric_before(#[trigger] ms[a], entry_metric(es[j]))
}

proof fn lemma_before_trans(a: MetricV, b: MetricV, c: MetricV)
    requires
        metric_before(a, b),
        metric_before(b, c),
    ensures
        metric_before(a, c),
{
    if a.1 == b.1 && b.1 == c.1 && a.2 == b.2 && b.2 == c.2 {
        crate::text::lemma_seq_lt_trans(a.0, b.0, c.0);
    }
}

proof fn lemma_before_total(a: MetricV, b: MetricV)
    requires
        a.0 != b.0,
    ensures
        metric_before(a, b) || metric_before(b, a),
{
    crate::text::lemma_seq_lt_total(a.0, b.0);
}

fn metric_before_exec(m: &PrefixMetric, key: &str, objects: usize, bytes: u64) -> (r: bool)
    ensures
        r == metric_before((m.prefix@, m.objects, m.bytes), (key@, objects, bytes)),
{
    if m.objects != objects {
        return m.objects > objects;
    }
    if m.bytes != bytes {
        return m.bytes > bytes;
    }
    let a = str_chars(m.prefix.as_str());
    let b = str_chars(key);
    compare_chars(a.as_slice(), b.as_slice()) == -1
}

/// The `limit` prefixes with the most objects (then bytes, then lowest
/// prefix), in that order.
pub fn top_prefixes(prefix_stats: &PrefixStats, limit: usize) -> (r: Vec<PrefixMetric>)
    ensures
        is_top(metrics_view(r@), prefix_stats.entries_v(), limit as int),
{
    let entries = prefix_stats.entries();
    let ghost es = prefix_stats.entries_v();
    let mut top: Vec<PrefixMetric> = Vec::new();
    let mut i: usize = 0;
    while i < entries.len()
        invariant
            i <= entries.len(),
            es == prefix_stats.entries_v(),
            entries@.len() == es.len(),
            forall|k: int| 0 <= k < entries@.len() ==> (#[trigger] entries@[k]).0@ == es[k].0
                && entries@[k].1 == es[k].1,
            keys_strictly_sorted(es),
            is_top(metrics_view(top@), es.take(i as int), limit as int),
            metrics_view(top@).len() < limit ==> forall|j: int|
                0 <= j < i ==> metrics_view(top@).contains(#[trigger] entry_metric(es[j])),
        decreases entries.len() - i,
    {
        let ghost ms = metrics_view(top@);
        let ghost e = entry_metric(es[i as int]);
        let ghost done = es.take(i as int);
        let ghost next = es.take(i + 1);
        proof {
            assert(next =~= done.push(es[i as int]));
            // The new entry's prefix differs from every processed one.
            assert forall|j: int| 0 <= j < done.len() implies (#[trigger] done[j]).0 != e.0 by {
                assert(done[j] == es[j]);
                assert(seq_lt(es[j].0, es[i as int].0));
                crate::text::lemma_seq_lt_irreflexive(e.0);
            }
            assert forall|a: int| 0 <= a < ms.len() implies (#[trigger] ms[a]).0 != e.0 by {
                assert(is_entry_of(ms[a], done));
                let j = choose|j: int| 0 <= j < done.len() && ms[a] == #[trigger] entry_metric(done[j]);
                assert(done[j].0 != e.0);
            }
        }
        let key = entries[i].0.as_str();
        let objects = entries[i].1.objects;
        let bytes = entries[i].1.bytes;
        let mut p: usize = 0;
        while p < top.len() && metric_before_exec(&top[p], key, objects, bytes)
            invariant
                ms == metrics_view(top@),
                p <= top.len(),
                e == (key@, objects, bytes),
                forall|a: int| 0 <= a < p ==> metric_before(#[trigger] ms[a], e),
            decreases top.len() - p,
        {
            p += 1;
        }
        proof {
            if p < ms.len() {
                lemma_before_total(ms[p as int], e);
                assert(metric_before(e, ms[p as int]));
            }
            assert forall|a: int| p <= a < ms.len() implies metric_before(e, #[trigger] ms[a]) by {
                if a > p {
                    lemma_before_trans(e, ms[p as int], ms[a]);
                }
            }
        }
        if p < limit {
            let ghost old_top = ms;
            top.insert(p, PrefixMetric { prefix: crate::text::owned(key), objects, bytes });
            let ghost ins = metrics_view(top@);
            proof {
                assert(ins =~= old_top.insert(p as int, e));
            }
            if top.len() > limit {
                top.pop();
            }
            proof {
                let nt = metrics_view(top@);
                let full = old_top.len() == limit;
                if full {
                    assert(nt =~= ins.take(limit as int));
                } else {
                    assert(nt =~= ins);
                }
                // sorted
                assert forall|a: int, b: int| 0 <= a < b < nt.len() implies metric_before(
                    #[trigger] nt[a],
                    #[trigger] nt[b],
                ) by {
                    assert(nt[a] == ins[a] && nt[b] == ins[b]);
                    if b < p {
                        assert(ins[a] == old_top[a] && ins[b] == old_top[b]);
                    } else if b == p {
                        assert(ins[a] == old_top[a]);
                    } else if a < p {
                        assert(ins[a] == old_top[a] && ins[b] == old_top[b - 1]);
                        assert(metric_before(e, old_top[b - 1]));
                        lemma_before_trans(old_top[a], e, old_top[b - 1]);
                    } else if a == p {
                        assert(ins[b] == old_top[b - 1]);
                    } else {
                        assert(ins[a] == old_top[a - 1] && ins[b] == old_top[b - 1]);
                    }
                }
                // each an entry
                assert forall|a: int| 0 <= a < nt.len() implies is_entry_of(#[trigger] nt[a], next) by {
                    assert(nt[a] == ins[a]);
                    if a == p {
                        assert(next[i as int] == es[i as int]);
                        assert(nt[a] == entry_metric(next[i as int]));
                    } else {
                        let oa = if a < p {
                            a
                        } else {
                            a - 1
                        };
                        assert(ins[a] == old_top[oa]);
                        assert(is_entry_of(old_top[oa], done));
                        let j = choose|j: int| 0 <= j < done.len() && old_top[oa] == #[trigger] entry_metric(done[j]);
                        assert(next[j] == done[j]);
                        assert(nt[a] == entry_metric(next[j]));
                    }
                }
                assert(nt.len() == min_len(limit as int, next.len() as int));
                // while not full, every processed entry is kept
                if nt.len() < limit {
                    assert(!full);
                    assert forall|j: int| 0 <= j < i + 1 implies nt.contains(#[trigger] entry_metric(es[j])) by {
                        if j == i {
                            assert(nt[p as int] == e);
                        } else {
                            assert(old_top.contains(entry_metric(es[j])));
                            let w = choose|w: int| 0 <= w < old_top.len() && old_top[w] == entry_metric(es[j]);
                            if w < p {
                                assert(nt[w] == old_top[w]);
                            } else {
                                assert(nt[w + 1] == old_top[w]);
                            }
                        }
                    }
                }
                assert forall|j: int| 0 <= j < next.len() && !nt.contains(#[trigger] entry_metric(next[j])) implies forall|a: int| 0 <= a < nt.len() ==> metric_before(#[trigger] nt[a], entry_metric(next[j])) by {
                    let x = entry_metric(next[j]);
                    if j == i {
                        assert(nt[p as int] == e);
                        assert(nt.contains(e));
                    } else {
                        assert(next[j] == done[j]);
                        assert forall|a: int| 0 <= a < nt.len() implies metric_before(#[trigger] nt[a], x) by {
                            if old_top.contains(x) {
                                let w = choose|w: int| 0 <= w < old_top.len() && old_top[w] == x;
                                // x was in the old top but is no longer: it is the dropped last one
                                if w < p {
                                    assert(nt[w] == x);
                                } else if w + 1 < nt.len() {
                                    assert(nt[w + 1] == x);
                                }
                                assert(full);
                                assert(w == old_top.len() - 1);
                                assert(ins[a] == nt[a]);
                                if a < w + 1 {
                                    // a precedes the dropped element in ins
                                    assert(ins[w + 1] == x);
                                }
                            } else {
                                assert(forall|c: int| 0 <= c < old_top.len() ==> metric_before(#[trigger] old_top[c], x));
                                if a == p {
                                    // e precedes old_top[p], which precedes x
                                    if p < old_top.len() {
                                        lemma_before_trans(e, old_top[p as int], x);
                                    } else {
                                        // the old top held every processed entry
                                        assert(done[j] == es[j]);
                                        assert(old_top.contains(entry_metric(es[j])));
                                    }
                                } else if a < p {
                                    assert(nt[a] == old_top[a]);
                                } else {
                                    assert(nt[a] == old_top[a - 1]);
                                }
                            }
                        }
                    }
                }
            }
        } else {
            proof {
                assert(metrics_view(top@) == ms);
                assert(p == ms.len() && ms.len() == limit);
                assert forall|a: int| 0 <= a < ms.len() implies is_entry_of(#[trigger] ms[a], next) by {
                    assert(is_entry_of(ms[a], done));
                    let j = choose|j: int| 0 <= j < done.len() && ms[a] == #[trigger] entry_metric(done[j]);
                    assert(next[j] == done[j]);
                    assert(ms[a] == entry_metric(next[j]));
                }
                assert forall|j: int| 0 <= j < next.len() && !ms.contains(#[trigger] entry_metric(next[j])) implies forall|a: int| 0 <= a < ms.len() ==> metric_before(#[trigger] ms[a], entry_metric(next[j])) by {
                    if j < i {
                        assert(next[j] == done[j]);
                    } else {
                        assert(next[j] == es[i as int]);
                    }
                }
                assert(ms.len() == min_len(limit as int, next.len() as int));
                assert(forall|a: int, b: int| 0 <= a < b < ms.len() ==> metric_before(#[trigger] ms[a], #[trigger] ms[b]));
                assert(forall|j: int| 0 <= j < next.len() && !ms.contains(#[trigger] entry_metric(next[j])) ==> forall|a: int| 0 <= a < ms.len() ==> metric_before(#[trigger] ms[a], entry_metric(next[j])));
                assert(is_top(ms, next, limit as int));
            }
        }
        i += 1;
    }
    proof {
        assert(es.take(entries.len() as int) =~= es);
    }
    top
}

// ── List batches ───────────────────────────────────────────

/// Counters of a list run's data stage.
#[derive(Debug, Clone, Copy)]
pub struct ListStreamingStats {
    pub received_batches: usize,
    pub received_objects: usize,
    pub streamed_rows: usize,
    pub bytes_total: u64,
}

/// The prefix totals after counting the listed objects of a batch (each
/// with the filter's verdict) that the list output includes.
pub open spec fn summary_fold(
    m: Map<Seq<char>, PrefixAggregate>,
    ks: Seq<Seq<char>>,
    ps: Seq<ObjectProps>,
    vs: Seq<Option<bool>>,
) -> Map<Seq<char>, PrefixAggregate>
    decreases ks.len(),
{
    if ks.len() == 0 {
        m
    } else {
        let n = ks.len() - 1;
        let prev = summary_fold(m, ks.drop_last(), ps.take(n), vs.take(n));
        if list_output_includes(ps[n], vs[n]) {
            record(prev, key_prefix(ks[n]), 1, ps[n].size)
        } else {
            prev
        }
    }
}

/// How many of the batch's objects the list output includes, and their
/// total size (saturating).
pub open spec fn included_totals(ps: Seq<ObjectProps>, vs: Seq<Option<bool>>) -> (nat, u64)
    decreases ps.len(),
{
    if ps.len() == 0 {
        (0, 0)
    } else {
        let n = ps.len() - 1;
        let prev = included_totals(ps.take(n), vs.take(n));
        if list_output_includes(ps[n], vs[n]) {
            (prev.0 + 1, prev.1.saturating_add(ps[n].size))
        } else {
            prev
        }
    }
}

pub open spec fn keys_view(v: Seq<ObjectKey>) -> Seq<Seq<char>> {
    Seq::new(v.len(), |i: int| v[i]@)
}

pub open spec fn count_or_zero(m: Map<Seq<char>, PrefixAggregate>, k: Seq<char>) -> int {
    if m.dom().contains(k) {
        m[k].objects as int
    } else {
        0
    }
}

/// Counts a list batch for a summary-only run: every object is received,
/// those the list output includes are counted under their prefix.
pub fn ingest_list_summary_batch(
    prefix_stats: &mut PrefixStats,
    stats: &mut ListStreamingStats,
    keys: &[ObjectKey],
    props: &[ObjectProps],
    verdicts: &[Option<bool>],
)
    requires
        keys.len() == props.len(),
        keys.len() == verdicts.len(),
        old(stats).received_batches < usize::MAX,
        old(stats).received_objects + keys.len() <= usize::MAX,
        old(stats).streamed_rows + keys.len() <= usize::MAX,
        forall|k: Seq<char>| #[trigger] old(prefix_stats)@.dom().contains(k) ==> old(
            prefix_stats,
        )@[k].objects + keys.len() <= usize::MAX,
    ensures
        final(prefix_stats)@ == summary_fold(old(prefix_stats)@, keys_view(keys@), props@, verdicts@),
        final(stats).received_batches == old(stats).received_batches + 1,
        final(stats).received_objects == old(stats).received_objects + keys.len(),
        final(stats).streamed_rows == old(stats).streamed_rows + included_totals(props@, verdicts@).0,
        final(stats).bytes_total == old(stats).bytes_total.saturating_add(
            included_totals(props@, verdicts@).1,
        ),
{
    let ghost m0 = prefix_stats@;
    let ghost ks = keys_view(keys@);
    stats.received_batches += 1;
    stats.received_objects += keys.len();
    let ghost rows0 = stats.streamed_rows;
    let ghost bytes0 = stats.bytes_total;
    let mut folder = PrefixRunFolder::new();
    let mut i: usize = 0;
    while i < keys.len()
        invariant
            i <= keys.len(),
            keys.len() == props.len(),
            keys.len() == verdicts.len(),
            ks == keys_view(keys@),
            run_fits(prefix_stats@, folder),
            with_run(prefix_stats@, folder) == summary_fold(m0, ks.take(i as int), props@.take(i as int), verdicts@.take(i as int)),
            forall|k: Seq<char>| #[trigger] with_run(prefix_stats@, folder).dom().contains(k)
                ==> with_run(prefix_stats@, folder)[k].objects <= count_or_zero(m0, k) + i,
            forall|k: Seq<char>| #[trigger] m0.dom().contains(k) ==> m0[k].objects + keys.len() <= usize::MAX,
            stats.streamed_rows == rows0 + included_totals(props@.take(i as int), verdicts@.take(i as int)).0,
            stats.bytes_total == bytes0.saturating_add(included_totals(props@.take(i as int), verdicts@.take(i as int)).1),
            rows0 + keys.len() <= usize::MAX,
            stats.received_batches == old(stats).received_batches + 1,
            stats.received_objects == old(stats).received_objects + keys.len(),
            included_totals(props@.take(i as int), verdicts@.take(i as int)).0 <= i,
        decreases keys.len() - i,
    {
        proof {
            assert(ks.take(i + 1).drop_last() =~= ks.take(i as int));
            assert(props@.take(i + 1).take(i as int) =~= props@.take(i as int));
            assert(verdicts@.take(i + 1).take(i as int) =~= verdicts@.take(i as int));
            assert(ks.take(i + 1)[i as int] == keys@[i as int]@);
            assert(props@.take(i + 1)[i as int] == props@[i as int]);
            assert(verdicts@.take(i + 1)[i as int] == verdicts@[i as int]);
        }
        let p = props[i];
        if p.include_in_list_output(verdicts[i]) {
            let prefix = keys[i].prefix();
            let ghost before = with_run(prefix_stats@, folder);
            folder.add(prefix_stats, prefix.as_str(), p.size());
            proof {
                lemma_saturating_assoc(bytes0, included_totals(props@.take(i as int), verdicts@.take(i as int)).1, p.size);
                assert forall|k: Seq<char>| #[trigger] with_run(prefix_stats@, folder).dom().contains(k)
                    implies with_run(prefix_stats@, folder)[k].objects <= count_or_zero(m0, k) + i + 1 by {
                    if k != prefix@ {
                        assert(before.dom().contains(k));
                    }
                }
            }
            stats.streamed_rows += 1;
            stats.bytes_total = stats.bytes_total.saturating_add(p.size());
        }
        i += 1;
    }
    folder.flush(prefix_stats);
    proof {
        assert(ks.take(keys.len() as int) =~= ks);
        assert(props@.take(keys.len() as int) =~= props@);
        assert(verdicts@.take(keys.len() as int) =~= verdicts@);
    }
}

/// The prefix totals after counting every object of a batch.
pub open spec fn record_all(
    m: Map<Seq<char>, PrefixAggregate>,
    ks: Seq<Seq<char>>,
    ps: Seq<ObjectProps>,
) -> Map<Seq<char>, PrefixAggregate>
    decreases ks.len(),
{
    if ks.len() == 0 {
        m
    } else {
        let n = ks.len() - 1;
        record(record_all(m, ks.drop_last(), ps.take(n)), key_prefix(ks[n]), 1, ps[n].size)
    }
}

/// The total size of a batch's objects (saturating).
pub open spec fn bytes_all(ps: Seq<ObjectProps>) -> u64
    decreases ps.len(),
{
    if ps.len() == 0 {
        0
    } else {
        bytes_all(ps.drop_last()).saturating_add(ps.last().size)
    }
}

/// Counts a list batch bound for Parquet: every received object counts
/// under its prefix and in the byte total; the returned mask marks the rows
/// the list output includes, which alone are written and counted as rows.
pub fn ingest_list_parquet_batch(
    prefix_stats: &mut PrefixStats,
    stats: &mut ListStreamingStats,
    keys: &[ObjectKey],
    props: &[ObjectProps],
    verdicts: &[Option<bool>],
) -> (mask: Vec<bool>)
    requires
        keys.len() == props.len(),
        keys.len() == verdicts.len(),
        old(stats).received_batches < usize::MAX,
        old(stats).received_objects + keys.len() <= usize::MAX,
        old(stats).streamed_rows + keys.len() <= usize::MAX,
        forall|k: Seq<char>| #[trigger] old(prefix_stats)@.dom().contains(k) ==> old(
            prefix_stats,
        )@[k].objects + keys.len() <= usize::MAX,
    ensures
        final(prefix_stats)@ == record_all(old(prefix_stats)@, keys_view(keys@), props@),
        mask@.len() == keys.len(),
        forall|i: int| 0 <= i < keys.len() ==> mask@[i] == list_output_includes(
            #[trigger] props@[i],
            verdicts@[i],
        ),
        final(stats).received_batches == old(stats).received_batches + 1,
        final(stats).received_objects == old(stats).received_objects + keys.len(),
        final(stats).streamed_rows == old(stats).streamed_rows + included_totals(props@, verdicts@).0,
        final(stats).bytes_total == old(stats).bytes_total.saturating_add(bytes_all(props@)),
{
    let ghost m0 = prefix_stats@;
    let ghost ks = keys_view(keys@);
    stats.received_batches += 1;
    stats.received_objects += keys.len();
    let ghost rows0 = stats.streamed_rows;
    let ghost bytes0 = stats.bytes_total;
    let mut mask: Vec<bool> = Vec::new();
    let mut folder = PrefixRunFolder::new();
    let mut i: usize = 0;
    while i < keys.len()
        invariant
            i <= keys.len(),
            keys.len() == props.len(),
            keys.len() == verdicts.len(),
            ks == keys_view(keys@),
            mask@.len() == i,
            forall|j: int| 0 <= j < i ==> mask@[j] == list_output_includes(
                #[trigger] props@[j],
                verdicts@[j],
            ),
            run_fits(prefix_stats@, folder),
            with_run(prefix_stats@, folder) == record_all(m0, ks.take(i as int), props@.take(i as int)),
            forall|k: Seq<char>| #[trigger] with_run(prefix_stats@, folder).dom().contains(k)
                ==> with_run(prefix_stats@, folder)[k].objects <= count_or_zero(m0, k) + i,
            forall|k: Seq<char>| #[trigger] m0.dom().contains(k) ==> m0[k].objects + keys.len() <= usize::MAX,
            stats.streamed_rows == rows0 + included_totals(props@.take(i as int), verdicts@.take(i as int)).0,
            stats.bytes_total == bytes0.saturating_add(bytes_all(props@.take(i as int))),
            rows0 + keys.len() <= usize::MAX,
            stats.received_batches == old(stats).received_batches + 1,
            stats.received_objects == old(stats).received_objects + keys.len(),
            included_totals(props@.take(i as int), verdicts@.take(i as int)).0 <= i,
        decreases keys.len() - i,
    {
        proof {
            assert(ks.take(i + 1).drop_last() =~= ks.take(i as int));
            assert(props@.take(i + 1).take(i as int) =~= props@.take(i as int));
            assert(props@.take(i + 1).drop_last() =~= props@.take(i as int));
            assert(verdicts@.take(i + 1).take(i as int) =~= verdicts@.take(i as int));
            assert(ks.take(i + 1)[i as int] == keys@[i as int]@);
            assert(props@.take(i + 1)[i as int] == props@[i as int]);
            assert(verdicts@.take(i + 1)[i as int] == verdicts@[i as int]);
        }
        let p = props[i];
        let prefix = keys[i].prefix();
        let ghost before = with_run(prefix_stats@, folder);
        folder.add(prefix_stats, prefix.as_str(), p.size());
        proof {
            lemma_saturating_assoc(bytes0, bytes_all(props@.take(i as int)), p.size);
            assert forall|k: Seq<char>| #[trigger] with_run(prefix_stats@, folder).dom().contains(k)
                implies with_run(prefix_stats@, folder)[k].objects <= count_or_zero(m0, k) + i + 1 by {
                if k != prefix@ {
                    assert(before.dom().contains(k));
                }
            }
        }
        stats.bytes_total = stats.bytes_total.saturating_add(p.size());
        let inc = p.include_in_list_output(verdicts[i]);
        if inc {
            stats.streamed_rows += 1;
        }
        mask.push(inc);
        i += 1;
    }
    folder.flush(prefix_stats);
    proof {
        assert(ks.take(keys.len() as int) =~= ks);
        assert(props@.take(keys.len() as int) =~= props@);
        assert(verdicts@.take(keys.len() as int) =~= verdicts@);
    }
    mask
}

/// The KeySpace file: one `"prefix","count"` line per prefix, in ascending
/// prefix order.
pub open spec fn ks_lines(es: Seq<(Seq<char>, PrefixAggregate)>) -> Seq<char>
    decreases es.len(),
{
    if es.len() == 0 {
        Seq::empty()
    } else {
        ks_lines(es.drop_last()) + "\""@ + es.last().0 + "\",\""@ + dec(es.last().1.objects as nat)
            + "\"\n"@
    }
}

pub fn ks_file_text(stats: &PrefixStats) -> (r: String)
    ensures
        r@ == ks_lines(stats.entries_v()),
{
    let es = stats.entries();
    let ghost v = stats.entries_v();
    let mut out: Vec<char> = Vec::new();
    let mut i: usize = 0;
    while i < es.len()
        invariant
            i <= es.len(),
            es@.len() == v.len(),
            forall|j: int| 0 <= j < es@.len() ==> (#[trigger] es@[j]).0@ == v[j].0 && es@[j].1 == v[j].1,
            out@ == ks_lines(v.take(i as int)),
        decreases es.len() - i,
    {
        assert(v.take(i + 1).drop_last() =~= v.take(i as int));
        append_str(&mut out, "\"");
        append_str(&mut out, es[i].0.as_str());
        append_str(&mut out, "\",\"");
        push_dec(&mut out, es[i].1.objects as u64);
        append_str(&mut out, "\"\n");
        i += 1;
    }
    assert(v.take(es.len() as int) =~= v);
    string_from_chars(out.as_slice())
}

// ── Diff merge ─────────────────────────────────────────────

/// Which side the diff merge takes next.
#[derive(Debug, Clone, Copy, PartialEq, Eq, Structural)]
pub enum MergeStep {
    /// Only on the left (or ordered first): a `+` row.
    Left,
    /// Only on the right (or ordered first): a `-` row.
    Right,
    /// The same key on both sides: compare the pair.
    Both,
    /// Both sides are exhausted.
    Done,
}

/// The next step of the merge from the two sides' front keys.
pub fn merge_step(left: Option<&str>, right: Option<&str>) -> (r: MergeStep)
    ensures
        r == match (left, right) {
            (None, None) => MergeStep::Done,
            (Some(_), None) => MergeStep::Left,
            (None, Some(_)) => MergeStep::Right,
            (Some(l), Some(rk)) => if seq_lt(l@, rk@) {
                MergeStep::Left
            } else if seq_lt(rk@, l@) {
                MergeStep::Right
            } else {
                MergeStep::Both
            },
        },
{
    match (left, right) {
        (None, None) => MergeStep::Done,
        (Some(_), None) => MergeStep::Left,
        (None, Some(_)) => MergeStep::Right,
        (Some(l), Some(rk)) => {
            let lc = str_chars(l);
            let rc = str_chars(rk);
            let c = compare_chars(lc.as_slice(), rc.as_slice());
            if c == -1 {
                MergeStep::Left
            } else if c == 1 {
                MergeStep::Right
            } else {
                MergeStep::Both
            }
        },
    }
}

/// How a newly received key of one diff side relates to the previous one.
#[derive(Debug, Clone, Copy, PartialEq, Eq, Structural)]
pub enum KeyOrder {
    /// Before the previous key: the listing is out of order.
    OutOfOrder,
    /// The previous key again: the latest entry is kept.
    Repeat,
    /// After the previous key (or the first one).
    Ascending,
}

pub fn key_order(prev: Option<&str>, key: &str) -> (r: KeyOrder)
    ensures
        r == match prev {
            None => KeyOrder::Ascending,
            Some(p) => if seq_lt(key@, p@) {
                KeyOrder::OutOfOrder
            } else if key@ == p@ {
                KeyOrder::Repeat
            } else {
                KeyOrder::Ascending
            },
        },
{
    match prev {
        None => KeyOrder::Ascending,
        Some(p) => {
            let kc = str_chars(key);
            let pc = str_chars(p);
            let c = compare_chars(kc.as_slice(), pc.as_slice());
            if c == -1 {
                KeyOrder::OutOfOrder
            } else if c == 0 {
                KeyOrder::Repeat
            } else {
                KeyOrder::Ascending
            }
        },
    }
}

// ── Diff side streams ──────────────────────────────────────

/// A listed row as the merge sees it: its key and metadata.
pub type RowV = (Seq<char>, ObjectProps);

pub open spec fn rows_v(v: Seq<(ObjectKey, ObjectProps)>) -> Seq<RowV> {
    Seq::new(v.len(), |i: int| (v[i].0@, v[i].1))
}

/// A side between batches: its buffered rows, the last key it received,
/// and the first ordering violation, as `(key, previous key)`.
pub type SideState = (Seq<RowV>, Option<Seq<char>>, Option<(Seq<char>, Seq<char>)>);

/// One received row: a key before the previous one is a violation (and
/// everything after it is dropped); the previous key again replaces the
/// buffered entry (or is dropped when that entry has been merged already);
/// a later key is buffered.
pub open spec fn ingest_one(st: SideState, row: RowV) -> SideState {
    if st.2 is Some {
        st
    } else {
        match st.1 {
            Some(p) => if seq_lt(row.0, p) {
                (st.0, st.1, Some((row.0, p)))
            } else if row.0 == p {
                (
                    if st.0.len() > 0 {
                        st.0.update(st.0.len() - 1, row)
                    } else {
                        st.0
                    },
                    st.1,
                    None,
                )
            } else {
                (st.0.push(row), Some(row.0), None)
            },
            None => (st.0.push(row), Some(row.0), None),
        }
    }
}

pub open spec fn ingest_rows(st: SideState, rows: Seq<RowV>) -> SideState
    decreases rows.len(),
{
    if rows.len() == 0 {
        st
    } else {
        ingest_one(ingest_rows(st, rows.drop_last()), rows.last())
    }
}

pub open spec fn order_error(name: Seq<char>, key: Seq<char>, prev: Seq<char>) -> Seq<char> {
    name + " listing returned keys out of order ('"@ + key + "' after '"@ + prev
        + "'); diff requires S3 lexicographic ordering"@
}

pub open spec fn opt_text(o: Option<String>) -> Option<Seq<char>> {
    match o {
        Some(s) => Some(s@),
        None => None,
    }
}

/// One side of a diff: the rows received from its listing, in key order,
/// that the merge has not taken yet.
pub struct DiffSideStream {
    name: String,
    buf: VecDeque<(ObjectKey, ObjectProps)>,
    last_key: Option<String>,
    closed: bool,
    received_batches: usize,
    received_objects: usize,
}

impl DiffSideStream {
    pub closed spec fn name_v(&self) -> Seq<char> {
        self.name@
    }

    pub closed spec fn rows(&self) -> Seq<RowV> {
        rows_v(self.buf@)
    }

    pub closed spec fn last(&self) -> Option<Seq<char>> {
        opt_text(self.last_key)
    }

    pub closed spec fn is_closed(&self) -> bool {
        self.closed
    }

    pub closed spec fn batches(&self) -> usize {
        self.received_batches
    }

    pub closed spec fn objects(&self) -> usize {
        self.received_objects
    }

    /// Whether the merge can take a step on this side: a row is buffered,
    /// or the listing has ended.
    pub open spec fn ready(&self) -> bool {
        self.rows().len() > 0 || self.is_closed()
    }

    pub fn new(name: &str) -> (r: Self)
        ensures
            r.name_v() == name@,
            r.rows().len() == 0,
            r.last() is None,
            !r.is_closed(),
            r.batches() == 0,
            r.objects() == 0,
    {
        DiffSideStream {
            name: crate::text::owned(name),
            buf: VecDeque::new(),
            last_key: None,
            closed: false,
            received_batches: 0,
            received_objects: 0,
        }
    }

    /// Whether the side must receive before the merge can go on.
    pub fn needs_input(&self) -> (r: bool)
        ensures
            r == !self.ready(),
    {
        self.buf.len() == 0 && !self.closed
    }

    /// The listing of this side has ended.
    pub fn close(&mut self)
        ensures
            final(self).is_closed(),
            final(self).rows() == old(self).rows(),
            final(self).last() == old(self).last(),
            final(self).name_v() == old(self).name_v(),
            final(self).batches() == old(self).batches(),
            final(self).objects() == old(self).objects(),
    {
        self.closed = true;
    }

    pub fn received_batches(&self) -> (r: usize)
        ensures
            r == self.batches(),
    {
        self.received_batches
    }

    pub fn received_objects(&self) -> (r: usize)
        ensures
            r == self.objects(),
    {
        self.received_objects
    }

    /// Takes a received batch in, enforcing ascending key order across
    /// batches; an out-of-order key is an error.
    pub fn ingest(&mut self, batch: Vec<(ObjectKey, ObjectProps)>) -> (r: Result<(), String>)
        requires
            old(self).batches() < usize::MAX,
            old(self).objects() + batch.len() <= usize::MAX,
        ensures
            ({
                let st = ingest_rows((old(self).rows(), old(self).last(), None), rows_v(batch@));
                &&& final(self).rows() == st.0
                &&& st.2 is None ==> final(self).last() == st.1
                &&& match st.2 {
                    None => r is Ok,
                    Some(bad) => r is Err && r->Err_0@ == order_error(
                        old(self).name_v(),
                        bad.0,
                        bad.1,
                    ),
                }
            }),
            final(self).is_closed() == old(self).is_closed(),
            final(self).name_v() == old(self).name_v(),
            final(self).batches() == old(self).batches() + 1,
            final(self).objects() == old(self).objects() + batch.len(),
    {
        self.received_batches = self.received_batches + 1;
        self.received_objects = self.received_objects + batch.len();
        let ghost start: SideState = (rows_v(self.buf@), opt_text(self.last_key), None);
        let ghost bv = rows_v(batch@);
        let mut i: usize = 0;
        while i < batch.len()
            invariant
                i <= batch.len(),
                bv == rows_v(batch@),
                start == (old(self).rows(), old(self).last(), None::<(Seq<char>, Seq<char>)>),
                ingest_rows(start, bv.take(i as int)) == (
                    rows_v(self.buf@),
                    opt_text(self.last_key),
                    None::<(Seq<char>, Seq<char>)>,
                ),
                self.name@ == old(self).name_v(),
                self.closed == old(self).is_closed(),
                self.received_batches == old(self).batches() + 1,
                self.received_objects == old(self).objects() + batch.len(),
            decreases batch.len() - i,
        {
            assert(bv.take(i + 1).drop_last() =~= bv.take(i as int));
            let ghost row = bv[i as int];
            assert(bv.take(i + 1).last() == row);
            let k = batch[i].0.as_str();
            let props = batch[i].1;
            let prev = match &self.last_key {
                Some(p) => Some(p.as_str()),
                None => None,
            };
            match key_order(prev, k) {
                KeyOrder::OutOfOrder => {
                    let p = self.last_key.as_ref().unwrap();
                    let mut m: Vec<char> = Vec::new();
                    append_str(&mut m, self.name.as_str());
                    append_str(&mut m, " listing returned keys out of order ('");
                    append_str(&mut m, k);
                    append_str(&mut m, "' after '");
                    append_str(&mut m, p.as_str());
                    append_str(&mut m, "'); diff requires S3 lexicographic ordering");
                    proof {
                        let st1 = ingest_rows(start, bv.take(i + 1));
                        assert(st1.2 == Some((row.0, p@)));
                        lemma_ingest_stuck(start, bv, i + 1);
                        assert(bv.take(batch.len() as int) =~= bv);
                    }
                    let e = string_from_chars(m.as_slice());
                    assert(e@ == m@);
                    return Err(e);
                },
                KeyOrder::Repeat => {
                    let ghost before = self.buf@;
                    if self.buf.len() > 0 {
                        self.buf.pop_back();
                        self.buf.push_back((ObjectKey::from(k), props));
                        assert(rows_v(self.buf@) =~= rows_v(before).update(
                            rows_v(before).len() - 1,
                            row,
                        ));
                    }
                },
                KeyOrder::Ascending => {
                    let ghost before = self.buf@;
                    self.last_key = Some(crate::text::owned(k));
                    self.buf.push_back((ObjectKey::from(k), props));
                    assert(rows_v(self.buf@) =~= rows_v(before).push(row));
                },
            }
            i += 1;
        }
        assert(bv.take(batch.len() as int) =~= bv);
        Ok(())
    }
}

/// Once a violation is recorded, later rows change nothing.
proof fn lemma_ingest_stuck(start: SideState, rows: Seq<RowV>, i: int)
    requires
        0 <= i <= rows.len(),
        ingest_rows(start, rows.take(i)).2 is Some,
    ensures
        ingest_rows(start, rows) == ingest_rows(start, rows.take(i)),
    decreases rows.len() - i,
{
    if i < rows.len() {
        assert(rows.take(i + 1).drop_last() =~= rows.take(i));
        lemma_ingest_stuck(start, rows, i + 1);
    } else {
        assert(rows.take(i) =~= rows);
    }
}

// ── Diff row sink ──────────────────────────────────────────

/// Rows of one flag go to the writer in batches of this many.
pub const DIFF_SINK_FLUSH_ROWS: usize = 8192;

/// The buffer of a row of flag `f`: `+`, `-` and `*` have their own; every
/// other flag is counted as `=`.
pub open spec fn flag_class(f: u8) -> u8 {
    if f == OUTPUT_FLAG_PLUS || f == OUTPUT_FLAG_MINUS || f == OUTPUT_FLAG_ASTRISK {
        f
    } else {
        OUTPUT_FLAG_EQUAL
    }
}

/// The merged rows of a diff, buffered by flag until a batch is full, with
/// the row counters and the per-prefix totals of every merged key.
pub struct DiffRowSink {
    plus_buf: Vec<(ObjectKey, ObjectProps)>,
    minus_buf: Vec<(ObjectKey, ObjectProps)>,
    astrisk_buf: Vec<(ObjectKey, ObjectProps)>,
    equal_buf: Vec<(ObjectKey, ObjectProps)>,
    prefix_stats: PrefixStats,
    merged: usize,
    rows: usize,
    plus: usize,
    minus: usize,
    astrisk: usize,
    equal: usize,
    ignored: usize,
}

/// The sink after merging one key: the key counts under its prefix; a row
/// with a flag is buffered under that flag (and the buffer handed out once
/// it is full), a row without one is counted as ignored.
pub open spec fn sink_after(
    a: DiffRowSink,
    b: DiffRowSink,
    row: RowV,
    flag: Option<u8>,
    out: Option<(Vec<(ObjectKey, ObjectProps)>, u8)>,
) -> bool {
    &&& b.prefixes() == record(a.prefixes(), key_prefix(row.0), 1, row.1.size)
    &&& b.merged_n() == a.merged_n() + 1
    &&& match flag {
        None => {
            &&& b.ignored_n() == a.ignored_n() + 1
            &&& b.rows_n() == a.rows_n()
            &&& forall|g: u8| #[trigger] b.buf_of(g) == a.buf_of(g) && b.count_of(g) == a.count_of(g)
            &&& out is None
        },
        Some(f) => {
            let c = flag_class(f);
            let nb = a.buf_of(c).push(row);
            &&& b.ignored_n() == a.ignored_n()
            &&& b.rows_n() == a.rows_n() + 1
            &&& b.count_of(c) == a.count_of(c) + 1
            &&& forall|g: u8|
                flag_class(g) != c ==> #[trigger] b.buf_of(g) == a.buf_of(g) && b.count_of(g)
                    == a.count_of(g)
            &&& if nb.len() >= DIFF_SINK_FLUSH_ROWS {
                &&& out is Some
                &&& rows_v(out->Some_0.0@) == nb
                &&& out->Some_0.1 == c
                &&& b.buf_of(c).len() == 0
            } else {
                out is None && b.buf_of(c) == nb
            }
        },
    }
}

pub open spec fn nonempty_batch(b: Seq<RowV>, f: u8) -> Seq<(Seq<RowV>, u8)> {
    if b.len() > 0 {
        seq![(b, f)]
    } else {
        Seq::empty()
    }
}

/// The buffered rows still to be written, flag by flag (`+`, `-`, `*`, `=`).
pub open spec fn pending_batches(a: DiffRowSink) -> Seq<(Seq<RowV>, u8)> {
    nonempty_batch(a.buf_of(OUTPUT_FLAG_PLUS), OUTPUT_FLAG_PLUS) + nonempty_batch(
        a.buf_of(OUTPUT_FLAG_MINUS),
        OUTPUT_FLAG_MINUS,
    ) + nonempty_batch(a.buf_of(OUTPUT_FLAG_ASTRISK), OUTPUT_FLAG_ASTRISK) + nonempty_batch(
        a.buf_of(OUTPUT_FLAG_EQUAL),
        OUTPUT_FLAG_EQUAL,
    )
}

pub open spec fn batches_v(v: Seq<(Vec<(ObjectKey, ObjectProps)>, u8)>) -> Seq<(Seq<RowV>, u8)> {
    Seq::new(v.len(), |i: int| (rows_v(v[i].0@), v[i].1))
}

fn push_flush(buf: &mut Vec<(ObjectKey, ObjectProps)>, key: ObjectKey, props: ObjectProps) -> (r:
    Option<Vec<(ObjectKey, ObjectProps)>>)
    ensures
        ({
            let nb = rows_v(old(buf)@).push((key@, props));
            if nb.len() >= DIFF_SINK_FLUSH_ROWS {
                r is Some && rows_v(r->Some_0@) == nb && final(buf)@.len() == 0
            } else {
                r is None && rows_v(final(buf)@) == nb
            }
        }),
{
    let ghost nb = rows_v(buf@).push((key@, props));
    buf.push((key, props));
    assert(rows_v(buf@) =~= nb);
    if buf.len() >= DIFF_SINK_FLUSH_ROWS {
        let mut out: Vec<(ObjectKey, ObjectProps)> = Vec::new();
        std::mem::swap(&mut out, buf);
        Some(out)
    } else {
        None
    }
}

fn take_batch(buf: &mut Vec<(ObjectKey, ObjectProps)>, flag: u8, out: &mut Vec<
    (Vec<(ObjectKey, ObjectProps)>, u8),
>)
    ensures
        final(buf)@.len() == 0,
        batches_v(final(out)@) == batches_v(old(out)@) + nonempty_batch(rows_v(old(buf)@), flag),
{
    let ghost before = out@;
    if buf.len() > 0 {
        let mut b: Vec<(ObjectKey, ObjectProps)> = Vec::new();
        std::mem::swap(&mut b, buf);
        out.push((b, flag));
        assert(batches_v(out@) =~= batches_v(before) + nonempty_batch(rows_v(b@), flag));
    } else {
        assert(batches_v(out@) =~= batches_v(before) + nonempty_batch(rows_v(buf@), flag));
    }
}

impl DiffRowSink {
    #[verifier::type_invariant]
    spec fn inv(&self) -> bool {
        &&& self.plus + self.minus + self.astrisk + self.equal == self.rows
        &&& self.rows + self.ignored == self.merged
        &&& forall|k: Seq<char>| #[trigger]
            self.prefix_stats@.dom().contains(k) ==> self.prefix_stats@[k].objects <= self.merged
    }

    pub closed spec fn buf_of(&self, f: u8) -> Seq<RowV> {
        let c = flag_class(f);
        if c == OUTPUT_FLAG_PLUS {
            rows_v(self.plus_buf@)
        } else if c == OUTPUT_FLAG_MINUS {
            rows_v(self.minus_buf@)
        } else if c == OUTPUT_FLAG_ASTRISK {
            rows_v(self.astrisk_buf@)
        } else {
            rows_v(self.equal_buf@)
        }
    }

    pub closed spec fn count_of(&self, f: u8) -> usize {
        let c = flag_class(f);
        if c == OUTPUT_FLAG_PLUS {
            self.plus
        } else if c == OUTPUT_FLAG_MINUS {
            self.minus
        } else if c == OUTPUT_FLAG_ASTRISK {
            self.astrisk
        } else {
            self.equal
        }
    }

    pub closed spec fn prefixes(&self) -> Map<Seq<char>, PrefixAggregate> {
        self.prefix_stats@
    }

    pub closed spec fn merged_n(&self) -> usize {
        self.merged
    }

    pub closed spec fn rows_n(&self) -> usize {
        self.rows
    }

    pub closed spec fn ignored_n(&self) -> usize {
        self.ignored
    }

    pub fn new() -> (r: Self)
        ensures
            forall|g: u8| #[trigger] r.buf_of(g).len() == 0 && r.count_of(g) == 0,
            r.prefixes() == Map::<Seq<char>, PrefixAggregate>::empty(),
            r.merged_n() == 0,
            r.rows_n() == 0,
            r.ignored_n() == 0,
    {
        DiffRowSink {
            plus_buf: Vec::new(),
            minus_buf: Vec::new(),
            astrisk_buf: Vec::new(),
            equal_buf: Vec::new(),
            prefix_stats: PrefixStats::new(),
            merged: 0,
            rows: 0,
            plus: 0,
            minus: 0,
            astrisk: 0,
            equal: 0,
            ignored: 0,
        }
    }

    /// The number of keys merged so far.
    pub fn merged(&self) -> (r: usize)
        ensures
            r == self.merged_n(),
    {
        self.merged
    }

    /// Counts a merged key under its prefix and buffers its row under
    /// `flag`, or counts it as ignored; returns a full batch to write.
    pub fn accept(&mut self, key: ObjectKey, props: ObjectProps, flag: Option<u8>) -> (r: Option<
        (Vec<(ObjectKey, ObjectProps)>, u8),
    >)
        requires
            old(self).merged_n() < usize::MAX,
        ensures
            sink_after(*old(self), *final(self), (key@, props), flag, r),
    {
        proof {
            use_type_invariant(&*self);
        }
        let mut s = DiffRowSink::new();
        std::mem::swap(&mut s, self);
        proof {
            use_type_invariant(&s);
        }
        let DiffRowSink {
            mut plus_buf,
            mut minus_buf,
            mut astrisk_buf,
            mut equal_buf,
            mut prefix_stats,
            merged,
            rows,
            plus,
            minus,
            astrisk,
            equal,
            ignored,
        } = s;
        let ghost m0 = prefix_stats@;
        let prefix = key.prefix();
        record_prefix_stat(&mut prefix_stats, prefix.as_str(), props.size);
        proof {
            assert forall|k: Seq<char>| #[trigger]
                prefix_stats@.dom().contains(k) implies prefix_stats@[k].objects <= merged + 1 by {
                if k != prefix@ {
                    assert(m0.dom().contains(k));
                }
            }
        }
        let mut n_rows = rows;
        let mut n_plus = plus;
        let mut n_minus = minus;
        let mut n_astrisk = astrisk;
        let mut n_equal = equal;
        let mut n_ignored = ignored;
        let out = match flag {
            None => {
                n_ignored = ignored + 1;
                None
            },
            Some(f) => {
                n_rows = rows + 1;
                if f == OUTPUT_FLAG_PLUS {
                    n_plus = plus + 1;
                    match push_flush(&mut plus_buf, key, props) {
                        Some(b) => Some((b, OUTPUT_FLAG_PLUS)),
                        None => None,
                    }
                } else if f == OUTPUT_FLAG_MINUS {
                    n_minus = minus + 1;
                    match push_flush(&mut minus_buf, key, props) {
                        Some(b) => Some((b, OUTPUT_FLAG_MINUS)),
                        None => None,
                    }
                } else if f == OUTPUT_FLAG_ASTRISK {
                    n_astrisk = astrisk + 1;
                    match push_flush(&mut astrisk_buf, key, props) {
                        Some(b) => Some((b, OUTPUT_FLAG_ASTRISK)),
                        None => None,
                    }
                } else {
                    n_equal = equal + 1;
                    match push_flush(&mut equal_buf, key, props) {
                        Some(b) => Some((b, OUTPUT_FLAG_EQUAL)),
                        None => None,
                    }
                }
            },
        };
        *self = DiffRowSink {
            plus_buf,
            minus_buf,
            astrisk_buf,
            equal_buf,
            prefix_stats,
            merged: merged + 1,
            rows: n_rows,
            plus: n_plus,
            minus: n_minus,
            astrisk: n_astrisk,
            equal: n_equal,
            ignored: n_ignored,
        };
        out
    }

    /// Hands out every buffered row, flag by flag (`+`, `-`, `*`, `=`),
    /// leaving the buffers empty and the counters as they are.
    pub fn flush_all(&mut self) -> (r: Vec<(Vec<(ObjectKey, ObjectProps)>, u8)>)
        ensures
            batches_v(r@) == pending_batches(*old(self)),
            forall|g: u8| #[trigger] final(self).buf_of(g).len() == 0,
            forall|g: u8| #[trigger] final(self).count_of(g) == old(self).count_of(g),
            final(self).prefixes() == old(self).prefixes(),
            final(self).merged_n() == old(self).merged_n(),
            final(self).rows_n() == old(self).rows_n(),
            final(self).ignored_n() == old(self).ignored_n(),
    {
        let mut s = DiffRowSink::new();
        std::mem::swap(&mut s, self);
        proof {
            use_type_invariant(&s);
        }
        let DiffRowSink {
            mut plus_buf,
            mut minus_buf,
            mut astrisk_buf,
            mut equal_buf,
            prefix_stats,
            merged,
            rows,
            plus,
            minus,
            astrisk,
            equal,
            ignored,
        } = s;
        let mut out: Vec<(Vec<(ObjectKey, ObjectProps)>, u8)> = Vec::new();
        assert(batches_v(out@) =~= Seq::<(Seq<RowV>, u8)>::empty());
        take_batch(&mut plus_buf, OUTPUT_FLAG_PLUS, &mut out);
        take_batch(&mut minus_buf, OUTPUT_FLAG_MINUS, &mut out);
        take_batch(&mut astrisk_buf, OUTPUT_FLAG_ASTRISK, &mut out);
        take_batch(&mut equal_buf, OUTPUT_FLAG_EQUAL, &mut out);
        assert(batches_v(out@) =~= pending_batches(*old(self)));
        *self = DiffRowSink {
            plus_buf,
            minus_buf,
            astrisk_buf,
            equal_buf,
            prefix_stats,
            merged,
            rows,
            plus,
            minus,
            astrisk,
            equal,
            ignored,
        };
        out
    }
}

// ── Diff merge steps ───────────────────────────────────────

/// The next step of the merge from the two sides' buffered rows: an empty
/// side is one whose listing has ended.
pub open spec fn step_kind(l: Seq<RowV>, r: Seq<RowV>) -> MergeStep {
    if l.len() == 0 && r.len() == 0 {
        MergeStep::Done
    } else if r.len() == 0 {
        MergeStep::Left
    } else if l.len() == 0 {
        MergeStep::Right
    } else if seq_lt(l[0].0, r[0].0) {
        MergeStep::Left
    } else if seq_lt(r[0].0, l[0].0) {
        MergeStep::Right
    } else {
        MergeStep::Both
    }
}

/// The flag of a key present on both sides (left's metadata first): `*`
/// when the pair differs, none when the filter drops it, `=` otherwise.
pub open spec fn pair_flag(l: ObjectProps, r: ObjectProps, verdict: Option<bool>) -> Option<u8> {
    match match_outcome(l, r, verdict).1 {
        MatchResult::Astrisk => Some(OUTPUT_FLAG_ASTRISK),
        MatchResult::Ignore => None,
        _ => Some(OUTPUT_FLAG_EQUAL),
    }
}

pub open spec fn side_kept(a: DiffSideStream, b: DiffSideStream) -> bool {
    &&& b.name_v() == a.name_v()
    &&& b.last() == a.last()
    &&& b.is_closed() == a.is_closed()
    &&& b.batches() == a.batches()
    &&& b.objects() == a.objects()
}

impl DiffSideStream {
    fn front_key(&self) -> (r: Option<&str>)
        ensures
            match r {
                Some(k) => self.rows().len() > 0 && k@ == self.rows()[0].0,
                None => self.rows().len() == 0,
            },
    {
        if self.buf.len() == 0 {
            None
        } else {
            Some(self.buf[0].0.as_str())
        }
    }

    fn front_props(&self) -> (r: ObjectProps)
        requires
            self.rows().len() > 0,
        ensures
            r == self.rows()[0].1,
    {
        self.buf[0].1
    }

    fn take_front(&mut self) -> (r: (ObjectKey, ObjectProps))
        requires
            old(self).rows().len() > 0,
        ensures
            (r.0@, r.1) == old(self).rows()[0],
            final(self).rows() == old(self).rows().drop_first(),
            side_kept(*old(self), *final(self)),
    {
        let ghost before = self.buf@;
        let r = self.buf.pop_front().unwrap();
        assert(rows_v(self.buf@) =~= rows_v(before).drop_first());
        r
    }
}

/// The metadata pair the filter is asked about when the next step merges
/// one key of both sides: `(left, right)`.
pub fn pending_pair(left: &DiffSideStream, right: &DiffSideStream) -> (r: Option<
    (ObjectProps, ObjectProps),
>)
    requires
        left.ready(),
        right.ready(),
    ensures
        match r {
            Some(p) => step_kind(left.rows(), right.rows()) == MergeStep::Both && p == (
                left.rows()[0].1,
                right.rows()[0].1,
            ),
            None => step_kind(left.rows(), right.rows()) != MergeStep::Both,
        },
{
    if merge_step(left.front_key(), right.front_key()) == MergeStep::Both {
        Some((left.front_props(), right.front_props()))
    } else {
        None
    }
}

/// One step of the diff merge over two ready sides: a key only (or first)
/// on the left is a `+` row, only (or first) on the right a `-` row, a key
/// on both sides takes its pair's flag (`verdict` is the filter's answer for
/// that pair). Returns the step and a full batch for the writer.
pub fn merge_diff_step(
    left: &mut DiffSideStream,
    right: &mut DiffSideStream,
    verdict: Option<bool>,
    sink: &mut DiffRowSink,
) -> (r: (MergeStep, Option<(Vec<(ObjectKey, ObjectProps)>, u8)>))
    requires
        old(left).ready(),
        old(right).ready(),
        old(sink).merged_n() < usize::MAX,
    ensures
        r.0 == step_kind(old(left).rows(), old(right).rows()),
        side_kept(*old(left), *final(left)),
        side_kept(*old(right), *final(right)),
        match r.0 {
            MergeStep::Done => {
                &&& *final(left) == *old(left)
                &&& *final(right) == *old(right)
                &&& *final(sink) == *old(sink)
                &&& r.1 is None
            },
            MergeStep::Left => {
                &&& final(left).rows() == old(left).rows().drop_first()
                &&& final(right).rows() == old(right).rows()
                &&& sink_after(
                    *old(sink),
                    *final(sink),
                    old(left).rows()[0],
                    Some(OUTPUT_FLAG_PLUS),
                    r.1,
                )
            },
            MergeStep::Right => {
                &&& final(left).rows() == old(left).rows()
                &&& final(right).rows() == old(right).rows().drop_first()
                &&& sink_after(
                    *old(sink),
                    *final(sink),
                    old(right).rows()[0],
                    Some(OUTPUT_FLAG_MINUS),
                    r.1,
                )
            },
            MergeStep::Both => {
                &&& final(left).rows() == old(left).rows().drop_first()
                &&& final(right).rows() == old(right).rows().drop_first()
                &&& sink_after(
                    *old(sink),
                    *final(sink),
                    old(left).rows()[0],
                    pair_flag(old(left).rows()[0].1, old(right).rows()[0].1, verdict),
                    r.1,
                )
            },
        },
{
    let step = merge_step(left.front_key(), right.front_key());
    match step {
        MergeStep::Done => (MergeStep::Done, None),
        MergeStep::Left => {
            let (k, p) = left.take_front();
            let out = sink.accept(k, p, Some(OUTPUT_FLAG_PLUS));
            (MergeStep::Left, out)
        },
        MergeStep::Right => {
            let (k, p) = right.take_front();
            let out = sink.accept(k, p, Some(OUTPUT_FLAG_MINUS));
            (MergeStep::Right, out)
        },
        MergeStep::Both => {
            let (k, lp) = left.take_front();
            let (_rk, rp) = right.take_front();
            let mut acc = lp;
            let flag = match acc.match_other(&rp, verdict) {
                MatchResult::Astrisk => Some(OUTPUT_FLAG_ASTRISK),
                MatchResult::Ignore => None,
                _ => Some(OUTPUT_FLAG_EQUAL),
            };
            let out = sink.accept(k, lp, flag);
            (MergeStep::Both, out)
        },
    }
}

// ── The whole diff ─────────────────────────────────────────

/// A merged row: the row (the left one for a key on both sides) and its
/// flag, `None` when the filter drops the pair.
pub type DiffRowV = (RowV, Option<u8>);

/// The rows of the diff of two complete listings, in merge order; `v` is
/// the filter's answer for a pair.
pub open spec fn diff_rows(
    l: Seq<RowV>,
    r: Seq<RowV>,
    v: spec_fn(ObjectProps, ObjectProps) -> Option<bool>,
) -> Seq<DiffRowV>
    decreases l.len() + r.len(),
{
    if l.len() == 0 && r.len() == 0 {
        Seq::empty()
    } else if r.len() == 0 || (l.len() > 0 && seq_lt(l[0].0, r[0].0)) {
        seq![(l[0], Some(OUTPUT_FLAG_PLUS))] + diff_rows(l.drop_first(), r, v)
    } else if l.len() == 0 || seq_lt(r[0].0, l[0].0) {
        seq![(r[0], Some(OUTPUT_FLAG_MINUS))] + diff_rows(l, r.drop_first(), v)
    } else {
        seq![(l[0], pair_flag(l[0].1, r[0].1, v(l[0].1, r[0].1)))] + diff_rows(
            l.drop_first(),
            r.drop_first(),
            v,
        )
    }
}

/// Each merge step on ready sides emits the next row of the diff of the two
/// complete listings, however their rows arrive in batches: `lb` and `rb`
/// are the buffered rows, `lf` and `rf` those still to come (none once a
/// side's listing has ended).
pub proof fn law_merge_step_is_next_diff_row(
    lb: Seq<RowV>,
    lf: Seq<RowV>,
    l_closed: bool,
    rb: Seq<RowV>,
    rf: Seq<RowV>,
    r_closed: bool,
    v: spec_fn(ObjectProps, ObjectProps) -> Option<bool>,
)
    requires
        lb.len() > 0 || l_closed,
        rb.len() > 0 || r_closed,
        l_closed ==> lf.len() == 0,
        r_closed ==> rf.len() == 0,
    ensures
        match step_kind(lb, rb) {
            MergeStep::Done => diff_rows(lb + lf, rb + rf, v).len() == 0,
            MergeStep::Left => diff_rows(lb + lf, rb + rf, v) == seq![
                (lb[0], Some(OUTPUT_FLAG_PLUS)),
            ] + diff_rows(lb.drop_first() + lf, rb + rf, v),
            MergeStep::Right => diff_rows(lb + lf, rb + rf, v) == seq![
                (rb[0], Some(OUTPUT_FLAG_MINUS)),
            ] + diff_rows(lb + lf, rb.drop_first() + rf, v),
            MergeStep::Both => diff_rows(lb + lf, rb + rf, v) == seq![
                (lb[0], pair_flag(lb[0].1, rb[0].1, v(lb[0].1, rb[0].1))),
            ] + diff_rows(lb.drop_first() + lf, rb.drop_first() + rf, v),
        },
{
    let l = lb + lf;
    let r = rb + rf;
    if lb.len() == 0 {
        assert(l =~= Seq::<RowV>::empty());
    } else {
        assert(l[0] == lb[0]);
        assert(l.drop_first() =~= lb.drop_first() + lf);
    }
    if rb.len() == 0 {
        assert(r =~= Seq::<RowV>::empty());
    } else {
        assert(r[0] == rb[0]);
        assert(r.drop_first() =~= rb.drop_first() + rf);
    }
}

pub open spec fn keys_sorted(s: Seq<RowV>) -> bool {
    forall|i: int, j: int| 0 <= i < j < s.len() ==> seq_lt(#[trigger] s[i].0, #[trigger] s[j].0)
}

pub open spec fn has_row_key(s: Seq<RowV>, k: Seq<char>) -> bool {
    exists|i: int| 0 <= i < s.len() && #[trigger] s[i].0 == k
}

/// The presence that a row's flag claims: `+` only on the left, `-` only
/// on the right, anything else on both sides.
pub open spec fn flag_presence(l: Seq<RowV>, r: Seq<RowV>, row: DiffRowV) -> bool {
    let k = row.0.0;
    if row.1 == Some(OUTPUT_FLAG_PLUS) {
        has_row_key(l, k) && !has_row_key(r, k)
    } else if row.1 == Some(OUTPUT_FLAG_MINUS) {
        !has_row_key(l, k) && has_row_key(r, k)
    } else {
        has_row_key(l, k) && has_row_key(r, k)
    }
}

proof fn lemma_sorted_front_absent(s: Seq<RowV>, k: Seq<char>)
    requires
        keys_sorted(s),
        s.len() > 0,
        seq_lt(k, s[0].0),
    ensures
        !has_row_key(s, k),
{
    if has_row_key(s, k) {
        let i = choose|i: int| 0 <= i < s.len() && #[trigger] s[i].0 == k;
        if i == 0 {
            crate::text::lemma_seq_lt_irreflexive(k);
        } else {
            assert(seq_lt(s[0].0, s[i].0));
            crate::text::lemma_seq_lt_asym(k, s[0].0);
        }
    }
}

proof fn lemma_has_key_rest(s: Seq<RowV>, k: Seq<char>)
    requires
        s.len() > 0,
    ensures
        has_row_key(s, k) <==> (s[0].0 == k || has_row_key(s.drop_first(), k)),
{
    if has_row_key(s, k) && s[0].0 != k {
        let i = choose|i: int| 0 <= i < s.len() && #[trigger] s[i].0 == k;
        assert(s.drop_first()[i - 1].0 == k);
    }
    if has_row_key(s.drop_first(), k) {
        let i = choose|i: int| 0 <= i < s.drop_first().len() && #[trigger] s.drop_first()[i].0 == k;
        assert(s[i + 1].0 == k);
    }
    if s[0].0 == k {
        assert(s[0].0 == k);
    }
}

proof fn lemma_sorted_rest_after(s: Seq<RowV>, k: Seq<char>)
    requires
        keys_sorted(s),
        s.len() > 0,
        has_row_key(s.drop_first(), k),
    ensures
        seq_lt(s[0].0, k),
{
    let i = choose|i: int| 0 <= i < s.drop_first().len() && #[trigger] s.drop_first()[i].0 == k;
    assert(s[i + 1].0 == k);
    assert(seq_lt(s[0].0, s[i + 1].0));
}

/// For two listings in strictly ascending key order, each diff row's flag
/// tells where its key is: `1` (+) only on the left, `2` (-) only on the
/// right, `0` (=) or `3` (*) on both sides (as does a pair the filter
/// drops); and every key of either side has a row.
pub proof fn law_diff_flags_tell_presence(
    l: Seq<RowV>,
    r: Seq<RowV>,
    v: spec_fn(ObjectProps, ObjectProps) -> Option<bool>,
)
    requires
        keys_sorted(l),
        keys_sorted(r),
    ensures
        forall|t: int|
            0 <= t < diff_rows(l, r, v).len() ==> flag_presence(l, r, #[trigger] diff_rows(l, r, v)[t]),
        forall|k: Seq<char>|
            has_row_key(l, k) || has_row_key(r, k) ==> exists|t: int|
                0 <= t < diff_rows(l, r, v).len() && #[trigger] diff_rows(l, r, v)[t].0.0 == k,
    decreases l.len() + r.len(),
{
    let d = diff_rows(l, r, v);
    if l.len() == 0 && r.len() == 0 {
        assert forall|k: Seq<char>| has_row_key(l, k) || has_row_key(r, k) implies exists|t: int|
            0 <= t < d.len() && #[trigger] d[t].0.0 == k by {
        }
    } else if r.len() == 0 || (l.len() > 0 && seq_lt(l[0].0, r[0].0)) {
        let l2 = l.drop_first();
        law_diff_flags_tell_presence(l2, r, v);
        let rest = diff_rows(l2, r, v);
        assert(d == seq![(l[0], Some(OUTPUT_FLAG_PLUS))] + rest);
        let k0 = l[0].0;
        if r.len() > 0 {
            lemma_sorted_front_absent(r, k0);
        }
        assert(!has_row_key(r, k0));
        assert(has_row_key(l, k0)) by {
            assert(l[0].0 == k0);
        }
        assert forall|t: int| 0 <= t < d.len() implies flag_presence(l, r, #[trigger] d[t]) by {
            if t > 0 {
                assert(d[t] == rest[t - 1]);
                assert(flag_presence(l2, r, rest[t - 1]));
                let k = d[t].0.0;
                lemma_has_key_rest(l, k);
                if has_row_key(r, k) {
                    assert(k != k0);
                }
            }
        }
        assert forall|k: Seq<char>| has_row_key(l, k) || has_row_key(r, k) implies exists|t: int|
            0 <= t < d.len() && #[trigger] d[t].0.0 == k by {
            lemma_has_key_rest(l, k);
            if k == k0 {
                assert(d[0].0.0 == k);
            } else {
                let t = choose|t: int| 0 <= t < rest.len() && #[trigger] rest[t].0.0 == k;
                assert(d[t + 1].0.0 == k);
            }
        }
    } else if l.len() == 0 || seq_lt(r[0].0, l[0].0) {
        let r2 = r.drop_first();
        law_diff_flags_tell_presence(l, r2, v);
        let rest = diff_rows(l, r2, v);
        assert(d == seq![(r[0], Some(OUTPUT_FLAG_MINUS))] + rest);
        let k0 = r[0].0;
        if l.len() > 0 {
            lemma_sorted_front_absent(l, k0);
        }
        assert(!has_row_key(l, k0));
        assert(has_row_key(r, k0)) by {
            assert(r[0].0 == k0);
        }
        assert forall|t: int| 0 <= t < d.len() implies flag_presence(l, r, #[trigger] d[t]) by {
            if t > 0 {
                assert(d[t] == rest[t - 1]);
                assert(flag_presence(l, r2, rest[t - 1]));
                let k = d[t].0.0;
                lemma_has_key_rest(r, k);
                if has_row_key(l, k) {
                    assert(k != k0);
                }
            }
        }
        assert forall|k: Seq<char>| has_row_key(l, k) || has_row_key(r, k) implies exists|t: int|
            0 <= t < d.len() && #[trigger] d[t].0.0 == k by {
            lemma_has_key_rest(r, k);
            if k == k0 {
                assert(d[0].0.0 == k);
            } else {
                let t = choose|t: int| 0 <= t < rest.len() && #[trigger] rest[t].0.0 == k;
                assert(d[t + 1].0.0 == k);
            }
        }
    } else {
        let l2 = l.drop_first();
        let r2 = r.drop_first();
        law_diff_flags_tell_presence(l2, r2, v);
        let rest = diff_rows(l2, r2, v);
        let f0 = pair_flag(l[0].1, r[0].1, v(l[0].1, r[0].1));
        assert(d == seq![(l[0], f0)] + rest);
        let k0 = l[0].0;
        crate::text::lemma_seq_lt_total(l[0].0, r[0].0);
        assert(r[0].0 == k0);
        assert(has_row_key(l, k0)) by {
            assert(l[0].0 == k0);
        }
        assert(has_row_key(r, k0)) by {
            assert(r[0].0 == k0);
        }
        assert(f0 != Some(OUTPUT_FLAG_PLUS) && f0 != Some(OUTPUT_FLAG_MINUS));
        assert forall|t: int| 0 <= t < d.len() implies flag_presence(l, r, #[trigger] d[t]) by {
            if t > 0 {
                assert(d[t] == rest[t - 1]);
                assert(flag_presence(l2, r2, rest[t - 1]));
                let k = d[t].0.0;
                lemma_has_key_rest(l, k);
                lemma_has_key_rest(r, k);
                if has_row_key(l2, k) {
                    lemma_sorted_rest_after(l, k);
                    if k == k0 {
                        crate::text::lemma_seq_lt_irreflexive(k);
                    }
                }
                if has_row_key(r2, k) {
                    lemma_sorted_rest_after(r, k);
                    if k == k0 {
                        crate::text::lemma_seq_lt_irreflexive(k);
                    }
                }
            }
        }
        assert forall|k: Seq<char>| has_row_key(l, k) || has_row_key(r, k) implies exists|t: int|
            0 <= t < d.len() && #[trigger] d[t].0.0 == k by {
            lemma_has_key_rest(l, k);
            lemma_has_key_rest(r, k);
            if k == k0 {
                assert(d[0].0.0 == k);
            } else {
                let t = choose|t: int| 0 <= t < rest.len() && #[trigger] rest[t].0.0 == k;
                assert(d[t + 1].0.0 == k);
            }
        }
    }
}

/// Two listings that hold the same objects (same keys, sizes and ETags, an
/// ETag on each), the left's rows marked left and the right's marked right,
/// diff to `=` rows only, one per key, when the filter drops no pair.
pub proof fn law_identical_sides_diff_equal(
    l: Seq<RowV>,
    r: Seq<RowV>,
    v: spec_fn(ObjectProps, ObjectProps) -> Option<bool>,
)
    requires
        l.len() == r.len(),
        forall|i: int|
            0 <= i < l.len() ==> {
                let a = #[trigger] l[i];
                let b = r[i];
                &&& a.0 == b.0
                &&& props_is_left(a.1)
                &&& props_is_right(b.1)
                &&& a.1.size == b.1.size
                &&& !etag_missing(a.1)
                &&& !etag_missing(b.1)
                &&& a.1.etag_md5@ == b.1.etag_md5@
                &&& a.1.etag_parts == b.1.etag_parts
                &&& v(a.1, b.1) != Some(false)
            },
    ensures
        diff_rows(l, r, v).len() == l.len(),
        forall|t: int|
            0 <= t < diff_rows(l, r, v).len() ==> (#[trigger] diff_rows(l, r, v)[t]).1 == Some(
                OUTPUT_FLAG_EQUAL,
            ),
    decreases l.len(),
{
    let d = diff_rows(l, r, v);
    if l.len() > 0 {
        let a = l[0];
        let b = r[0];
        assert(a.0 == b.0);
        crate::text::lemma_seq_lt_irreflexive(a.0);
        let l2 = l.drop_first();
        let r2 = r.drop_first();
        assert forall|i: int| 0 <= i < l2.len() implies {
            let a = #[trigger] l2[i];
            let b = r2[i];
            &&& a.0 == b.0
            &&& props_is_left(a.1)
            &&& props_is_right(b.1)
            &&& a.1.size == b.1.size
            &&& !etag_missing(a.1)
            &&& !etag_missing(b.1)
            &&& a.1.etag_md5@ == b.1.etag_md5@
            &&& a.1.etag_parts == b.1.etag_parts
            &&& v(a.1, b.1) != Some(false)
        } by {
            assert(l2[i] == l[i + 1]);
            assert(r2[i] == r[i + 1]);
        }
        law_identical_sides_diff_equal(l2, r2, v);
        let rest = diff_rows(l2, r2, v);
        assert(pair_flag(a.1, b.1, v(a.1, b.1)) == Some(OUTPUT_FLAG_EQUAL));
        assert(d == seq![(a, Some(OUTPUT_FLAG_EQUAL))] + rest);
        assert forall|t: int| 0 <= t < d.len() implies (#[trigger] d[t]).1 == Some(
            OUTPUT_FLAG_EQUAL,
        ) by {
            if t > 0 {
                assert(d[t] == rest[t - 1]);
            }
        }
    }
}

/// The counters of a finished diff merge, and its prefix totals.
#[derive(Debug)]
pub struct DiffMergeOutcome {
    pub rows: usize,
    pub plus: usize,
    pub minus: usize,
    pub astrisk: usize,
    pub equal: usize,
    pub ignored: usize,
    pub received_batches: usize,
    pub received_objects: usize,
    pub bytes_total: u64,
    pub prefix_stats: PrefixStats,
}

/// The bytes of every prefix, summed (saturating).
pub open spec fn bytes_sum(es: Seq<(Seq<char>, PrefixAggregate)>) -> u64
    decreases es.len(),
{
    if es.len() == 0 {
        0
    } else {
        bytes_sum(es.drop_last()).saturating_add(es.last().1.bytes)
    }
}

pub fn bytes_total(stats: &PrefixStats) -> (r: u64)
    ensures
        r == bytes_sum(stats.entries_v()),
{
    let es = stats.entries();
    let ghost v = stats.entries_v();
    let mut acc: u64 = 0;
    let mut i: usize = 0;
    while i < es.len()
        invariant
            i <= es.len(),
            es@.len() == v.len(),
            forall|j: int| 0 <= j < es@.len() ==> (#[trigger] es@[j]).1 == v[j].1,
            acc == bytes_sum(v.take(i as int)),
        decreases es.len() - i,
    {
        assert(v.take(i + 1).drop_last() =~= v.take(i as int));
        acc = acc.saturating_add(es[i].1.bytes);
        i += 1;
    }
    assert(v.take(es.len() as int) =~= v);
    acc
}

impl DiffRowSink {
    /// The counters of the finished merge, with both sides' receive counts.
    pub fn finish(self, left: &DiffSideStream, right: &DiffSideStream) -> (r: DiffMergeOutcome)
        requires
            left.batches() + right.batches() <= usize::MAX,
            left.objects() + right.objects() <= usize::MAX,
        ensures
            r.rows == self.rows_n(),
            r.plus == self.count_of(OUTPUT_FLAG_PLUS),
            r.minus == self.count_of(OUTPUT_FLAG_MINUS),
            r.astrisk == self.count_of(OUTPUT_FLAG_ASTRISK),
            r.equal == self.count_of(OUTPUT_FLAG_EQUAL),
            r.ignored == self.ignored_n(),
            r.received_batches == left.batches() + right.batches(),
            r.received_objects == left.objects() + right.objects(),
            r.prefix_stats@ == self.prefixes(),
            r.bytes_total == bytes_sum(r.prefix_stats.entries_v()),
    {
        proof {
            use_type_invariant(&self);
        }
        let DiffRowSink { prefix_stats, rows, plus, minus, astrisk, equal, ignored, .. } = self;
        let bytes = bytes_total(&prefix_stats);
        DiffMergeOutcome {
            rows,
            plus,
            minus,
            astrisk,
            equal,
            ignored,
            received_batches: left.received_batches() + right.received_batches(),
            received_objects: left.received_objects() + right.received_objects(),
            bytes_total: bytes,
            prefix_stats,
        }
    }
}

impl DiffMergeOutcome {
    pub fn unique_prefixes(&self) -> (r: usize)
        ensures
            r == self.prefix_stats.entries_v().len(),
    {
        self.prefix_stats.len()
    }
}

} // verus!
