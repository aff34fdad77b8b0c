//! Automatic key-space hints: the decisions of startup structural
//! discovery (a bounded breadth-first walk of delimiter probes) and of
//! flat-namespace bisection (single-key probes). The probes themselves are
//! requests; the caller issues them and hands the replies back.
use crate::hints::{sorted_unique, strictly_sorted};
use crate::text::{owned, seq_lt, str_chars, strings_view};
use vstd::prelude::*;

verus! {

/// Maximum depth of the startup discovery walk.
pub const STARTUP_DISCOVERY_MAX_DEPTH: usize = 3;

/// Maximum delimiter probes per level of the walk.
pub const STARTUP_DISCOVERY_MAX_PROBES_PER_LEVEL: usize = 64;

/// The state of a startup discovery walk: the common prefixes found so far,
/// the prefixes still to probe, and the number of levels probed.
#[derive(Debug, Clone)]
pub struct StartupDiscovery {
    pub found: Vec<String>,
    pub frontier: Vec<String>,
    pub depth: usize,
    pub target: usize,
}

/// How many distinct boundaries have been found.
pub open spec fn distinct_count(found: Seq<String>) -> nat {
    strings_view(found).to_set().len()
}

/// Whether the walk is over: all levels probed, nothing left to probe, or
/// enough boundaries found.
pub open spec fn walk_done(d: StartupDiscovery) -> bool {
    d.depth >= STARTUP_DISCOVERY_MAX_DEPTH || d.frontier.len() == 0 || distinct_count(d.found@)
        >= d.target
}

fn clone_strings_upto(v: &Vec<String>, n: usize) -> (r: Vec<String>)
    requires
        n <= v.len(),
    ensures
        strings_view(r@) == strings_view(v@).take(n as int),
{
    let mut out: Vec<String> = Vec::new();
    let mut i: usize = 0;
    while i < n
        invariant
            i <= n,
            n <= v.len(),
            strings_view(out@) == strings_view(v@).take(i as int),
        decreases n - i,
    {
        let ghost before = out@;
        out.push(owned(v[i].as_str()));
        assert(strings_view(out@) =~= strings_view(before).push(v@[i as int]@));
        assert(strings_view(v@).take(i + 1) =~= strings_view(v@).take(i as int).push(v@[i as int]@));
        i += 1;
    }
    out
}

proof fn lemma_strictly_sorted_no_dups(s: Seq<Seq<char>>)
    requires
        strictly_sorted(s),
    ensures
        s.no_duplicates(),
{
    assert forall|i: int, j: int| 0 <= i < s.len() && 0 <= j < s.len() && i != j implies s[i]
        != s[j] by {
        if i < j {
            crate::text::lemma_seq_lt_irreflexive(s[i]);
        } else {
            crate::text::lemma_seq_lt_irreflexive(s[j]);
        }
    }
}

/// The distinct boundaries found so far, in order.
fn distinct_sorted(found: &Vec<String>) -> (r: Vec<String>)
    ensures
        strictly_sorted(strings_view(r@)),
        strings_view(r@).to_set() == strings_view(found@).to_set(),
        r.len() == distinct_count(found@),
{
    let r = sorted_unique(found.as_slice());
    proof {
        assert(strings_view(r@).to_set() =~= strings_view(found@).to_set());
        lemma_strictly_sorted_no_dups(strings_view(r@));
        strings_view(r@).unique_seq_to_set();
    }
    r
}

impl StartupDiscovery {
    /// A walk from the listing prefix that stops once `target` boundaries
    /// are found.
    pub fn new(prefix: &str, target: usize) -> (r: Self)
        ensures
            r.found@.len() == 0,
            strings_view(r.frontier@) == seq![prefix@],
            r.depth == 0,
            r.target == target,
    {
        let mut frontier: Vec<String> = Vec::new();
        frontier.push(owned(prefix));
        assert(strings_view(frontier@) =~= seq![prefix@]);
        StartupDiscovery { found: Vec::new(), frontier, depth: 0, target }
    }

    /// The prefixes to probe at the next level: the first
    /// `STARTUP_DISCOVERY_MAX_PROBES_PER_LEVEL` of the frontier, which is
    /// then emptied; `None` once the walk is over.
    pub fn next_level(&mut self) -> (r: Option<Vec<String>>)
        ensures
            walk_done(*old(self)) ==> r is None && *final(self) == *old(self),
            !walk_done(*old(self)) ==> {
                &&& r is Some
                &&& strings_view(r->Some_0@) == strings_view(old(self).frontier@).take(
                    if old(self).frontier.len() < STARTUP_DISCOVERY_MAX_PROBES_PER_LEVEL {
                        old(self).frontier.len() as int
                    } else {
                        STARTUP_DISCOVERY_MAX_PROBES_PER_LEVEL as int
                    },
                )
                &&& final(self).frontier@.len() == 0
                &&& final(self).depth == old(self).depth + 1
                &&& final(self).found == old(self).found
                &&& final(self).target == old(self).target
            },
    {
        if self.depth >= STARTUP_DISCOVERY_MAX_DEPTH || self.frontier.len() == 0 {
            return None;
        }
        let distinct = distinct_sorted(&self.found);
        if distinct.len() >= self.target {
            return None;
        }
        let n = if self.frontier.len() < STARTUP_DISCOVERY_MAX_PROBES_PER_LEVEL {
            self.frontier.len()
        } else {
            STARTUP_DISCOVERY_MAX_PROBES_PER_LEVEL
        };
        let level = clone_strings_upto(&self.frontier, n);
        self.frontier = Vec::new();
        self.depth = self.depth + 1;
        Some(level)
    }

    /// Records a successful probe's common prefixes: each is a boundary and
    /// is probed at the next level. A failed probe records nothing.
    pub fn record(&mut self, children: &Vec<String>)
        ensures
            strings_view(final(self).found@) == strings_view(old(self).found@) + strings_view(
                children@,
            ),
            strings_view(final(self).frontier@) == strings_view(old(self).frontier@)
                + strings_view(children@),
            final(self).depth == old(self).depth,
            final(self).target == old(self).target,
    {
        let mut i: usize = 0;
        let ghost f0 = strings_view(self.found@);
        let ghost r0 = strings_view(self.frontier@);
        while i < children.len()
            invariant
                i <= children.len(),
                strings_view(self.found@) == f0 + strings_view(children@).take(i as int),
                strings_view(self.frontier@) == r0 + strings_view(children@).take(i as int),
                self.depth == old(self).depth,
                self.target == old(self).target,
            decreases children.len() - i,
        {
            let ghost fb = self.found@;
            let ghost rb = self.frontier@;
            self.found.push(owned(children[i].as_str()));
            self.frontier.push(owned(children[i].as_str()));
            assert(strings_view(self.found@) =~= strings_view(fb).push(children@[i as int]@));
            assert(strings_view(self.frontier@) =~= strings_view(rb).push(children@[i as int]@));
            assert(strings_view(children@).take(i + 1) =~= strings_view(children@).take(
                i as int,
            ).push(children@[i as int]@));
            i += 1;
        }
        assert(strings_view(children@).take(children.len() as int) =~= strings_view(children@));
    }

    /// The boundaries found, sorted and without duplicates; empty means no
    /// structure was found and the run uses a single segment.
    pub fn boundaries(&self) -> (r: Vec<String>)
        ensures
            strictly_sorted(strings_view(r@)),
            strings_view(r@).to_set() == strings_view(self.found@).to_set(),
    {
        distinct_sorted(&self.found)
    }
}

// ── Flat-namespace bisection ───────────────────────────────

/// A range still to bisect: a real key it starts at, and an exclusive end
/// (none: open to the tail).
pub type FlatRange = (String, Option<String>);

/// The state of a flat bisection. Each probe asks for the first key strictly
/// after a position (or the first key of all); the replies are recorded in
/// order.
#[derive(Debug, Clone)]
pub struct FlatDiscovery {
    pub prefix: String,
    pub target: usize,
    /// The cuts found; each is a real key strictly inside the range it cut.
    pub found: Vec<String>,
    /// Whether the first key has been asked for.
    pub started: bool,
    /// The ranges of the current level, and the one being bisected.
    pub frontier: Vec<FlatRange>,
    pub pos: usize,
    /// The ranges of the next level.
    pub next: Vec<FlatRange>,
    /// The cut candidates of the current range, and the next one to try.
    pub candidates: Vec<String>,
    pub cand_pos: usize,
    /// The walk has ended.
    pub done: bool,
}

/// A key strictly inside `(start, end)`.
pub open spec fn inside(k: Seq<char>, start: Seq<char>, end: Option<Seq<char>>) -> bool {
    seq_lt(start, k) && match end {
        Some(e) => seq_lt(k, e),
        None => true,
    }
}

/// What every state of the bisection keeps: at most `target` cuts, and the
/// cursor positions within their lists.
pub open spec fn flat_ok(d: FlatDiscovery) -> bool {
    &&& d.found.len() <= d.target
    &&& d.pos <= d.frontier.len()
    &&& d.cand_pos <= d.candidates.len()
}

/// A range by its characters.
pub open spec fn range_view(r: FlatRange) -> (Seq<char>, Option<Seq<char>>) {
    (r.0@, match r.1 {
        Some(e) => Some(e@),
        None => None,
    })
}

pub open spec fn ranges_view(s: Seq<FlatRange>) -> Seq<(Seq<char>, Option<Seq<char>>)> {
    s.map_values(|r: FlatRange| range_view(r))
}

/// Recording `reply` takes the bisection from `d` to `e`. Once ended, nothing
/// changes. The first reply is the first key: it opens the range from it to
/// the tail, or, absent, ends the walk. Later, a reply strictly inside the
/// range being bisected, while cuts are still wanted, is a cut: it is kept,
/// splits the range in two for the next level, and the walk moves to the next
/// range; any other reply passes over the candidate that was tried.
pub open spec fn flat_recorded(d: FlatDiscovery, reply: Option<String>, e: FlatDiscovery) -> bool {
    if d.done {
        e == d
    } else if !d.started {
        &&& e.started
        &&& e.prefix == d.prefix
        &&& e.target == d.target
        &&& e.found == d.found
        &&& match reply {
            Some(k) => {
                &&& !e.done
                &&& ranges_view(e.frontier@) == seq![(k@, None::<Seq<char>>)]
                &&& e.pos == 0
                &&& e.next@.len() == 0
                &&& e.candidates@.len() == 0
                &&& e.cand_pos == 0
            },
            None => {
                &&& e.done
                &&& e.frontier == d.frontier
                &&& e.pos == d.pos
                &&& e.next == d.next
                &&& e.candidates == d.candidates
                &&& e.cand_pos == d.cand_pos
            },
        }
    } else if d.pos >= d.frontier.len() || d.cand_pos >= d.candidates.len() {
        e == d
    } else {
        let cur = range_view(d.frontier@[d.pos as int]);
        let cut = reply is Some && inside(reply->Some_0@, cur.0, cur.1) && d.found.len()
            < d.target;
        &&& e.prefix == d.prefix
        &&& e.target == d.target
        &&& e.started == d.started
        &&& e.done == d.done
        &&& e.frontier == d.frontier
        &&& if cut {
            &&& e.found@ == d.found@.push(reply->Some_0)
            &&& ranges_view(e.next@) == ranges_view(d.next@) + seq![
                (cur.0, Some(reply->Some_0@)),
                (reply->Some_0@, cur.1),
            ]
            &&& e.pos == d.pos + 1
            &&& e.candidates@.len() == 0
            &&& e.cand_pos == 0
        } else {
            &&& e.found == d.found
            &&& e.next == d.next
            &&& e.pos == d.pos
            &&& e.candidates == d.candidates
            &&& e.cand_pos == d.cand_pos + 1
        }
    }
}

fn opt_clone(o: &Option<String>) -> (r: Option<String>)
    ensures
        match (r, *o) {
            (Some(a), Some(b)) => a@ == b@,
            (None, None) => true,
            _ => false,
        },
{
    match o {
        Some(s) => Some(owned(s.as_str())),
        None => None,
    }
}

fn opt_as_str(o: &Option<String>) -> (r: Option<&str>)
    ensures
        match (r, *o) {
            (Some(a), Some(b)) => a@ == b@,
            (None, None) => true,
            _ => false,
        },
{
    match o {
        Some(s) => Some(s.as_str()),
        None => None,
    }
}

impl FlatDiscovery {
    pub fn new(prefix: &str, target: usize) -> (r: Self)
        ensures
            r.prefix@ == prefix@,
            r.target == target,
            r.found@.len() == 0,
            !r.started,
            r.done == (target == 0),
            flat_ok(r),
    {
        FlatDiscovery {
            prefix: owned(prefix),
            target,
            found: Vec::new(),
            started: false,
            frontier: Vec::new(),
            pos: 0,
            next: Vec::new(),
            candidates: Vec::new(),
            cand_pos: 0,
            done: target == 0,
        }
    }

    /// Moves to the next range that still has candidates to try, starting
    /// a new level when the current one is exhausted; ends the walk when
    /// enough cuts are found or nothing is left to bisect.
    fn advance(&mut self)
        requires
            flat_ok(*old(self)),
        ensures
            flat_ok(*final(self)),
            final(self).found == old(self).found,
            final(self).target == old(self).target,
            final(self).prefix == old(self).prefix,
            final(self).started == old(self).started,
            !final(self).done ==> final(self).cand_pos < final(self).candidates.len()
                && final(self).pos < final(self).frontier.len(),
            old(self).done ==> final(self).done,
    {
        loop
            invariant
                flat_ok(*self),
                self.found == old(self).found,
                self.target == old(self).target,
                self.prefix == old(self).prefix,
                self.started == old(self).started,
                old(self).done ==> self.done,
            decreases
                (if self.next.len() > 0 {
                    1int
                } else {
                    0int
                }),
                self.frontier.len() - self.pos,
                (if self.candidates.len() == 0 {
                    1int
                } else {
                    0int
                }),
        {
            if self.done {
                return;
            }
            if self.found.len() >= self.target {
                self.done = true;
                return;
            }
            if self.cand_pos < self.candidates.len() && self.pos < self.frontier.len() {
                return;
            }
            if self.cand_pos >= self.candidates.len() && self.candidates.len() > 0 {
                // The current range had no cut: move past it.
                self.pos = if self.pos < self.frontier.len() {
                    self.pos + 1
                } else {
                    self.pos
                };
                self.candidates = Vec::new();
                self.cand_pos = 0;
            }
            if self.pos < self.frontier.len() {
                let start = owned(self.frontier[self.pos].0.as_str());
                let end = opt_as_str(&self.frontier[self.pos].1);
                let c = crate::tasks_s3::flat_cut_candidates(
                    start.as_str(),
                    self.prefix.as_str(),
                    end,
                );
                if c.len() == 0 {
                    self.pos = self.pos + 1;
                } else {
                    self.candidates = c;
                    self.cand_pos = 0;
                }
            } else if self.next.len() == 0 {
                self.done = true;
                return;
            } else {
                let mut n: Vec<FlatRange> = Vec::new();
                std::mem::swap(&mut n, &mut self.next);
                self.frontier = n;
                self.pos = 0;
                self.candidates = Vec::new();
                self.cand_pos = 0;
            }
        }
    }

    /// The next probe: `Some(None)` asks for the first key, `Some(Some(k))`
    /// for the first key after `k`; `None` when the walk is over.
    pub fn next_probe(&mut self) -> (r: Option<Option<String>>)
        requires
            flat_ok(*old(self)),
        ensures
            flat_ok(*final(self)),
            final(self).found == old(self).found,
            final(self).target == old(self).target,
            r is None <==> final(self).done,
            !old(self).started && !old(self).done ==> r == Some(None::<String>),
    {
        if self.done {
            return None;
        }
        if !self.started {
            return Some(None);
        }
        self.advance();
        if self.done {
            return None;
        }
        Some(Some(owned(self.candidates[self.cand_pos].as_str())))
    }

    /// Records the reply to the probe `next_probe` gave last: the key found,
    /// or `None` for no key or a failed probe.
    pub fn record(&mut self, reply: Option<String>)
        requires
            flat_ok(*old(self)),
        ensures
            flat_ok(*final(self)),
            flat_recorded(*old(self), reply, *final(self)),
    {
        if self.done {
            return;
        }
        if !self.started {
            self.started = true;
            match reply {
                Some(k) => {
                    let mut f: Vec<FlatRange> = Vec::new();
                    f.push((k, None));
                    assert(ranges_view(f@) =~= seq![(reply->Some_0@, None::<Seq<char>>)]);
                    self.frontier = f;
                    self.pos = 0;
                    self.next = Vec::new();
                    self.candidates = Vec::new();
                    self.cand_pos = 0;
                },
                None => {
                    self.done = true;
                },
            }
            return;
        }
        if self.pos >= self.frontier.len() || self.cand_pos >= self.candidates.len() {
            return;
        }
        let is_cut = match &reply {
            Some(k) => {
                let kc = str_chars(k.as_str());
                let sc = str_chars(self.frontier[self.pos].0.as_str());
                let after_start = crate::text::compare_chars(sc.as_slice(), kc.as_slice()) == -1;
                let before_end = match &self.frontier[self.pos].1 {
                    Some(e) => {
                        let ec = str_chars(e.as_str());
                        crate::text::compare_chars(kc.as_slice(), ec.as_slice()) == -1
                    },
                    None => true,
                };
                after_start && before_end
            },
            None => false,
        };
        if is_cut && self.found.len() < self.target {
            let k = match reply {
                Some(k) => k,
                None => owned(""),
            };
            let start = owned(self.frontier[self.pos].0.as_str());
            let end = opt_clone(&self.frontier[self.pos].1);
            let ghost next0 = self.next@;
            self.next.push((start, Some(owned(k.as_str()))));
            self.next.push((owned(k.as_str()), end));
            proof {
                let cur = range_view(self.frontier@[self.pos as int]);
                assert(ranges_view(self.next@) =~= ranges_view(next0) + seq![
                    (cur.0, Some(k@)),
                    (k@, cur.1),
                ]);
            }
            self.found.push(k);
            self.pos = self.pos + 1;
            self.candidates = Vec::new();
            self.cand_pos = 0;
        } else {
            self.cand_pos = self.cand_pos + 1;
        }
    }

    /// The cuts found, sorted and without duplicates: the boundaries of the
    /// partition; empty for an empty or uncuttable range.
    pub fn boundaries(&self) -> (r: Vec<String>)
        ensures
            strictly_sorted(strings_view(r@)),
            strings_view(r@).to_set() == strings_view(self.found@).to_set(),
    {
        distinct_sorted(&self.found)
    }
}


// ── When and how far to discover ───────────────────────────

pub open spec fn clamp_spec(x: int, lo: int, hi: int) -> int {
    if x < lo {
        lo
    } else if x > hi {
        hi
    } else {
        x
    }
}

/// Boundaries that startup discovery aims for: twice the concurrency
/// (saturating), between 16 and 512.
pub fn startup_discovery_target(concurrency: usize) -> (r: usize)
    ensures
        r == clamp_spec(if 2 * concurrency > usize::MAX {
            usize::MAX as int
        } else {
            2 * concurrency
        }, 16, 512),
{
    let doubled = if concurrency > usize::MAX / 2 {
        usize::MAX
    } else {
        concurrency * 2
    };
    if doubled < 16 {
        16
    } else if doubled > 512 {
        512
    } else {
        doubled
    }
}

/// Boundaries that flat bisection aims for: the concurrency, between 8
/// and 64 (each cut costs a probe, and only that many segments run at once).
pub fn flat_discovery_target(concurrency: usize) -> (r: usize)
    ensures
        r == clamp_spec(concurrency as int, 8, 64),
{
    if concurrency < 8 {
        8
    } else if concurrency > 64 {
        64
    } else {
        concurrency
    }
}

pub open spec fn is_bos(profile: Option<Seq<char>>) -> bool {
    profile == Some("bos"@)
}

fn profile_is_bos(profile: Option<&str>) -> (r: bool)
    ensures
        r == is_bos(match profile {
            Some(p) => Some(p@),
            None => None,
        }),
{
    match profile {
        Some(p) => crate::text::str_eq(p, "bos"),
        None => false,
    }
}

/// Whether a list run probes the bucket's structure at startup: only when
/// no hints were loaded, automatic hints are on, the listing is recursive,
/// and nothing pins a single chain (a hints file, a continuation token, a
/// start-after key); never for BOS, whose start-after and continuation
/// tokens do not combine.
pub fn list_discovery_applies(
    have_hints: bool,
    no_auto_hints: bool,
    profile: Option<&str>,
    hints_file: bool,
    delimiter: &str,
    continuation_token: bool,
    start_after: bool,
) -> (r: bool)
    ensures
        r == (!have_hints && !no_auto_hints && !is_bos(match profile {
            Some(p) => Some(p@),
            None => None,
        }) && !hints_file && delimiter@.len() == 0 && !continuation_token && !start_after),
{
    !have_hints && !no_auto_hints && !profile_is_bos(profile) && !hints_file && delimiter.unicode_len()
        == 0 && !continuation_token && !start_after
}

/// Whether a diff side looks for cached hints or discovers its structure;
/// otherwise it lists as one segment.
pub fn diff_side_discovery_applies(
    no_auto_hints: bool,
    delimiter: &str,
    profile: Option<&str>,
    start_after: bool,
) -> (r: bool)
    ensures
        r == (!no_auto_hints && delimiter@.len() == 0 && !is_bos(match profile {
            Some(p) => Some(p@),
            None => None,
        }) && !start_after),
{
    !no_auto_hints && delimiter.unicode_len() == 0 && !profile_is_bos(profile) && !start_after
}

} // verus!
