//! The decisions of the list reactor: which segment starts next, what a
//! finished segment records, which running segment is probed for a split,
//! and which probed key is taken as a flat cut. The application runs the
//! loop, the requests and the tasks around them.
use crate::config::{opt_owned, opt_string_v};
use crate::objects::{hints_after_finish, hints_after_next, opt_str_v, KeySpaceHints};
use crate::tasks_s3::{flat_cut_candidates, flat_cuts, is_strictly_inside, strictly_inside, SplitRange};
use crate::text::{owned, strings_view};
use vstd::prelude::*;
use vstd::string::StringSliceAdditionalSpecFns;

verus! {

/// A segment to start: its index and range, and whether its completion is
/// recorded in the checkpoint (only segments of the original hints are).
#[derive(Debug, Clone)]
pub struct Launch {
    pub index: usize,
    pub start: String,
    pub end: Option<String>,
    pub checkpointable: bool,
}

/// The next segment to start: split children first, the most recent one
/// first, each under the next fresh index and never checkpointed; then the
/// pending hint segments in order; `None` when neither is left.
pub fn next_launch(children: &mut Vec<SplitRange>, next_child: &mut usize, hints: &mut KeySpaceHints) -> (r:
    Option<Launch>)
    requires
        *old(next_child) < usize::MAX,
    ensures
        old(children)@.len() > 0 ==> {
            let c = old(children)@.last();
            &&& r is Some
            &&& r->0.index == *old(next_child)
            &&& r->0.start@ == c.start@
            &&& opt_string_v(r->0.end) == opt_string_v(c.end)
            &&& !r->0.checkpointable
            &&& final(children)@ == old(children)@.drop_last()
            &&& *final(next_child) == *old(next_child) + 1
            &&& final(hints)@ == old(hints)@
        },
        old(children)@.len() == 0 ==> {
            &&& final(children)@ == old(children)@
            &&& *final(next_child) == *old(next_child)
            &&& final(hints)@ == hints_after_next(old(hints)@)
            &&& match r {
                Some(l) => {
                    &&& old(hints)@.0.len() > 0
                    &&& (l.index, l.start@, opt_str_v(l.end)) == old(hints)@.0[0]
                    &&& l.checkpointable
                },
                None => old(hints)@.0.len() == 0,
            }
        },
{
    match children.pop() {
        Some(child) => {
            let index = *next_child;
            *next_child = index + 1;
            Some(Launch { index, start: child.start, end: child.end, checkpointable: false })
        },
        None => match hints.next() {
            Some(pair) => Some(
                Launch { index: pair.index, start: pair.start, end: pair.end, checkpointable: true },
            ),
            None => None,
        },
    }
}

/// A segment has finished (`ok`: without a fatal error). A hint segment
/// that finished well is marked done in the hints, and its index is
/// returned for the checkpoint unless it gave part of its range to a split
/// child; anything else changes nothing and records nothing.
pub fn segment_finished(
    hints: &mut KeySpaceHints,
    index: usize,
    ok: bool,
    checkpointable: bool,
    was_split: bool,
) -> (r: Option<usize>)
    ensures
        r == (if ok && checkpointable && !was_split {
            Some(index)
        } else {
            None::<usize>
        }),
        final(hints)@ == (if ok && checkpointable {
            hints_after_finish(old(hints)@, index)
        } else {
            old(hints)@
        }),
{
    if ok && checkpointable {
        hints.finish(index);
        if !was_split {
            return Some(index);
        }
    }
    None
}

/// Whether a split probe may start: splitting allowed, a free task slot,
/// and no split child or hint segment waiting.
pub open spec fn probe_allowed(
    can_split: bool,
    running: usize,
    concurrency: usize,
    children_empty: bool,
    hints_empty: bool,
) -> bool {
    can_split && running < concurrency && children_empty && hints_empty
}

/// Position `k` holds a split candidate with the most pages of all the
/// candidates, and every candidate before it has fewer.
pub open spec fn is_probe_pick(c: Seq<(usize, bool, u32)>, k: int) -> bool {
    &&& 0 <= k < c.len()
    &&& c[k].1
    &&& forall|j: int| 0 <= j < c.len() && c[j].1 ==> c[j].2 <= c[k].2
    &&& forall|j: int| 0 <= j < k && c[j].1 ==> c[j].2 < c[k].2
}

/// The running segment to probe for a split, given each running segment as
/// (index, whether it is a split candidate, pages listed): where probing is
/// allowed, the first candidate with the most pages; `None` where probing
/// is not allowed or no segment is a candidate.
pub fn split_probe_target(
    can_split: bool,
    running: usize,
    concurrency: usize,
    children_empty: bool,
    hints_empty: bool,
    candidates: &[(usize, bool, u32)],
) -> (r: Option<usize>)
    ensures
        match r {
            Some(index) => probe_allowed(can_split, running, concurrency, children_empty, hints_empty)
                && exists|k: int| is_probe_pick(candidates@, k) && candidates@[k].0 == index,
            None => !probe_allowed(can_split, running, concurrency, children_empty, hints_empty)
                || forall|k: int| 0 <= k < candidates@.len() ==> !(#[trigger] candidates@[k]).1,
        },
{
    if !(can_split && running < concurrency && children_empty && hints_empty) {
        return None;
    }
    let mut best: Option<usize> = None;
    let mut i: usize = 0;
    while i < candidates.len()
        invariant
            i <= candidates@.len(),
            match best {
                Some(b) => {
                    &&& b < i
                    &&& candidates@[b as int].1
                    &&& forall|j: int| 0 <= j < i && candidates@[j].1 ==> candidates@[j].2
                        <= candidates@[b as int].2
                    &&& forall|j: int| 0 <= j < b && candidates@[j].1 ==> candidates@[j].2
                        < candidates@[b as int].2
                },
                None => forall|j: int| 0 <= j < i ==> !(#[trigger] candidates@[j]).1,
            },
        decreases candidates@.len() - i,
    {
        let (_, is_candidate, pages) = candidates[i];
        if is_candidate {
            match best {
                Some(b) => {
                    if pages > candidates[b].2 {
                        best = Some(i);
                    }
                },
                None => {
                    best = Some(i);
                },
            }
        }
        i += 1;
    }
    match best {
        Some(b) => {
            assert(is_probe_pick(candidates@, b as int));
            Some(candidates[b].0)
        },
        None => None,
    }
}

/// A flat cut probe: the candidates of a range after `cursor` up to `end`,
/// tried in order; the first key listed after a candidate that lies
/// strictly inside the range is the cut.
pub struct FlatCutProbe {
    pub cursor: String,
    pub end: Option<String>,
    pub candidates: Vec<String>,
    pub pos: usize,
}

impl FlatCutProbe {
    pub fn new(cursor: &str, listing_prefix: &str, end: Option<&str>) -> (r: Self)
        ensures
            r.cursor@ == cursor@,
            opt_string_v(r.end) == opt_owned(end),
            strings_view(r.candidates@) == flat_cuts(
                cursor@,
                listing_prefix.spec_bytes().len() as int,
                opt_owned(end),
            ),
            r.pos == 0,
    {
        let candidates = flat_cut_candidates(cursor, listing_prefix, end);
        let end_owned = match end {
            Some(e) => Some(owned(e)),
            None => None,
        };
        FlatCutProbe { cursor: owned(cursor), end: end_owned, candidates, pos: 0 }
    }

    /// The candidate to list after next; `None` when all were tried or a cut
    /// was found.
    pub fn next_candidate(&self) -> (r: Option<String>)
        ensures
            match r {
                Some(c) => self.pos < self.candidates@.len() && c@ == self.candidates@[self.pos as int]@,
                None => self.pos >= self.candidates@.len(),
            },
    {
        if self.pos < self.candidates.len() {
            Some(owned(self.candidates[self.pos].as_str()))
        } else {
            None
        }
    }

    /// Takes the first key listed after the current candidate: a key
    /// strictly inside the range is the cut and ends the probe; anything
    /// else moves on to the next candidate.
    pub fn record(&mut self, key: Option<&str>) -> (r: Option<String>)
        requires
            old(self).pos < old(self).candidates@.len(),
        ensures
            final(self).cursor == old(self).cursor,
            final(self).end == old(self).end,
            final(self).candidates == old(self).candidates,
            match key {
                Some(k) => strictly_inside(k@, old(self).cursor@, opt_string_v(old(self).end)),
                None => false,
            } ==> {
                &&& r is Some
                &&& r->0@ == key->0@
                &&& final(self).pos == old(self).candidates@.len()
            },
            !match key {
                Some(k) => strictly_inside(k@, old(self).cursor@, opt_string_v(old(self).end)),
                None => false,
            } ==> r is None && final(self).pos == old(self).pos + 1,
    {
        let n = self.candidates.len();
        let p = self.pos;
        let end: Option<&str> = match &self.end {
            Some(e) => Some(e.as_str()),
            None => None,
        };
        proof {
            assert(opt_owned(end) == opt_string_v(self.end));
        }
        match key {
            Some(k) => {
                if is_strictly_inside(k, self.cursor.as_str(), end) {
                    self.pos = n;
                    return Some(owned(k));
                }
            },
            None => {},
        }
        self.pos = p + 1;
        None
    }
}

} // verus!
