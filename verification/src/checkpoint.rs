//! Resume checkpoints: the identity a checkpoint must share with the current
//! run, the journal of completed key-space segments, and the fingerprint of
//! the boundary set that the segment indices refer to.
use crate::agent::{sanitize_path_component, sanitized};
use crate::config::opt_string_v;
use crate::objects::{hex_encode, hex_lower};
use crate::text::{
    owned, str_eq, string_push_str, strings_view,
};
use sha2::{Digest, Sha256};
use vstd::prelude::*;
use vstd::utf8::encode_utf8;

verus! {

// ── SHA-256 ────────────────────────────────────────────────

/// The SHA-256 digest of a byte string.
pub uninterp spec fn sha256(data: Seq<u8>) -> Seq<u8>;

/// `Sha256::digest` (sha2): the 32-byte SHA-256 digest of `data`, named
/// `sha256`; its value is not stated further.
#[verifier::external_body]
fn sha256_digest(data: &[u8]) -> (r: Vec<u8>)
    ensures
        r@ == sha256(data@),
        r@.len() == 32,
{
    Sha256::digest(data).to_vec()
}

// ── Checkpoint identity ────────────────────────────────────

/// The fields that must match between a checkpoint and the current run
/// for resume to be valid.
#[derive(Debug, Clone, PartialEq)]
pub struct CheckpointIdentity {
    pub bucket: String,
    pub region: Option<String>,
    pub prefix: String,
    pub delimiter: Option<String>,
    pub max_keys: Option<i32>,
    pub profile: Option<String>,
    pub addressing_style: Option<String>,
    /// `"list"` or `"bidir"`.
    pub mode: Option<String>,
    /// The `--filter` expression, verbatim, or `None` when the run had no
    /// filter: it decides which objects reach the output.
    pub filter: Option<String>,
    /// Fingerprint of the key-space boundary set that the checkpoint's
    /// segment indices refer to.
    pub boundaries_digest: Option<String>,
}

/// The names of the identity fields that differ between `a` and `b`, in
/// declaration order (the boundary fingerprint is checked separately).
pub open spec fn identity_diff(a: CheckpointIdentity, b: CheckpointIdentity) -> Seq<Seq<char>> {
    let m1 = if a.bucket@ != b.bucket@ {
        seq!["bucket"@]
    } else {
        Seq::empty()
    };
    let m2 = if opt_string_v(a.region) != opt_string_v(b.region) {
        m1.push("region"@)
    } else {
        m1
    };
    let m3 = if a.prefix@ != b.prefix@ {
        m2.push("prefix"@)
    } else {
        m2
    };
    let m4 = if opt_string_v(a.delimiter) != opt_string_v(b.delimiter) {
        m3.push("delimiter"@)
    } else {
        m3
    };
    let m5 = if a.max_keys != b.max_keys {
        m4.push("max_keys"@)
    } else {
        m4
    };
    let m6 = if opt_string_v(a.profile) != opt_string_v(b.profile) {
        m5.push("profile"@)
    } else {
        m5
    };
    let m7 = if opt_string_v(a.addressing_style) != opt_string_v(b.addressing_style) {
        m6.push("addressing_style"@)
    } else {
        m6
    };
    let m8 = if opt_string_v(a.mode) != opt_string_v(b.mode) {
        m7.push("mode"@)
    } else {
        m7
    };
    if opt_string_v(a.filter) != opt_string_v(b.filter) {
        m8.push("filter"@)
    } else {
        m8
    }
}

/// An identity written by a version without identity fields: none of the
/// optional run settings is recorded.
pub open spec fn identity_is_legacy(a: CheckpointIdentity) -> bool {
    a.delimiter is None && a.max_keys is None && a.profile is None && a.addressing_style is None
        && a.mode is None
}

fn opt_to_owned(o: Option<&str>) -> (r: Option<String>)
    ensures
        opt_string_v(r) == match o {
            Some(s) => Some(s@),
            None => None::<Seq<char>>,
        },
{
    match o {
        Some(s) => Some(owned(s)),
        None => None,
    }
}

fn opt_str_eq(a: &Option<String>, b: &Option<String>) -> (r: bool)
    ensures
        r == (opt_string_v(*a) == opt_string_v(*b)),
{
    match (a, b) {
        (Some(x), Some(y)) => str_eq(x.as_str(), y.as_str()),
        (None, None) => true,
        _ => false,
    }
}

fn push_name(out: &mut Vec<String>, name: &str)
    ensures
        strings_view(final(out)@) == strings_view(old(out)@).push(name@),
{
    let ghost before = out@;
    out.push(owned(name));
    assert(strings_view(out@) =~= strings_view(before).push(name@));
}

impl CheckpointIdentity {
    /// The identity of the current run (no boundary fingerprint yet).
    pub fn new(
        bucket: &str,
        region: Option<&str>,
        prefix: &str,
        delimiter: Option<&str>,
        max_keys: Option<i32>,
        profile: Option<&str>,
        addressing_style: Option<&str>,
        mode: Option<&str>,
        filter: Option<&str>,
    ) -> (r: Self)
        ensures
            r.bucket@ == bucket@,
            opt_string_v(r.region) == crate::config::opt_owned(region),
            r.prefix@ == prefix@,
            opt_string_v(r.delimiter) == crate::config::opt_owned(delimiter),
            r.max_keys == max_keys,
            opt_string_v(r.profile) == crate::config::opt_owned(profile),
            opt_string_v(r.addressing_style) == crate::config::opt_owned(addressing_style),
            opt_string_v(r.mode) == crate::config::opt_owned(mode),
            opt_string_v(r.filter) == crate::config::opt_owned(filter),
            r.boundaries_digest is None,
    {
        CheckpointIdentity {
            bucket: owned(bucket),
            region: opt_to_owned(region),
            prefix: owned(prefix),
            delimiter: opt_to_owned(delimiter),
            max_keys,
            profile: opt_to_owned(profile),
            addressing_style: opt_to_owned(addressing_style),
            mode: opt_to_owned(mode),
            filter: opt_to_owned(filter),
            boundaries_digest: None,
        }
    }

    /// Attaches the fingerprint of the boundary set this run is
    /// partitioned by.
    pub fn with_boundaries(self, boundaries: &[String]) -> (r: Self)
        ensures
            r.boundaries_digest is Some,
            r.boundaries_digest->Some_0@ == digest_text(boundaries@),
            r.bucket == self.bucket,
            r.region == self.region,
            r.prefix == self.prefix,
            r.delimiter == self.delimiter,
            r.max_keys == self.max_keys,
            r.profile == self.profile,
            r.addressing_style == self.addressing_style,
            r.mode == self.mode,
            r.filter == self.filter,
    {
        let mut id = self;
        id.boundaries_digest = Some(boundaries_digest(boundaries));
        id
    }

    /// The names of the fields that differ from `current` (empty: the
    /// identities match).
    pub fn diff(&self, current: &CheckpointIdentity) -> (r: Vec<String>)
        ensures
            strings_view(r@) == identity_diff(*self, *current),
    {
        let mut m: Vec<String> = Vec::new();
        if !str_eq(self.bucket.as_str(), current.bucket.as_str()) {
            push_name(&mut m, "bucket");
        }
        if !opt_str_eq(&self.region, &current.region) {
            push_name(&mut m, "region");
        }
        if !str_eq(self.prefix.as_str(), current.prefix.as_str()) {
            push_name(&mut m, "prefix");
        }
        if !opt_str_eq(&self.delimiter, &current.delimiter) {
            push_name(&mut m, "delimiter");
        }
        let keys_differ = match (self.max_keys, current.max_keys) {
            (Some(a), Some(b)) => a != b,
            (None, None) => false,
            _ => true,
        };
        if keys_differ {
            push_name(&mut m, "max_keys");
        }
        if !opt_str_eq(&self.profile, &current.profile) {
            push_name(&mut m, "profile");
        }
        if !opt_str_eq(&self.addressing_style, &current.addressing_style) {
            push_name(&mut m, "addressing_style");
        }
        if !opt_str_eq(&self.mode, &current.mode) {
            push_name(&mut m, "mode");
        }
        if !opt_str_eq(&self.filter, &current.filter) {
            push_name(&mut m, "filter");
        }
        proof {
            assert(strings_view(Seq::<String>::empty()) =~= Seq::<Seq<char>>::empty());
            assert(Seq::<Seq<char>>::empty().push("bucket"@) =~= seq!["bucket"@]);
        }
        m
    }

    /// Whether the identity was written by a version that recorded none of
    /// the optional run settings.
    pub fn is_legacy(&self) -> (r: bool)
        ensures
            r == identity_is_legacy(*self),
    {
        self.delimiter.is_none() && self.max_keys.is_none() && self.profile.is_none()
            && self.addressing_style.is_none() && self.mode.is_none()
    }
}

// ── Boundary fingerprint ───────────────────────────────────

/// The bytes hashed for a boundary set: each boundary's UTF-8 bytes
/// followed by a NUL, so no two different sets concatenate alike.
pub open spec fn digest_input(bs: Seq<String>) -> Seq<u8>
    decreases bs.len(),
{
    if bs.len() == 0 {
        Seq::empty()
    } else {
        digest_input(bs.drop_last()) + encode_utf8(bs.last()@) + seq![0u8]
    }
}

/// The fingerprint text: lower-case hex of the SHA-256 of `digest_input`.
pub open spec fn digest_text(bs: Seq<String>) -> Seq<char> {
    hex_lower(sha256(digest_input(bs)))
}

/// Fingerprint of a key-space boundary set.
pub fn boundaries_digest(boundaries: &[String]) -> (r: String)
    ensures
        r@ == digest_text(boundaries@),
{
    let mut data: Vec<u8> = Vec::new();
    let mut i: usize = 0;
    while i < boundaries.len()
        invariant
            i <= boundaries.len(),
            data@ == digest_input(boundaries@.take(i as int)),
        decreases boundaries.len() - i,
    {
        assert(boundaries@.take(i + 1).drop_last() =~= boundaries@.take(i as int));
        let bytes = boundaries[i].as_str().as_bytes();
        let ghost before = data@;
        let mut j: usize = 0;
        while j < bytes.len()
            invariant
                j <= bytes.len(),
                data@ == before + bytes@.take(j as int),
            decreases bytes.len() - j,
        {
            data.push(bytes[j]);
            j += 1;
            assert(data@ =~= before + bytes@.take(j as int));
        }
        assert(bytes@.take(bytes.len() as int) =~= bytes@);
        data.push(0u8);
        i += 1;
        assert(data@ =~= digest_input(boundaries@.take(i as int)));
    }
    assert(boundaries@.take(boundaries.len() as int) =~= boundaries@);
    let digest = sha256_digest(data.as_slice());
    hex_encode(digest.as_slice())
}

// ── Journal ────────────────────────────────────────────────

/// Which key-space segments of a run are complete.
#[derive(Debug, Clone)]
pub struct CheckpointJournal {
    pub bucket: String,
    pub prefix: String,
    pub total_segments: usize,
    pub completed_indices: Vec<usize>,
    pub last_updated: String,
    /// Run identity; absent in checkpoints of the format before it.
    pub identity: Option<CheckpointIdentity>,
}

/// Whether a loaded journal may be resumed by a run of identity `current`:
/// it has an identity block, the block is not legacy, and no field differs.
pub open spec fn resumable(j: CheckpointJournal, current: CheckpointIdentity) -> bool {
    match j.identity {
        None => false,
        Some(stored) => !identity_is_legacy(stored) && identity_diff(stored, current).len() == 0,
    }
}

/// The boundary fingerprint that a journal carries, where it is present
/// and not empty.
pub open spec fn stored_digest(j: CheckpointJournal) -> Option<Seq<char>> {
    match j.identity {
        Some(id) => match id.boundaries_digest {
            Some(d) => if d@.len() > 0 {
                Some(d@)
            } else {
                None
            },
            None => None,
        },
        None => None,
    }
}

impl CheckpointJournal {
    /// Verifies a loaded checkpoint (`None`: there was no readable file)
    /// against the current run's identity, keeping it only where it has an
    /// identity block, is not legacy, and matches field for field.
    pub fn load_and_verify(loaded: Option<Self>, current_identity: &CheckpointIdentity) -> (r:
        Option<Self>)
        ensures
            match loaded {
                None => r is None,
                Some(j) => if resumable(j, *current_identity) {
                    r == Some(j)
                } else {
                    r is None
                },
            },
    {
        let journal = match loaded {
            Some(j) => j,
            None => return None,
        };
        let keep = match &journal.identity {
            None => false,
            Some(stored) => {
                if stored.is_legacy() {
                    false
                } else {
                    let mismatches = stored.diff(current_identity);
                    mismatches.len() == 0
                }
            },
        };
        if keep {
            Some(journal)
        } else {
            None
        }
    }

    /// Whether the completed indices still describe the current boundary
    /// set: the segment count matches, and the stored fingerprint is present
    /// and equals that of `boundaries`.
    pub fn verify_segments(&self, boundaries: &[String], total_segments: usize) -> (r: bool)
        ensures
            r == (self.total_segments == total_segments && stored_digest(*self) == Some(
                digest_text(boundaries@),
            )),
    {
        if self.total_segments != total_segments {
            return false;
        }
        let current = boundaries_digest(boundaries);
        match &self.identity {
            Some(id) => match &id.boundaries_digest {
                Some(stored) => {
                    if stored.as_str().is_empty() {
                        false
                    } else {
                        str_eq(stored.as_str(), current.as_str())
                    }
                },
                None => false,
            },
            None => false,
        }
    }
}

/// The checkpoint file name for a bucket (and region).
pub open spec fn checkpoint_file_name(bucket: Seq<char>, region: Option<Seq<char>>) -> Seq<char> {
    match region {
        Some(r) => sanitized(r) + "_"@ + sanitized(bucket) + "_checkpoint.toml"@,
        None => sanitized(bucket) + "_checkpoint.toml"@,
    }
}

/// The checkpoint file path for a bucket: `<region>_<bucket>_checkpoint.toml`
/// or `<bucket>_checkpoint.toml`, both names made safe for a file name.
pub fn checkpoint_path(bucket: &str, region: Option<&str>) -> (r: String)
    ensures
        r@ == checkpoint_file_name(bucket@, crate::config::opt_owned(region)),
{
    let b = sanitize_path_component(bucket);
    match region {
        Some(reg) => {
            let mut out = sanitize_path_component(reg);
            string_push_str(&mut out, "_");
            string_push_str(&mut out, b.as_str());
            string_push_str(&mut out, "_checkpoint.toml");
            out
        },
        None => {
            let mut out = b;
            string_push_str(&mut out, "_checkpoint.toml");
            out
        },
    }
}

// ── Laws ───────────────────────────────────────────────────

/// An identity differs from itself in no field.
pub proof fn law_identity_diff_reflexive(a: CheckpointIdentity)
    ensures
        identity_diff(a, a).len() == 0,
{
}

/// Two identities differ in the same fields whichever is the stored one.
pub proof fn law_identity_diff_symmetric(a: CheckpointIdentity, b: CheckpointIdentity)
    ensures
        identity_diff(a, b) == identity_diff(b, a),
{
}

/// A checkpoint whose (non-legacy) identity is the current run's own is
/// resumed, and kept unchanged.
pub proof fn law_matching_checkpoint_resumes(j: CheckpointJournal, current: CheckpointIdentity)
    requires
        j.identity == Some(current),
        !identity_is_legacy(current),
    ensures
        resumable(j, current),
{
}

/// A checkpoint is resumed only by a run whose identity agrees with it on
/// every field that `diff` compares.
pub proof fn law_resumed_checkpoint_matches(j: CheckpointJournal, current: CheckpointIdentity)
    requires
        resumable(j, current),
    ensures
        j.identity is Some,
        j.identity->Some_0.bucket@ == current.bucket@,
        opt_string_v(j.identity->Some_0.region) == opt_string_v(current.region),
        j.identity->Some_0.prefix@ == current.prefix@,
        opt_string_v(j.identity->Some_0.delimiter) == opt_string_v(current.delimiter),
        j.identity->Some_0.max_keys == current.max_keys,
        opt_string_v(j.identity->Some_0.profile) == opt_string_v(current.profile),
        opt_string_v(j.identity->Some_0.addressing_style) == opt_string_v(
            current.addressing_style,
        ),
        opt_string_v(j.identity->Some_0.mode) == opt_string_v(current.mode),
        opt_string_v(j.identity->Some_0.filter) == opt_string_v(current.filter),
{
    let a = j.identity->Some_0;
    let b = current;
    if a.bucket@ != b.bucket@ {
        assert(identity_diff(a, b).len() > 0);
    }
}


// ── Completed segments ─────────────────────────────────────

pub open spec fn strictly_increasing(s: Seq<usize>) -> bool {
    forall|i: int, j: int| 0 <= i < j < s.len() ==> s[i] < s[j]
}

fn insert_sorted(v: &mut Vec<usize>, x: usize)
    requires
        strictly_increasing(old(v)@),
    ensures
        strictly_increasing(final(v)@),
        final(v)@.to_set() == old(v)@.to_set().insert(x),
{
    let mut i: usize = 0;
    while i < v.len() && v[i] < x
        invariant
            i <= v.len(),
            forall|k: int| 0 <= k < i ==> v@[k] < x,
        decreases v.len() - i,
    {
        i += 1;
    }
    if i < v.len() && v[i] == x {
        return;
    }
    let ghost before = v@;
    v.insert(i, x);
    proof {
        assert(v@ =~= before.subrange(0, i as int).push(x) + before.subrange(i as int, before.len() as int));
        assert forall|a: int, b: int| 0 <= a < b < v@.len() implies v@[a] < v@[b] by {
            if a < i && b > i {
                assert(before[a] < x);
            }
        }
        assert forall|y: usize| #[trigger] v@.to_set().contains(y) <==> before.to_set().insert(x).contains(y) by {
            if v@.contains(y) {
                let k = choose|k: int| 0 <= k < v@.len() && v@[k] == y;
                if k < i {
                    assert(before[k] == y);
                } else if k > i {
                    assert(before[k - 1] == y);
                }
            }
            if before.contains(y) {
                let k = choose|k: int| 0 <= k < before.len() && before[k] == y;
                if k < i {
                    assert(v@[k] == y);
                } else {
                    assert(v@[k + 1] == y);
                }
            }
            if y == x {
                assert(v@[i as int] == x);
            }
        }
        assert(v@.to_set() =~= before.to_set().insert(x));
    }
}

fn insert_all(v: &mut Vec<usize>, xs: &Vec<usize>)
    requires
        strictly_increasing(old(v)@),
    ensures
        strictly_increasing(final(v)@),
        final(v)@.to_set() == old(v)@.to_set().union(xs@.to_set()),
{
    let ghost start = v@.to_set();
    let mut i: usize = 0;
    while i < xs.len()
        invariant
            i <= xs.len(),
            strictly_increasing(v@),
            v@.to_set() == start.union(xs@.take(i as int).to_set()),
        decreases xs.len() - i,
    {
        insert_sorted(v, xs[i]);
        proof {
            assert(xs@.take(i + 1) =~= xs@.take(i as int).push(xs@[i as int]));
            xs@.take(i as int).lemma_push_to_set_commute(xs@[i as int]);
            assert(xs@.take(i as int).push(xs@[i as int]).to_set() =~= xs@.take(i as int).to_set().insert(xs@[i as int]));
        }
        i += 1;
        proof {
            assert(v@.to_set() =~= start.union(xs@.take(i as int).to_set()));
        }
    }
    proof {
        assert(xs@.take(xs.len() as int) =~= xs@);
    }
}

/// The segments completed so far: those of the loaded journal and those that
/// the list tasks of this run finished, each once, in increasing order.
pub fn merged_completed_indices(
    journal: Option<&CheckpointJournal>,
    left: &Vec<usize>,
    right: Option<&Vec<usize>>,
) -> (r: Vec<usize>)
    ensures
        strictly_increasing(r@),
        r@.to_set() == (match journal {
            Some(j) => j.completed_indices@.to_set(),
            None => Set::empty(),
        }).union(left@.to_set()).union(
            match right {
                Some(v) => v@.to_set(),
                None => Set::empty(),
            },
        ),
{
    let mut out: Vec<usize> = Vec::new();
    proof {
        assert(out@.to_set() =~= Set::<usize>::empty());
    }
    match journal {
        Some(j) => insert_all(&mut out, &j.completed_indices),
        None => {},
    }
    proof {
        assert(Set::<usize>::empty().union(
            match journal {
                Some(j) => j.completed_indices@.to_set(),
                None => Set::empty(),
            },
        ) =~= match journal {
            Some(j) => j.completed_indices@.to_set(),
            None => Set::empty(),
        });
    }
    insert_all(&mut out, left);
    match right {
        Some(v) => insert_all(&mut out, v),
        None => {
            proof {
                assert(out@.to_set().union(Set::empty()) =~= out@.to_set());
            }
        },
    }
    out
}
} // verus!
