//! Synthetic object streams for the local benchmarks: block-partitioned,
//! zero-padded keys in S3 lexicographic order, with deterministic sizes and
//! ETags, so that both sides of a diff can be generated without a bucket.
use crate::objects::{
    ObjectKey, ObjectProps, OBJECT_PROPS_STATUS_OPEN, S3_TASK_CONTEXT_DIR_LEFT_DIFF_MODE,
    S3_TASK_CONTEXT_DIR_LEFT_LIST_MODE, S3_TASK_CONTEXT_DIR_RIGHT_DIFF_MODE,
};
use crate::text::{append_str, dec, dec_chars, push_dec, string_from_chars};
use vstd::prelude::*;

verus! {

/// Which part of the pipeline a local benchmark drives.
#[derive(Debug, Clone, Copy, PartialEq, Eq, Structural)]
pub enum LocalBenchmarkKind {
    ListOutput,
    DiffMap,
    DiffOutput,
}

impl LocalBenchmarkKind {
    pub fn as_str(self) -> (r: &'static str)
        ensures
            r@ == match self {
                LocalBenchmarkKind::ListOutput => "list-output"@,
                LocalBenchmarkKind::DiffMap => "diff-map"@,
                LocalBenchmarkKind::DiffOutput => "diff-output"@,
            },
    {
        match self {
            LocalBenchmarkKind::ListOutput => "list-output",
            LocalBenchmarkKind::DiffMap => "diff-map",
            LocalBenchmarkKind::DiffOutput => "diff-output",
        }
    }
}

/// How the two sides of a synthetic diff relate.
#[derive(Debug, Clone, Copy, PartialEq, Eq, Structural)]
pub enum LocalDiffShape {
    Mixed,
    AllEqual,
    AllChanged,
}

impl LocalDiffShape {
    pub fn as_str(self) -> (r: &'static str)
        ensures
            r@ == match self {
                LocalDiffShape::Mixed => "mixed"@,
                LocalDiffShape::AllEqual => "all-equal"@,
                LocalDiffShape::AllChanged => "all-changed"@,
            },
    {
        match self {
            LocalDiffShape::Mixed => "mixed",
            LocalDiffShape::AllEqual => "all-equal",
            LocalDiffShape::AllChanged => "all-changed",
        }
    }
}

/// `s` left-padded with `'0'` to at least `w` characters.
pub open spec fn zero_pad(s: Seq<char>, w: nat) -> Seq<char> {
    if s.len() >= w {
        s
    } else {
        Seq::new((w - s.len()) as nat, |i: int| '0') + s
    }
}

pub open spec fn synthetic_key_text(prefix_index: nat, index: nat) -> Seq<char> {
    "prefix-"@ + zero_pad(dec(prefix_index), 6) + "/object-"@ + zero_pad(dec(index), 12) + ".dat"@
}

/// Byte `k` of the little-endian encoding of `n`.
pub open spec fn le_byte(n: nat, k: nat) -> u8
    decreases k,
{
    if k == 0 {
        (n % 256) as u8
    } else {
        le_byte(n / 256, (k - 1) as nat)
    }
}

/// The ETag of a synthetic object: its index, then its prefix index, in
/// little-endian bytes, with a last byte of at least 1.
pub open spec fn synth_etag(index: nat, prefix_index: nat) -> Seq<u8> {
    Seq::new(
        16,
        |k: int|
            if k < 8 {
                le_byte(index, k as nat)
            } else if k < 15 {
                le_byte(prefix_index, (k - 8) as nat)
            } else if le_byte(prefix_index, 7) >= 1 {
                le_byte(prefix_index, 7)
            } else {
                1u8
            },
    )
}

pub open spec fn synth_prefix_index(index: nat, prefixes: nat, total: nat) -> nat {
    (index * prefixes) / if total > 0 {
        total
    } else {
        1
    }
}

pub open spec fn synth_size(index: nat) -> nat {
    1024 + index % 4096
}

/// A synthetic object: key, direction flags, size and ETag.
pub type SynthItem = (Seq<char>, u8, nat, Seq<u8>);

/// What index `index` contributes to the left and to the right side.
pub open spec fn synth_items(
    index: nat,
    prefixes: nat,
    total: nat,
    kind: LocalBenchmarkKind,
    shape: LocalDiffShape,
) -> (Option<SynthItem>, Option<SynthItem>) {
    let pi = synth_prefix_index(index, prefixes, total);
    let key = synthetic_key_text(pi, index);
    let etag = synth_etag(index, pi);
    let size = synth_size(index);
    let l = Some((key, S3_TASK_CONTEXT_DIR_LEFT_DIFF_MODE, size, etag));
    let same = Some((key, S3_TASK_CONTEXT_DIR_RIGHT_DIFF_MODE, size, etag));
    let changed = Some(
        (
            key,
            S3_TASK_CONTEXT_DIR_RIGHT_DIFF_MODE,
            size + 1,
            etag.update(0, ((etag[0] + 1) % 256) as u8),
        ),
    );
    if kind == LocalBenchmarkKind::DiffMap {
        (l, same)
    } else {
        match shape {
            LocalDiffShape::AllEqual => (l, same),
            LocalDiffShape::AllChanged => (l, changed),
            LocalDiffShape::Mixed => if index % 4 == 0 {
                (l, same)
            } else if index % 4 == 1 {
                (l, None)
            } else if index % 4 == 2 {
                (None, same)
            } else {
                (l, changed)
            },
        }
    }
}

pub open spec fn opt_seq(o: Option<SynthItem>) -> Seq<SynthItem> {
    match o {
        Some(x) => seq![x],
        None => Seq::empty(),
    }
}

/// One side of the synthetic stream for indices `start .. start + n`.
pub open spec fn synth_side(
    start: nat,
    n: nat,
    prefixes: nat,
    total: nat,
    kind: LocalBenchmarkKind,
    shape: LocalDiffShape,
    left: bool,
) -> Seq<SynthItem>
    decreases n,
{
    if n == 0 {
        Seq::empty()
    } else {
        let items = synth_items((start + n - 1) as nat, prefixes, total, kind, shape);
        synth_side(start, (n - 1) as nat, prefixes, total, kind, shape, left) + opt_seq(
            if left {
                items.0
            } else {
                items.1
            },
        )
    }
}

pub open spec fn item_view(p: (ObjectKey, ObjectProps)) -> SynthItem {
    (p.0@, p.1.flags, p.1.size as nat, p.1.etag_md5@)
}

pub open spec fn items_view(v: Seq<(ObjectKey, ObjectProps)>) -> Seq<SynthItem> {
    Seq::new(v.len(), |i: int| item_view(v[i]))
}

/// Every synthetic object is open, unmodified and in one part.
pub open spec fn all_open(v: Seq<(ObjectKey, ObjectProps)>) -> bool {
    forall|i: int|
        0 <= i < v.len() ==> {
            &&& (#[trigger] v[i]).1.status == OBJECT_PROPS_STATUS_OPEN
            &&& v[i].1.pad == 0
            &&& v[i].1.etag_parts == 0
            &&& v[i].1.last_modified == 0
        }
}

fn push_padded(out: &mut Vec<char>, n: u64, w: usize)
    ensures
        final(out)@ == old(out)@ + zero_pad(dec(n as nat), w as nat),
{
    let digits = dec_chars(n);
    let ghost start = out@;
    if digits.len() < w {
        let pad: usize = w - digits.len();
        let mut i: usize = 0;
        while i < pad
            invariant
                i <= pad,
                out@ == start + Seq::new(i as nat, |k: int| '0'),
            decreases pad - i,
        {
            out.push('0');
            assert(out@ =~= start + Seq::new((i + 1) as nat, |k: int| '0'));
            i += 1;
        }
    }
    crate::text::append_chars(out, digits.as_slice());
    assert(out@ =~= start + zero_pad(dec(n as nat), w as nat));
}

/// The key of the synthetic object `index` under prefix `prefix_index`.
pub fn synthetic_key(prefix_index: u64, index: u64) -> (r: String)
    ensures
        r@ == synthetic_key_text(prefix_index as nat, index as nat),
{
    let mut out: Vec<char> = Vec::new();
    append_str(&mut out, "prefix-");
    push_padded(&mut out, prefix_index, 6);
    append_str(&mut out, "/object-");
    push_padded(&mut out, index, 12);
    append_str(&mut out, ".dat");
    assert(out@ =~= synthetic_key_text(prefix_index as nat, index as nat));
    string_from_chars(out.as_slice())
}

fn le_byte_of(n: u64, k: u64) -> (r: u8)
    requires
        k < 8,
    ensures
        r == le_byte(n as nat, k as nat),
{
    let mut v: u64 = n;
    let mut i: u64 = 0;
    while i < k
        invariant
            i <= k,
            le_byte(v as nat, (k - i) as nat) == le_byte(n as nat, k as nat),
        decreases k - i,
    {
        assert(le_byte(v as nat, (k - i) as nat) == le_byte((v / 256) as nat, (k - i - 1) as nat));
        v = v / 256;
        i += 1;
    }
    (v % 256) as u8
}

/// The ETag of the synthetic object `index` under prefix `prefix_index`.
pub fn synthetic_etag(index: u64, prefix_index: u64) -> (r: [u8; 16])
    ensures
        r@ == synth_etag(index as nat, prefix_index as nat),
{
    let last = le_byte_of(prefix_index, 7);
    let r: [u8; 16] = [
        le_byte_of(index, 0),
        le_byte_of(index, 1),
        le_byte_of(index, 2),
        le_byte_of(index, 3),
        le_byte_of(index, 4),
        le_byte_of(index, 5),
        le_byte_of(index, 6),
        le_byte_of(index, 7),
        le_byte_of(prefix_index, 0),
        le_byte_of(prefix_index, 1),
        le_byte_of(prefix_index, 2),
        le_byte_of(prefix_index, 3),
        le_byte_of(prefix_index, 4),
        le_byte_of(prefix_index, 5),
        le_byte_of(prefix_index, 6),
        if last >= 1 {
            last
        } else {
            1
        },
    ];
    assert(r@ =~= synth_etag(index as nat, prefix_index as nat));
    r
}

fn push_item(
    v: &mut Vec<(ObjectKey, ObjectProps)>,
    key: &str,
    dir: u8,
    size: u64,
    etag: [u8; 16],
)
    requires
        all_open(old(v)@),
    ensures
        items_view(final(v)@) == items_view(old(v)@).push((key@, dir, size as nat, etag@)),
        all_open(final(v)@),
{
    v.push((ObjectKey::from(key), ObjectProps::new_open(dir, size, etag)));
    assert(items_view(v@) =~= items_view(old(v)@).push((key@, dir, size as nat, etag@)));
}

fn push_index(
    left: &mut Vec<(ObjectKey, ObjectProps)>,
    right: &mut Vec<(ObjectKey, ObjectProps)>,
    index: usize,
    prefixes: usize,
    total_objects: usize,
    benchmark: LocalBenchmarkKind,
    diff_shape: LocalDiffShape,
)
    requires
        index * prefixes <= usize::MAX,
        all_open(old(left)@),
        all_open(old(right)@),
    ensures
        items_view(final(left)@) == items_view(old(left)@) + opt_seq(
            synth_items(
                index as nat,
                prefixes as nat,
                total_objects as nat,
                benchmark,
                diff_shape,
            ).0,
        ),
        items_view(final(right)@) == items_view(old(right)@) + opt_seq(
            synth_items(
                index as nat,
                prefixes as nat,
                total_objects as nat,
                benchmark,
                diff_shape,
            ).1,
        ),
        all_open(final(left)@),
        all_open(final(right)@),
{
    let denom: usize = if total_objects > 0 {
        total_objects
    } else {
        1
    };
    let prefix_index: usize = (index * prefixes) / denom;
    let key = synthetic_key(prefix_index as u64, index as u64);
    let etag = synthetic_etag(index as u64, prefix_index as u64);
    let size: u64 = 1024 + (index % 4096) as u64;
    let mut changed = etag;
    changed[0] = if etag[0] == 255 {
        0
    } else {
        etag[0] + 1
    };
    proof {
        assert(changed@ =~= etag@.update(0, ((etag@[0] + 1) % 256) as u8));
    }
    let ghost items = synth_items(
        index as nat,
        prefixes as nat,
        total_objects as nat,
        benchmark,
        diff_shape,
    );
    let ghost l0 = items_view(left@);
    let ghost r0 = items_view(right@);
    let l = S3_TASK_CONTEXT_DIR_LEFT_DIFF_MODE;
    let rd = S3_TASK_CONTEXT_DIR_RIGHT_DIFF_MODE;
    let both_same = benchmark == LocalBenchmarkKind::DiffMap || diff_shape
        == LocalDiffShape::AllEqual || (diff_shape == LocalDiffShape::Mixed && index % 4 == 0);
    let both_changed = !both_same && (diff_shape == LocalDiffShape::AllChanged || (diff_shape
        == LocalDiffShape::Mixed && index % 4 == 3));
    if both_same {
        push_item(left, key.as_str(), l, size, etag);
        push_item(right, key.as_str(), rd, size, etag);
    } else if both_changed {
        push_item(left, key.as_str(), l, size, etag);
        push_item(right, key.as_str(), rd, size + 1, changed);
    } else if index % 4 == 1 {
        push_item(left, key.as_str(), l, size, etag);
    } else {
        push_item(right, key.as_str(), rd, size, etag);
    }
    proof {
        assert(items_view(left@) =~= l0 + opt_seq(items.0));
        assert(items_view(right@) =~= r0 + opt_seq(items.1));
    }
}

/// Both sides of a synthetic diff for the objects `start .. start + take`
/// of `total_objects`, spread over `prefixes` prefixes.
pub fn synthetic_diff_batches(
    start: usize,
    take: usize,
    prefixes: usize,
    total_objects: usize,
    benchmark: LocalBenchmarkKind,
    diff_shape: LocalDiffShape,
) -> (r: (Vec<(ObjectKey, ObjectProps)>, Vec<(ObjectKey, ObjectProps)>))
    requires
        start + take <= usize::MAX,
        (start + take) * prefixes <= usize::MAX,
    ensures
        items_view(r.0@) == synth_side(
            start as nat,
            take as nat,
            prefixes as nat,
            total_objects as nat,
            benchmark,
            diff_shape,
            true,
        ),
        items_view(r.1@) == synth_side(
            start as nat,
            take as nat,
            prefixes as nat,
            total_objects as nat,
            benchmark,
            diff_shape,
            false,
        ),
        all_open(r.0@),
        all_open(r.1@),
{
    let mut left: Vec<(ObjectKey, ObjectProps)> = Vec::new();
    let mut right: Vec<(ObjectKey, ObjectProps)> = Vec::new();
    let mut offset: usize = 0;
    while offset < take
        invariant
            offset <= take,
            start + take <= usize::MAX,
            (start + take) * prefixes <= usize::MAX,
            items_view(left@) == synth_side(
                start as nat,
                offset as nat,
                prefixes as nat,
                total_objects as nat,
                benchmark,
                diff_shape,
                true,
            ),
            items_view(right@) == synth_side(
                start as nat,
                offset as nat,
                prefixes as nat,
                total_objects as nat,
                benchmark,
                diff_shape,
                false,
            ),
            all_open(left@),
            all_open(right@),
        decreases take - offset,
    {
        let index: usize = start + offset;
        assert(index * prefixes <= (start + take) * prefixes) by (nonlinear_arith)
            requires
                index <= start + take,
        ;
        push_index(&mut left, &mut right, index, prefixes, total_objects, benchmark, diff_shape);
        offset += 1;
    }
    (left, right)
}

// ── Listing benchmark ──────────────────────────────────────

/// The key of listing-benchmark object `index`, spread round-robin over the
/// prefixes (the prefix number unpadded).
pub open spec fn list_key_text(prefix_index: nat, index: nat) -> Seq<char> {
    "prefix-"@ + dec(prefix_index) + "/object-"@ + zero_pad(dec(index), 12) + ".dat"@
}

/// The ETag of listing-benchmark object `index`: its index, then its
/// prefix number, little-endian.
pub open spec fn list_etag(index: nat, prefix_index: nat) -> Seq<u8> {
    Seq::new(
        16,
        |k: int|
            if k < 8 {
                le_byte(index, k as nat)
            } else {
                le_byte(prefix_index, (k - 8) as nat)
            },
    )
}

/// Listing-benchmark object `index` of `prefixes` prefixes.
pub open spec fn list_item(index: nat, prefixes: nat) -> SynthItem {
    let p = index % prefixes;
    (list_key_text(p, index), S3_TASK_CONTEXT_DIR_LEFT_LIST_MODE, 1024 + index % 4096, list_etag(index, p))
}

fn list_etag_exec(index: u64, prefix_index: u64) -> (r: [u8; 16])
    ensures
        r@ == list_etag(index as nat, prefix_index as nat),
{
    let r: [u8; 16] = [
        le_byte_of(index, 0),
        le_byte_of(index, 1),
        le_byte_of(index, 2),
        le_byte_of(index, 3),
        le_byte_of(index, 4),
        le_byte_of(index, 5),
        le_byte_of(index, 6),
        le_byte_of(index, 7),
        le_byte_of(prefix_index, 0),
        le_byte_of(prefix_index, 1),
        le_byte_of(prefix_index, 2),
        le_byte_of(prefix_index, 3),
        le_byte_of(prefix_index, 4),
        le_byte_of(prefix_index, 5),
        le_byte_of(prefix_index, 6),
        le_byte_of(prefix_index, 7),
    ];
    assert(r@ =~= list_etag(index as nat, prefix_index as nat));
    r
}

fn list_key(prefix_index: u64, index: u64) -> (r: String)
    ensures
        r@ == list_key_text(prefix_index as nat, index as nat),
{
    let mut out: Vec<char> = Vec::new();
    append_str(&mut out, "prefix-");
    push_dec(&mut out, prefix_index);
    append_str(&mut out, "/object-");
    push_padded(&mut out, index, 12);
    append_str(&mut out, ".dat");
    assert(out@ =~= list_key_text(prefix_index as nat, index as nat));
    string_from_chars(out.as_slice())
}

/// The listing-benchmark objects `start .. start + take`, open, in the
/// left list direction, with deterministic sizes and ETags.
pub fn synthetic_list_batch(start: usize, take: usize, prefixes: usize) -> (r: Vec<(ObjectKey, ObjectProps)>)
    requires
        start + take <= usize::MAX,
        prefixes > 0,
    ensures
        items_view(r@) == Seq::new(take as nat, |i: int| list_item((start + i) as nat, prefixes as nat)),
        all_open(r@),
{
    let mut out: Vec<(ObjectKey, ObjectProps)> = Vec::new();
    let mut offset: usize = 0;
    while offset < take
        invariant
            offset <= take,
            start + take <= usize::MAX,
            prefixes > 0,
            items_view(out@) == Seq::new(offset as nat, |i: int| list_item((start + i) as nat, prefixes as nat)),
            all_open(out@),
        decreases take - offset,
    {
        let index: usize = start + offset;
        let prefix_index: usize = index % prefixes;
        let key = list_key(prefix_index as u64, index as u64);
        let etag = list_etag_exec(index as u64, prefix_index as u64);
        let size: u64 = 1024 + (index % 4096) as u64;
        push_item(&mut out, key.as_str(), S3_TASK_CONTEXT_DIR_LEFT_LIST_MODE, size, etag);
        offset += 1;
        assert(items_view(out@) =~= Seq::new(offset as nat, |i: int| list_item((start + i) as nat, prefixes as nat)));
    }
    out
}

} // verus!
