//! Object keys, the per-object metadata state machine used by list and diff
//! output, and the key-space segment bookkeeping.
use crate::text::{
    append_chars, dec, digit_char, last_index_of, last_index_of_exec, lemma_last_index_of, owned,
    push_dec, slice_chars, str_chars, str_eq, string_from_chars, string_push_str, strings_view,
};
use crate::filter_expr::{evaluate_spec, has_float_v, opt_pair, props_pair, FilterExpr, NodeV};
use std::collections::HashMap;
use std::collections::VecDeque;
use vstd::prelude::*;
use vstd::string::StringSliceAdditionalSpecFns;

verus! {

broadcast use vstd::std_specs::hash::group_hash_axioms;

// ── Constants ──────────────────────────────────────────────

pub const OBJECT_PROPS_FLAG_S3_GP_BUCKET: u8 = 0b1;
pub const OBJECT_PROPS_FLAG_S3_DIR_BUCKET: u8 = 0b10;
pub const OBJECT_PROPS_FLAG_DIR_LEFT: u8 = 0b1000_0000;
pub const OBJECT_PROPS_FLAG_DIR_RIGHT: u8 = 0b0100_0000;
pub const OBJECT_PROPS_FLAG_DIR_BOTH: u8 = 0b1100_0000;
pub const OBJECT_PROPS_FLAG_DIFF_MODE: u8 = 0b0010_0000;

pub const OBJECT_PROPS_STATUS_OPEN: u8 = 0xFF;
pub const OBJECT_PROPS_STATUS_MATCH: u8 = 0x0;
pub const OBJECT_PROPS_STATUS_SIZE_NOT_MATCH: u8 = 1;
pub const OBJECT_PROPS_STATUS_ETAG_NOT_AVAIL: u8 = 2;
pub const OBJECT_PROPS_STATUS_ETAG_NOT_MATCH: u8 = 3;
pub const OBJECT_PROPS_STATUS_FILTER_OUT: u8 = 4;

pub const S3_TASK_CONTEXT_DIR_LEFT: u8 = 0b1000_0000;
pub const S3_TASK_CONTEXT_DIR_RIGHT: u8 = 0b0100_0000;
pub const S3_TASK_CONTEXT_DIR_LEFT_LIST_MODE: u8 = 0b1000_0000;
pub const S3_TASK_CONTEXT_DIR_LEFT_DIFF_MODE: u8 = 0b1010_0000;
pub const S3_TASK_CONTEXT_DIR_RIGHT_DIFF_MODE: u8 = 0b0110_0000;

// ── RunMode / MatchResult ──────────────────────────────────

#[derive(Debug, Clone, Copy, PartialEq, Eq, Structural)]
pub enum RunMode {
    List,
    BiDir,
}

/// Outcome of comparing or finalising an object row.
#[derive(Debug, Copy, Clone, PartialEq, Eq, Structural)]
pub enum MatchResult {
    Equal,
    Plus,
    Minus,
    Astrisk,
    Dup,
    Ignore,
}

// ── ObjectKey ──────────────────────────────────────────────

/// An object key, `prefix/name`.
#[derive(Debug, Clone, Hash, PartialEq, Eq)]
pub struct ObjectKey(String);

impl View for ObjectKey {
    type V = Seq<char>;

    closed spec fn view(&self) -> Seq<char> {
        self.0@
    }
}

/// The prefix part of a key: everything before its last `'/'`, or `"/"` for
/// a top-level key.
pub open spec fn key_prefix(k: Seq<char>) -> Seq<char> {
    if last_index_of(k, '/') < 0 {
        "/"@
    } else {
        k.take(last_index_of(k, '/'))
    }
}

/// The name part of a key: everything after its last `'/'`, or the whole
/// key when it has none.
pub open spec fn key_name(k: Seq<char>) -> Seq<char> {
    if last_index_of(k, '/') < 0 {
        k
    } else {
        k.skip(last_index_of(k, '/') + 1)
    }
}

/// The key that `encode` builds from a prefix and a name.
pub open spec fn key_encode(prefix: Seq<char>, name: Seq<char>) -> Seq<char> {
    if prefix == "/"@ {
        name
    } else {
        prefix + "/"@ + name
    }
}

impl ObjectKey {
    /// Builds a key from its text.
    pub fn from(item: &str) -> (r: Self)
        ensures
            r@ == item@,
    {
        ObjectKey(owned(item))
    }

    /// Decodes `prefix/name` into `(prefix, name)`; top-level keys get `"/"`.
    pub fn decode(&self) -> (r: (String, String))
        ensures
            r.0@ == key_prefix(self@),
            r.1@ == key_name(self@),
    {
        let chars = str_chars(self.0.as_str());
        proof {
            lemma_last_index_of(chars@, '/');
        }
        match last_index_of_exec(chars.as_slice(), '/') {
            None => (owned("/"), self.0.clone()),
            Some(pos) => {
                let p = slice_chars(chars.as_slice(), 0, pos);
                let n = slice_chars(chars.as_slice(), pos + 1, chars.len());
                (string_from_chars(p.as_slice()), string_from_chars(n.as_slice()))
            },
        }
    }

    /// Consuming variant of `decode`.
    pub fn into_decoded(self) -> (r: (String, String))
        ensures
            r.0@ == key_prefix(self@),
            r.1@ == key_name(self@),
    {
        self.decode()
    }

    /// The prefix portion of this key; `"/"` for top-level keys.
    pub fn prefix(&self) -> (r: String)
        ensures
            r@ == key_prefix(self@),
    {
        let chars = str_chars(self.0.as_str());
        proof {
            lemma_last_index_of(chars@, '/');
        }
        match last_index_of_exec(chars.as_slice(), '/') {
            None => owned("/"),
            Some(pos) => {
                let p = slice_chars(chars.as_slice(), 0, pos);
                string_from_chars(p.as_slice())
            },
        }
    }

    /// Builds `prefix/name`, or just `name` when the prefix is `"/"`.
    pub fn encode(prefix: &String, name: &String) -> (r: Self)
        ensures
            r@ == key_encode(prefix@, name@),
    {
        if str_eq(prefix.as_str(), "/") {
            return ObjectKey(name.clone());
        }
        let mut s = prefix.clone();
        string_push_str(&mut s, "/");
        string_push_str(&mut s, name.as_str());
        ObjectKey(s)
    }

    pub fn as_str(&self) -> (r: &str)
        ensures
            r@ == self@,
    {
        self.0.as_str()
    }

    /// The UTF-8 bytes of the key.
    pub fn as_bytes(&self) -> (r: &[u8])
        ensures
            r@ == vstd::utf8::encode_utf8(self@),
    {
        self.0.as_str().as_bytes()
    }

    /// The key's text, for display.
    pub fn to_string(&self) -> (r: String)
        ensures
            r@ == self@,
    {
        self.0.clone()
    }
}

/// Decoding a key and encoding the parts again gives the key back, except for
/// keys whose part before the last `'/'` is exactly `"/"` (such as `"//x"`),
/// which collide with the top-level marker.
pub proof fn law_key_decode_encode(k: Seq<char>)
    requires
        !(last_index_of(k, '/') >= 0 && k.take(last_index_of(k, '/')) == "/"@),
    ensures
        key_encode(key_prefix(k), key_name(k)) == k,
{
    lemma_last_index_of(k, '/');
    let i = last_index_of(k, '/');
    if i >= 0 {
        reveal_strlit("/");
        assert(k.take(i) + "/"@ + k.skip(i + 1) =~= k);
    }
}

/// Encoding a prefix with a name that holds no `'/'` and decoding the key
/// gives the same prefix and name back.
pub proof fn law_key_encode_decode(prefix: Seq<char>, name: Seq<char>)
    requires
        forall|i: int| 0 <= i < name.len() ==> name[i] != '/',
    ensures
        key_prefix(key_encode(prefix, name)) == prefix,
        key_name(key_encode(prefix, name)) == name,
{
    reveal_strlit("/");
    let k = key_encode(prefix, name);
    lemma_last_index_of(k, '/');
    if prefix == "/"@ {
        assert(k == name);
        if last_index_of(k, '/') >= 0 {
            assert(k[last_index_of(k, '/')] == '/');
        }
    } else {
        let j = prefix.len() as int;
        assert(k[j] == '/');
        assert forall|t: int| j < t < k.len() implies k[t] != '/' by {
            assert(k[t] == name[t - j - 1]);
        }
        if last_index_of(k, '/') != j {
            assert(last_index_of(k, '/') >= j);
            assert(k[last_index_of(k, '/')] == '/');
        }
        assert(k.take(j) =~= prefix);
        assert(k.skip(j + 1) =~= name);
    }
}

// ── ObjectProps ────────────────────────────────────────────

/// Compact object metadata; `flags` carries the side bits and the diff-mode
/// bit, `status` the comparison state.
#[derive(Debug, Clone, Copy)]
pub struct ObjectProps {
    pub flags: u8,
    pub status: u8,
    pub pad: u16,
    pub etag_parts: u32,
    pub last_modified: u64,
    pub size: u64,
    pub etag_md5: [u8; 16],
}

pub open spec fn flag_set(flags: u8, bit: u8) -> bool {
    flags & bit == bit
}

pub open spec fn props_is_left(p: ObjectProps) -> bool {
    flag_set(p.flags, OBJECT_PROPS_FLAG_DIR_LEFT)
}

pub open spec fn props_is_right(p: ObjectProps) -> bool {
    flag_set(p.flags, OBJECT_PROPS_FLAG_DIR_RIGHT)
}

pub open spec fn props_is_both(p: ObjectProps) -> bool {
    flag_set(p.flags, OBJECT_PROPS_FLAG_DIR_BOTH)
}

pub open spec fn props_is_diff_mode(p: ObjectProps) -> bool {
    flag_set(p.flags, OBJECT_PROPS_FLAG_DIFF_MODE)
}

/// No ETag was recorded: an all-zero digest and no part count.
pub open spec fn etag_missing(p: ObjectProps) -> bool {
    (forall|i: int| 0 <= i < 16 ==> p.etag_md5@[i] == 0u8) && p.etag_parts == 0
}

/// The row a completed match leaves behind: the left side's metadata with
/// both side bits set and the given status.
pub open spec fn matched_row(left: ObjectProps, status: u8) -> ObjectProps {
    ObjectProps { flags: left.flags | OBJECT_PROPS_FLAG_DIR_BOTH, status: status, ..left }
}

/// What `match_other` leaves in the accumulator and returns. `verdict` is the
/// installed filter's answer for the (left, right) pair, `None` when no
/// filter is installed or it could not decide.
pub open spec fn match_outcome(acc: ObjectProps, other: ObjectProps, verdict: Option<bool>) -> (
    ObjectProps,
    MatchResult,
) {
    if props_is_both(acc) {
        (acc, MatchResult::Dup)
    } else if (props_is_right(acc) && props_is_right(other)) || (props_is_left(acc)
        && props_is_left(other)) {
        (other, MatchResult::Dup)
    } else if !props_is_left(acc) && !props_is_right(acc) {
        (ObjectProps { status: OBJECT_PROPS_STATUS_FILTER_OUT, ..acc }, MatchResult::Ignore)
    } else {
        let left = if props_is_left(acc) {
            acc
        } else {
            other
        };
        let right = if props_is_left(acc) {
            other
        } else {
            acc
        };
        if verdict == Some(false) {
            (matched_row(left, OBJECT_PROPS_STATUS_FILTER_OUT), MatchResult::Ignore)
        } else if left.size != right.size {
            (matched_row(left, OBJECT_PROPS_STATUS_SIZE_NOT_MATCH), MatchResult::Astrisk)
        } else if etag_missing(left) || etag_missing(right) {
            (matched_row(left, OBJECT_PROPS_STATUS_ETAG_NOT_AVAIL), MatchResult::Astrisk)
        } else if left.etag_md5@ != right.etag_md5@ || left.etag_parts != right.etag_parts {
            (matched_row(left, OBJECT_PROPS_STATUS_ETAG_NOT_MATCH), MatchResult::Astrisk)
        } else {
            (matched_row(left, OBJECT_PROPS_STATUS_MATCH), MatchResult::Equal)
        }
    }
}

pub open spec fn both_or_ignore(p: ObjectProps, result: MatchResult) -> MatchResult {
    if props_is_both(p) {
        result
    } else {
        MatchResult::Ignore
    }
}

/// What `final_status_check` reports. `verdict` is the installed filter's
/// answer for the object alone (`None` when no filter is installed); it is
/// consulted only outside diff mode.
pub open spec fn final_status(p: ObjectProps, verdict: Option<bool>) -> MatchResult {
    if !props_is_diff_mode(p) && verdict == Some(false) {
        MatchResult::Ignore
    } else if p.status == OBJECT_PROPS_STATUS_FILTER_OUT {
        MatchResult::Ignore
    } else if p.status == OBJECT_PROPS_STATUS_SIZE_NOT_MATCH || p.status
        == OBJECT_PROPS_STATUS_ETAG_NOT_AVAIL || p.status == OBJECT_PROPS_STATUS_ETAG_NOT_MATCH {
        both_or_ignore(p, MatchResult::Astrisk)
    } else if p.status == OBJECT_PROPS_STATUS_MATCH {
        both_or_ignore(p, MatchResult::Equal)
    } else if p.status == OBJECT_PROPS_STATUS_OPEN {
        if props_is_both(p) {
            MatchResult::Ignore
        } else if props_is_left(p) {
            MatchResult::Plus
        } else if props_is_right(p) {
            MatchResult::Minus
        } else {
            MatchResult::Ignore
        }
    } else {
        MatchResult::Ignore
    }
}

/// Whether a list-mode row is written: not in diff mode, not rejected by
/// the filter (`verdict`), still open, and on exactly one side.
pub open spec fn list_output_includes(p: ObjectProps, verdict: Option<bool>) -> bool {
    &&& !props_is_diff_mode(p)
    &&& verdict != Some(false)
    &&& p.status == OBJECT_PROPS_STATUS_OPEN
    &&& (p.flags & OBJECT_PROPS_FLAG_DIR_BOTH == OBJECT_PROPS_FLAG_DIR_LEFT || p.flags
        & OBJECT_PROPS_FLAG_DIR_BOTH == OBJECT_PROPS_FLAG_DIR_RIGHT)
}

pub open spec fn hex_digit(n: u8) -> char {
    if n == 0 {
        '0'
    } else if n == 1 {
        '1'
    } else if n == 2 {
        '2'
    } else if n == 3 {
        '3'
    } else if n == 4 {
        '4'
    } else if n == 5 {
        '5'
    } else if n == 6 {
        '6'
    } else if n == 7 {
        '7'
    } else if n == 8 {
        '8'
    } else if n == 9 {
        '9'
    } else if n == 10 {
        'a'
    } else if n == 11 {
        'b'
    } else if n == 12 {
        'c'
    } else if n == 13 {
        'd'
    } else if n == 14 {
        'e'
    } else {
        'f'
    }
}

/// Lower-case hexadecimal rendering, two digits per byte, high nibble
/// first.
pub open spec fn hex_lower(bytes: Seq<u8>) -> Seq<char> {
    Seq::new(
        2 * bytes.len(),
        |i: int|
            if i % 2 == 0 {
                hex_digit(bytes[i / 2] / 16)
            } else {
                hex_digit(bytes[i / 2] % 16)
            },
    )
}

/// The ETag text: hex digest, then `-parts` for multipart uploads.
pub open spec fn etag_text(p: ObjectProps) -> Seq<char> {
    if p.etag_parts == 0 {
        hex_lower(p.etag_md5@)
    } else {
        hex_lower(p.etag_md5@) + "-"@ + dec(p.etag_parts as nat)
    }
}

/// `hex::encode`: the lower-case hexadecimal text of the bytes, two digits
/// per byte, high nibble first.
#[verifier::external_body]
pub(crate) fn hex_encode(bytes: &[u8]) -> (r: String)
    ensures
        r@ == hex_lower(bytes@),
{
    hex::encode(bytes)
}

// ── Listing entries ────────────────────────────────────────

/// The value of a hexadecimal digit, either case; -1 for any other byte.
pub open spec fn hex_val(c: u8) -> int {
    if 48 <= c <= 57 {
        c - 48
    } else if 97 <= c <= 102 {
        c - 87
    } else if 65 <= c <= 70 {
        c - 55
    } else {
        -1
    }
}

pub open spec fn pair_ok(d: Seq<u8>, i: int) -> bool {
    hex_val(d[2 * i]) >= 0 && hex_val(d[2 * i + 1]) >= 0
}

pub open spec fn pair_val(d: Seq<u8>, i: int) -> u8 {
    (hex_val(d[2 * i]) * 16 + hex_val(d[2 * i + 1])) as u8
}

/// The first of the 16 digit pairs of `d` from `i` on that is not hex.
pub open spec fn first_bad_pair(d: Seq<u8>, i: nat) -> nat
    decreases 16 - i,
{
    if i >= 16 {
        16
    } else if !pair_ok(d, i as int) {
        i
    } else {
        first_bad_pair(d, i + 1)
    }
}

/// Whether `d` is 32 hexadecimal digits.
pub open spec fn hex16_ok(d: Seq<u8>) -> bool {
    d.len() == 32 && first_bad_pair(d, 0) == 16
}

/// What decoding `d` into a 16-byte buffer leaves there: with any other
/// length nothing is written; otherwise the pairs before the first bad one
/// are decoded in place.
pub open spec fn decode_into(d: Seq<u8>, out: Seq<u8>) -> Seq<u8> {
    if d.len() != 32 {
        out
    } else {
        Seq::new(16, |i: int| if i < first_bad_pair(d, 0) { pair_val(d, i) } else { out[i] })
    }
}

/// `hex::decode_to_slice` into a 16-byte buffer. Its source checks the
/// length first and then decodes pair by pair, stopping at the first
/// non-hex digit; it succeeds exactly for 32 hex digits of either case.
#[verifier::external_body]
fn hex_decode_into(data: &[u8], out: &mut [u8; 16]) -> (r: bool)
    ensures
        r == hex16_ok(data@),
        final(out)@ == decode_into(data@, old(out)@),
{
    hex::decode_to_slice(data, out).is_ok()
}

/// The value of a run of decimal digits.
pub open spec fn digits_value(d: Seq<u8>) -> nat
    decreases d.len(),
{
    if d.len() == 0 {
        0
    } else {
        digits_value(d.drop_last()) * 10 + (d.last() - 48) as nat
    }
}

pub open spec fn all_digits(d: Seq<u8>) -> bool {
    forall|i: int| 0 <= i < d.len() ==> 48 <= #[trigger] d[i] <= 57
}

/// What `str::parse::<usize>` gives for the text of `d`: an optional `+`,
/// then at least one decimal digit, with a value that fits.
pub open spec fn parse_usize_spec(d: Seq<u8>) -> Option<nat> {
    let digits = if d.len() > 0 && d[0] == 43 {
        d.drop_first()
    } else {
        d
    };
    if digits.len() > 0 && all_digits(digits) && digits_value(digits) <= usize::MAX {
        Some(digits_value(digits))
    } else {
        None
    }
}

fn parse_usize_bytes(d: &[u8]) -> (r: Option<usize>)
    ensures
        match r {
            Some(n) => parse_usize_spec(d@) == Some(n as nat),
            None => parse_usize_spec(d@) is None,
        },
{
    let start: usize = if d.len() > 0 && d[0] == 43 {
        1
    } else {
        0
    };
    let ghost digits = if d@.len() > 0 && d@[0] == 43 {
        d@.drop_first()
    } else {
        d@
    };
    assert(digits =~= d@.subrange(start as int, d@.len() as int));
    if start >= d.len() {
        return None;
    }
    let mut v: usize = 0;
    let mut i: usize = start;
    while i < d.len()
        invariant
            start <= i <= d.len(),
            digits =~= d@.subrange(start as int, d@.len() as int),
            digits == (if d@.len() > 0 && d@[0] == 43 {
                d@.drop_first()
            } else {
                d@
            }),
            all_digits(d@.subrange(start as int, i as int)),
            v as nat == digits_value(d@.subrange(start as int, i as int)),
        decreases d.len() - i,
    {
        let c = d[i];
        assert(d@.subrange(start as int, i + 1).drop_last() =~= d@.subrange(start as int, i as int));
        if !(48 <= c && c <= 57) {
            proof {
                assert(digits[i - start] == c);
                assert(!(48 <= digits[i - start] <= 57));
            }
            return None;
        }
        let dv: usize = (c - 48) as usize;
        if v > (usize::MAX - dv) / 10 {
            proof {
                assert(d@.subrange(start as int, i + 1) =~= digits.take((i - start + 1) as int));
                assert(digits_value(d@.subrange(start as int, i + 1)) == v * 10 + dv);
                if all_digits(digits) {
                    lemma_prefix_value_le(digits, (i - start + 1) as nat);
                }
                assert(v * 10 + dv > usize::MAX) by (nonlinear_arith)
                    requires
                        v > (usize::MAX - dv) / 10,
                        dv <= 9,
                ;
            }
            return None;
        }
        assert(v * 10 + dv <= usize::MAX) by (nonlinear_arith)
            requires
                v <= (usize::MAX - dv) / 10,
                dv <= 9,
        ;
        v = v * 10 + dv;
        i += 1;
    }
    assert(d@.subrange(start as int, d@.len() as int) =~= digits);
    Some(v)
}

/// The value of a prefix of digits never exceeds that of the whole.
proof fn lemma_prefix_value_le(d: Seq<u8>, k: nat)
    requires
        all_digits(d),
        k <= d.len(),
    ensures
        digits_value(d.take(k as int)) <= digits_value(d),
    decreases d.len() - k,
{
    if k < d.len() {
        lemma_prefix_value_le(d, k + 1);
        assert(d.take(k as int + 1).drop_last() =~= d.take(k as int));
        assert(48 <= d[k as int] <= 57);
    } else {
        assert(d.take(k as int) =~= d);
    }
}

/// The MD5 bytes and part count of an ETag: `"<32 hex>"` gives the digest
/// with no parts; `"<32 hex>-<parts>"` the digest and the part count (cut
/// to 32 bits); anything else what the decoding left in a zeroed buffer.
pub open spec fn etag_fields(c: Seq<char>, b: Seq<u8>) -> (Seq<u8>, u32) {
    let zero = Seq::new(16, |i: int| 0u8);
    if b.len() == 34 {
        (decode_into(b.subrange(1, 33), zero), 0u32)
    } else if b.len() >= 36 && c.len() > 33 && c[33] == '-' {
        let m = decode_into(b.subrange(1, 33), zero);
        if hex16_ok(b.subrange(1, 33)) {
            match parse_usize_spec(b.subrange(34, b.len() - 1)) {
                Some(n) => (m, n as u32),
                None => (m, 0u32),
            }
        } else {
            (m, 0u32)
        }
    } else {
        (zero, 0u32)
    }
}

/// The positions at which the ETag is cut, where it is cut, are character
/// boundaries: bytes 1 and 33 for a 34-byte ETag or a multipart one (36
/// bytes or more with `-` as character 33), and, where the digest of a
/// multipart one decodes, bytes 34 and the last one too.
pub open spec fn etag_cuts_ok(c: Seq<char>, b: Seq<u8>) -> bool {
    &&& b.len() == 34 ==> vstd::utf8::is_char_boundary(b, 1) && vstd::utf8::is_char_boundary(b, 33)
    &&& (b.len() >= 36 && c.len() > 33 && c[33] == '-') ==> {
        &&& vstd::utf8::is_char_boundary(b, 1)
        &&& vstd::utf8::is_char_boundary(b, 33)
        &&& hex16_ok(b.subrange(1, 33)) ==> vstd::utf8::is_char_boundary(b, 34)
            && vstd::utf8::is_char_boundary(b, b.len() - 1)
    }
}

/// An object's metadata from a listing entry: OPEN in a general-purpose
/// bucket, with the ETag's digest and part count, the last-modified
/// seconds and the size (each 0 when absent).
pub fn props_from_listing(etag: Option<&str>, last_modified_secs: Option<i64>, size: Option<i64>) -> (r:
    ObjectProps)
    requires
        match etag {
            Some(e) => etag_cuts_ok(e@, e.spec_bytes()),
            None => true,
        },
    ensures
        r.flags == OBJECT_PROPS_FLAG_S3_GP_BUCKET,
        r.status == OBJECT_PROPS_STATUS_OPEN,
        r.pad == 0,
        r.last_modified == match last_modified_secs {
            Some(x) => x as u64,
            None => 0u64,
        },
        r.size == match size {
            Some(x) => x as u64,
            None => 0u64,
        },
        match etag {
            Some(e) => (r.etag_md5@, r.etag_parts) == etag_fields(e@, e.spec_bytes()),
            None => r.etag_md5@ == Seq::new(16, |i: int| 0u8) && r.etag_parts == 0,
        },
{
    let mut md5: [u8; 16] = [0u8; 16];
    let mut parts: u32 = 0;
    proof {
        assert(md5@ =~= Seq::new(16, |i: int| 0u8));
    }
    match etag {
        Some(e) => {
            let b = e.as_bytes();
            if b.len() == 34 {
                let _ = hex_decode_into(slice_range(b, 1, 33), &mut md5);
            } else if b.len() >= 36 {
                let c = crate::text::str_chars(e);
                if c.len() > 33 && c[33] == '-' {
                    let ok = hex_decode_into(slice_range(b, 1, 33), &mut md5);
                    if ok {
                        match parse_usize_bytes(slice_range(b, 34, b.len() - 1)) {
                            Some(n) => {
                                parts = n as u32;
                            },
                            None => {},
                        }
                    }
                }
            }
        },
        None => {},
    }
    ObjectProps {
        flags: OBJECT_PROPS_FLAG_S3_GP_BUCKET,
        status: OBJECT_PROPS_STATUS_OPEN,
        pad: 0,
        etag_parts: parts,
        last_modified: match last_modified_secs {
            Some(x) => x as u64,
            None => 0,
        },
        size: match size {
            Some(x) => x as u64,
            None => 0,
        },
        etag_md5: md5,
    }
}

fn slice_range(b: &[u8], from: usize, to: usize) -> (r: &[u8])
    requires
        from <= to <= b.len(),
    ensures
        r@ == b@.subrange(from as int, to as int),
{
    vstd::slice::slice_subrange(b, from, to)
}

/// `std::str::from_utf8` on an ASCII prefix of a byte buffer: the text whose
/// characters are those bytes.
#[verifier::external_body]
fn ascii_prefix_str<'a>(buf: &'a [u8; 43], len: usize) -> (r: &'a str)
    requires
        len <= 43,
        forall|i: int| 0 <= i < len ==> buf@[i] < 128,
    ensures
        r@ == Seq::new(len as nat, |i: int| buf@[i] as char),
{
    std::str::from_utf8(&buf[..len]).unwrap()
}

fn hex_digit_exec(n: u8) -> (c: char)
    requires
        n < 16,
    ensures
        c == hex_digit(n),
{
    if n == 0 {
        '0'
    } else if n == 1 {
        '1'
    } else if n == 2 {
        '2'
    } else if n == 3 {
        '3'
    } else if n == 4 {
        '4'
    } else if n == 5 {
        '5'
    } else if n == 6 {
        '6'
    } else if n == 7 {
        '7'
    } else if n == 8 {
        '8'
    } else if n == 9 {
        '9'
    } else if n == 10 {
        'a'
    } else if n == 11 {
        'b'
    } else if n == 12 {
        'c'
    } else if n == 13 {
        'd'
    } else if n == 14 {
        'e'
    } else {
        'f'
    }
}

impl ObjectProps {
    /// The all-zero metadata (no side, status 0, no ETag).
    pub fn default() -> (r: Self)
        ensures
            r.flags == 0,
            r.status == 0,
            r.pad == 0,
            r.etag_parts == 0,
            r.last_modified == 0,
            r.size == 0,
            r.etag_md5@ == Seq::new(16, |i: int| 0u8),
    {
        let r = ObjectProps {
            flags: 0,
            status: 0,
            pad: 0,
            etag_parts: 0,
            last_modified: 0,
            size: 0,
            etag_md5: [0u8; 16],
        };
        assert(r.etag_md5@ =~= Seq::new(16, |i: int| 0u8));
        r
    }

    /// Metadata with OPEN status and the given direction flags.
    pub fn new_open(dir: u8, size: u64, etag: [u8; 16]) -> (r: Self)
        ensures
            r == (ObjectProps {
                flags: dir,
                status: OBJECT_PROPS_STATUS_OPEN,
                pad: 0,
                etag_parts: 0,
                last_modified: 0,
                size: size,
                etag_md5: etag,
            }),
    {
        Self {
            flags: dir,
            status: OBJECT_PROPS_STATUS_OPEN,
            pad: 0,
            etag_parts: 0,
            last_modified: 0,
            size,
            etag_md5: etag,
        }
    }

    pub fn set_dir(&mut self, dir: u8)
        ensures
            *final(self) == (ObjectProps { flags: old(self).flags | dir, ..*old(self) }),
    {
        self.flags = self.flags | dir;
    }

    pub fn is_diff_mode(&self) -> (r: bool)
        ensures
            r == props_is_diff_mode(*self),
    {
        (self.flags & OBJECT_PROPS_FLAG_DIFF_MODE) == OBJECT_PROPS_FLAG_DIFF_MODE
    }

    pub fn is_left(&self) -> (r: bool)
        ensures
            r == props_is_left(*self),
    {
        (self.flags & OBJECT_PROPS_FLAG_DIR_LEFT) == OBJECT_PROPS_FLAG_DIR_LEFT
    }

    pub fn is_right(&self) -> (r: bool)
        ensures
            r == props_is_right(*self),
    {
        (self.flags & OBJECT_PROPS_FLAG_DIR_RIGHT) == OBJECT_PROPS_FLAG_DIR_RIGHT
    }

    pub fn size(&self) -> (r: u64)
        ensures
            r == self.size,
    {
        self.size
    }

    pub fn last_modified(&self) -> (r: u64)
        ensures
            r == self.last_modified,
    {
        self.last_modified
    }

    pub fn is_etag_not_avail(&self) -> (r: bool)
        ensures
            r == etag_missing(*self),
    {
        let mut i: usize = 0;
        while i < 16
            invariant
                i <= 16,
                forall|k: int| 0 <= k < i ==> self.etag_md5@[k] == 0u8,
            decreases 16 - i,
        {
            if self.etag_md5[i] != 0 {
                return false;
            }
            i += 1;
        }
        self.etag_parts == 0
    }

    pub fn etag(&self) -> (r: ([u8; 16], u32))
        ensures
            r.0 == self.etag_md5,
            r.1 == self.etag_parts,
    {
        (self.etag_md5, self.etag_parts)
    }

    /// The ETag text (see `etag_text`), via the hex crate.
    pub fn etag_string(&self) -> (r: String)
        ensures
            r@ == etag_text(*self),
    {
        let hex = hex_encode(&self.etag_md5);
        if self.etag_parts == 0 {
            hex
        } else {
            let mut out = str_chars(hex.as_str());
            out.push('-');
            push_dec(&mut out, self.etag_parts as u64);
            proof {
                reveal_strlit("-");
                assert(out@ =~= etag_text(*self));
            }
            string_from_chars(out.as_slice())
        }
    }

    fn etag_chars(&self) -> (r: Vec<char>)
        ensures
            r@ == etag_text(*self),
            r@.len() <= 43,
            forall|i: int| 0 <= i < r@.len() ==> (r@[i] as int) < 128,
    {
        let mut out: Vec<char> = Vec::new();
        let mut i: usize = 0;
        while i < 16
            invariant
                i <= 16,
                out@ =~= hex_lower(self.etag_md5@.take(i as int)),
                forall|k: int| 0 <= k < out@.len() ==> (out@[k] as int) < 128,
            decreases 16 - i,
        {
            let byte = self.etag_md5[i];
            let hi: u8 = byte >> 4;
            let lo: u8 = byte & 0x0f;
            assert(hi == byte / 16 && lo == byte % 16) by (bit_vector)
                requires
                    hi == byte >> 4,
                    lo == byte & 0x0f,
            ;
            out.push(hex_digit_exec(hi));
            out.push(hex_digit_exec(lo));
            i += 1;
            assert(out@ =~= hex_lower(self.etag_md5@.take(i as int)));
        }
        assert(self.etag_md5@.take(16) =~= self.etag_md5@);
        if self.etag_parts != 0 {
            out.push('-');
            let d = crate::text::dec_chars(self.etag_parts as u64);
            proof {
                lemma_dec_ascii(self.etag_parts as nat);
            }
            append_chars(&mut out, d.as_slice());
            proof {
                reveal_strlit("-");
                assert(out@ =~= etag_text(*self));
            }
        }
        out
    }

    /// Writes the ETag text into `buf` and returns it; same text as
    /// `etag_string`.
    pub fn write_etag_to_buffer<'a>(&self, buf: &'a mut [u8; 43]) -> (r: &'a str)
        ensures
            r@ == etag_text(*self),
    {
        let chars = self.etag_chars();
        let mut i: usize = 0;
        while i < chars.len()
            invariant
                chars@ == etag_text(*self),
                chars@.len() <= 43,
                forall|k: int| 0 <= k < chars@.len() ==> (chars@[k] as int) < 128,
                i <= chars.len(),
                forall|k: int| 0 <= k < i ==> buf@[k] as int == chars@[k] as int,
            decreases chars.len() - i,
        {
            let c = chars[i];
            buf[i] = ascii_char_to_byte(c);
            i += 1;
        }
        assert forall|k: int| 0 <= k < chars@.len() implies buf@[k] < 128 by {
            assert(buf@[k] as int == chars@[k] as int);
            assert((chars@[k] as int) < 128);
        }
        let out: &'a [u8; 43] = buf;
        let r = ascii_prefix_str(out, chars.len());
        assert(r@ =~= chars@);
        r
    }

    /// Appends the ETag text to `out`.
    pub fn append_etag_string(&self, out: &mut String)
        ensures
            final(out)@ == old(out)@ + etag_text(*self),
    {
        let chars = self.etag_chars();
        let s = string_from_chars(chars.as_slice());
        string_push_str(out, s.as_str());
    }

    /// Whether a list-mode row is written; `verdict` is the installed
    /// filter's answer for this object (`None` without a filter).
    pub fn include_in_list_output(&self, verdict: Option<bool>) -> (r: bool)
        ensures
            r == list_output_includes(*self, verdict),
    {
        if self.is_diff_mode() {
            return false;
        }
        if verdict == Some(false) {
            return false;
        }
        if self.status != OBJECT_PROPS_STATUS_OPEN {
            return false;
        }
        let dir = self.flags & OBJECT_PROPS_FLAG_DIR_BOTH;
        dir == OBJECT_PROPS_FLAG_DIR_LEFT || dir == OBJECT_PROPS_FLAG_DIR_RIGHT
    }

    /// Final classification of a row at dump time.
    pub fn final_status_check(&self, verdict: Option<bool>) -> (r: MatchResult)
        ensures
            r == final_status(*self, verdict),
    {
        if !self.is_diff_mode() {
            if verdict == Some(false) {
                return MatchResult::Ignore;
            }
        }
        if self.status == OBJECT_PROPS_STATUS_FILTER_OUT {
            return MatchResult::Ignore;
        }
        if self.status == OBJECT_PROPS_STATUS_SIZE_NOT_MATCH || self.status
            == OBJECT_PROPS_STATUS_ETAG_NOT_AVAIL || self.status
            == OBJECT_PROPS_STATUS_ETAG_NOT_MATCH {
            return self.both_sides_or_ignore(MatchResult::Astrisk);
        }
        if self.status == OBJECT_PROPS_STATUS_MATCH {
            return self.both_sides_or_ignore(MatchResult::Equal);
        }
        if self.status == OBJECT_PROPS_STATUS_OPEN {
            if (self.flags & OBJECT_PROPS_FLAG_DIR_BOTH) == OBJECT_PROPS_FLAG_DIR_BOTH {
                return MatchResult::Ignore;
            }
            return if self.is_left() {
                MatchResult::Plus
            } else if self.is_right() {
                MatchResult::Minus
            } else {
                MatchResult::Ignore
            };
        }
        MatchResult::Ignore
    }

    fn both_sides_or_ignore(&self, result: MatchResult) -> (r: MatchResult)
        ensures
            r == both_or_ignore(*self, result),
    {
        if (self.flags & OBJECT_PROPS_FLAG_DIR_BOTH) == OBJECT_PROPS_FLAG_DIR_BOTH {
            result
        } else {
            MatchResult::Ignore
        }
    }

    /// The (left, right) pair that `match_other` would hand to the filter, or
    /// `None` when it decides without consulting the filter.
    pub fn match_sides<'a>(&'a self, other: &'a ObjectProps) -> (r: Option<
        (&'a ObjectProps, &'a ObjectProps),
    >)
        ensures
            match r {
                Some((l, rr)) => {
                    &&& !props_is_both(*self)
                    &&& !((props_is_right(*self) && props_is_right(*other)) || (props_is_left(
                        *self,
                    ) && props_is_left(*other)))
                    &&& (props_is_left(*self) || props_is_right(*self))
                    &&& *l == if props_is_left(*self) {
                        *self
                    } else {
                        *other
                    }
                    &&& *rr == if props_is_left(*self) {
                        *other
                    } else {
                        *self
                    }
                },
                None => props_is_both(*self) || (props_is_right(*self) && props_is_right(*other))
                    || (props_is_left(*self) && props_is_left(*other)) || (!props_is_left(*self)
                    && !props_is_right(*self)),
            },
    {
        if (self.flags & OBJECT_PROPS_FLAG_DIR_BOTH) == OBJECT_PROPS_FLAG_DIR_BOTH {
            return None;
        }
        if (self.is_right() && other.is_right()) || (self.is_left() && other.is_left()) {
            return None;
        }
        if self.is_left() {
            Some((self, other))
        } else if self.is_right() {
            Some((other, self))
        } else {
            None
        }
    }

    /// Matches two rows from opposite sides; `self` is the accumulator.
    /// `verdict` is the filter's answer for the pair `match_sides` reports.
    pub fn match_other(&mut self, other: &ObjectProps, verdict: Option<bool>) -> (r: MatchResult)
        ensures
            (*final(self), r) == match_outcome(*old(self), *other, verdict),
    {
        if (self.flags & OBJECT_PROPS_FLAG_DIR_BOTH) == OBJECT_PROPS_FLAG_DIR_BOTH {
            return MatchResult::Dup;
        }
        if (self.is_right() && other.is_right()) || (self.is_left() && other.is_left()) {
            *self = *other;
            return MatchResult::Dup;
        }
        let left: ObjectProps;
        let right: ObjectProps;
        if self.is_left() {
            left = *self;
            right = *other;
        } else if self.is_right() {
            left = *other;
            right = *self;
        } else {
            self.status = OBJECT_PROPS_STATUS_FILTER_OUT;
            return MatchResult::Ignore;
        }
        let status: u8;
        let result: MatchResult;
        if verdict == Some(false) {
            status = OBJECT_PROPS_STATUS_FILTER_OUT;
            result = MatchResult::Ignore;
        } else if left.size != right.size {
            status = OBJECT_PROPS_STATUS_SIZE_NOT_MATCH;
            result = MatchResult::Astrisk;
        } else if left.is_etag_not_avail() || right.is_etag_not_avail() {
            status = OBJECT_PROPS_STATUS_ETAG_NOT_AVAIL;
            result = MatchResult::Astrisk;
        } else if !same_etag(&left, &right) {
            status = OBJECT_PROPS_STATUS_ETAG_NOT_MATCH;
            result = MatchResult::Astrisk;
        } else {
            status = OBJECT_PROPS_STATUS_MATCH;
            result = MatchResult::Equal;
        }
        *self = left;
        self.flags = self.flags | OBJECT_PROPS_FLAG_DIR_BOTH;
        self.status = status;
        result
    }
}

fn same_etag(a: &ObjectProps, b: &ObjectProps) -> (r: bool)
    ensures
        r == (a.etag_md5@ == b.etag_md5@ && a.etag_parts == b.etag_parts),
{
    let mut i: usize = 0;
    while i < 16
        invariant
            i <= 16,
            forall|k: int| 0 <= k < i ==> a.etag_md5@[k] == b.etag_md5@[k],
        decreases 16 - i,
    {
        if a.etag_md5[i] != b.etag_md5[i] {
            return false;
        }
        i += 1;
    }
    assert(a.etag_md5@ =~= b.etag_md5@);
    a.etag_parts == b.etag_parts
}

fn ascii_char_to_byte(c: char) -> (b: u8)
    requires
        (c as int) < 128,
    ensures
        b as int == c as int,
{
    c as u8
}

proof fn lemma_dec_ascii(n: nat)
    ensures
        n < 10000000000 ==> dec(n).len() <= 10,
        forall|i: int| 0 <= i < dec(n).len() ==> (dec(n)[i] as int) < 128,
{
    lemma_dec_len(n, 10);
    lemma_dec_chars(n);
}

spec fn pow10(k: nat) -> nat
    decreases k,
{
    if k == 0 {
        1
    } else {
        10 * pow10((k - 1) as nat)
    }
}

proof fn lemma_dec_len(n: nat, k: nat)
    ensures
        k >= 1 && n < pow10(k) ==> dec(n).len() <= k,
        pow10(10) == 10000000000,
    decreases k,
{
    reveal_with_fuel(pow10, 11);
    if k >= 2 && n >= 10 && n < pow10(k) {
        assert(n / 10 < pow10((k - 1) as nat)) by (nonlinear_arith)
            requires
                n < 10 * pow10((k - 1) as nat),
        ;
        lemma_dec_len(n / 10, (k - 1) as nat);
    }
}

proof fn lemma_dec_chars(n: nat)
    ensures
        forall|i: int| 0 <= i < dec(n).len() ==> (dec(n)[i] as int) < 128,
    decreases n,
{
    if n >= 10 {
        lemma_dec_chars(n / 10);
        let d = dec(n);
        assert(d == dec(n / 10).push(digit_char(n % 10)));
        assert forall|i: int| 0 <= i < d.len() implies (d[i] as int) < 128 by {
            if i < d.len() - 1 {
                assert(d[i] == dec(n / 10)[i]);
            }
        }
    }
}

proof fn lemma_flag_bits(f: u8)
    ensures
        flag_set(f, OBJECT_PROPS_FLAG_DIR_BOTH) == (flag_set(f, OBJECT_PROPS_FLAG_DIR_LEFT)
            && flag_set(f, OBJECT_PROPS_FLAG_DIR_RIGHT)),
        flag_set(f | OBJECT_PROPS_FLAG_DIR_BOTH, OBJECT_PROPS_FLAG_DIR_BOTH),
        flag_set(f | OBJECT_PROPS_FLAG_DIR_BOTH, OBJECT_PROPS_FLAG_DIR_LEFT),
        flag_set(f | OBJECT_PROPS_FLAG_DIR_BOTH, OBJECT_PROPS_FLAG_DIR_RIGHT),
        flag_set(f | OBJECT_PROPS_FLAG_DIR_BOTH, OBJECT_PROPS_FLAG_DIFF_MODE) == flag_set(
            f,
            OBJECT_PROPS_FLAG_DIFF_MODE,
        ),
{
    assert(((f & 0xC0u8) == 0xC0u8) == ((f & 0x80u8) == 0x80u8 && (f & 0x40u8) == 0x40u8))
        by (bit_vector);
    assert(((f | 0xC0u8) & 0xC0u8) == 0xC0u8) by (bit_vector);
    assert(((f | 0xC0u8) & 0x80u8) == 0x80u8) by (bit_vector);
    assert(((f | 0xC0u8) & 0x40u8) == 0x40u8) by (bit_vector);
    assert((((f | 0xC0u8) & 0x20u8) == 0x20u8) == ((f & 0x20u8) == 0x20u8)) by (bit_vector);
}

/// Matching does not depend on which side's row arrived first: a left-only
/// row matched against a right-only row leaves the same row and returns the
/// same result as the other way round.
pub proof fn law_match_order_independent(l: ObjectProps, r: ObjectProps, verdict: Option<bool>)
    requires
        props_is_left(l),
        !props_is_right(l),
        props_is_right(r),
        !props_is_left(r),
    ensures
        match_outcome(l, r, verdict) == match_outcome(r, l, verdict),
{
    lemma_flag_bits(l.flags);
    lemma_flag_bits(r.flags);
}

/// Once a row has been matched against the other side, it is complete: any
/// further row for the same key is reported as a duplicate and leaves it
/// unchanged.
pub proof fn law_matched_row_is_final(
    acc: ObjectProps,
    other: ObjectProps,
    verdict: Option<bool>,
    next: ObjectProps,
    next_verdict: Option<bool>,
)
    requires
        match_outcome(acc, other, verdict).1 == MatchResult::Equal || match_outcome(
            acc,
            other,
            verdict,
        ).1 == MatchResult::Astrisk,
    ensures
        match_outcome(match_outcome(acc, other, verdict).0, next, next_verdict) == (
            match_outcome(acc, other, verdict).0,
            MatchResult::Dup,
        ),
{
    lemma_flag_bits(acc.flags);
    lemma_flag_bits(other.flags);
}

/// In a diff run, the classification `match_other` returns for a pair is the
/// one the row reports when it is dumped.
pub proof fn law_match_result_is_dumped(
    acc: ObjectProps,
    other: ObjectProps,
    verdict: Option<bool>,
    dump_verdict: Option<bool>,
)
    requires
        props_is_diff_mode(acc),
        props_is_diff_mode(other),
        match_outcome(acc, other, verdict).1 != MatchResult::Dup,
    ensures
        final_status(match_outcome(acc, other, verdict).0, dump_verdict) == match_outcome(
            acc,
            other,
            verdict,
        ).1,
{
    lemma_flag_bits(acc.flags);
    lemma_flag_bits(other.flags);
}

// ── Metrics ────────────────────────────────────────────────

/// Object and byte totals of one prefix.
#[derive(Debug, Clone)]
pub struct PrefixMetric {
    pub prefix: String,
    pub objects: usize,
    pub bytes: u64,
}

/// Counters of a finished run.
#[derive(Debug, Clone)]
pub struct RunMetricsSnapshot {
    pub fatal_errors: usize,
    pub output_errors: usize,
    pub stream_timeouts: usize,
    pub s3_client_timeouts: usize,
    pub s3_client_generic_errors: usize,
    pub data_received_batches: usize,
    pub data_received_objects: usize,
    pub data_streamed_rows: usize,
    pub data_unique_prefixes: usize,
    pub data_parquet_rows: usize,
    pub data_ks_entries: usize,
    pub data_bytes_total: u64,
    pub data_top_prefixes: Vec<PrefixMetric>,
    pub data_summary_only: bool,
}

// ── Key-space segments ─────────────────────────────────────

/// One key-space segment: list keys after `start` up to (not including)
/// `end`; no `end` means to the end of the key space.
#[derive(Debug, Clone)]
pub struct KeySpacePair {
    pub index: usize,
    pub start: String,
    pub end: Option<String>,
}

/// A segment as plain values: (index, start, end).
pub type PairV = (usize, Seq<char>, Option<Seq<char>>);

pub open spec fn opt_str_v(o: Option<String>) -> Option<Seq<char>> {
    match o {
        Some(s) => Some(s@),
        None => None,
    }
}

pub open spec fn pair_v(p: KeySpacePair) -> PairV {
    (p.index, p.start@, opt_str_v(p.end))
}

pub open spec fn pairs_v(s: Seq<KeySpacePair>) -> Seq<PairV> {
    Seq::new(s.len(), |i: int| pair_v(s[i]))
}

/// An empty end boundary means "unbounded".
pub open spec fn end_of(e: Seq<char>) -> Option<Seq<char>> {
    if e.len() == 0 {
        None
    } else {
        Some(e)
    }
}

/// The segments that a boundary list partitions the key space into:
/// `""→b0, b0→b1, …, b(n-1)→∞`, or one unbounded segment without
/// boundaries.
pub open spec fn segments_of(h: Seq<Seq<char>>) -> Seq<PairV> {
    if h.len() == 0 {
        seq![(0usize, Seq::<char>::empty(), None::<Seq<char>>)]
    } else {
        Seq::new(
            (h.len() + 1) as nat,
            |i: int|
                (
                    i as usize,
                    if i == 0 {
                        Seq::<char>::empty()
                    } else {
                        h[i - 1]
                    },
                    if i < h.len() {
                        end_of(h[i])
                    } else {
                        None
                    },
                ),
        )
    }
}

/// The segments whose index is not in `completed`, in order.
pub open spec fn drop_completed(s: Seq<PairV>, completed: Seq<usize>) -> Seq<PairV>
    decreases s.len(),
{
    if s.len() == 0 {
        s
    } else if completed.contains(s.last().0) {
        drop_completed(s.drop_last(), completed)
    } else {
        drop_completed(s.drop_last(), completed).push(s.last())
    }
}

impl KeySpacePair {
    pub fn new(index: usize, start: String, end: String) -> (r: Self)
        ensures
            pair_v(r) == (index, start@, end_of(end@)),
    {
        let e = if end.as_str().is_empty() {
            None
        } else {
            Some(end)
        };
        Self { index, start, end: e }
    }

    pub fn to_task_input(&self) -> (r: (&str, Option<&str>))
        ensures
            r.0@ == self.start@,
            match r.1 {
                Some(e) => self.end is Some && e@ == self.end->0@,
                None => self.end is None,
            },
    {
        let end = match &self.end {
            Some(e) => Some(e.as_str()),
            None => None,
        };
        (self.start.as_str(), end)
    }

    /// A copy of the segment.
    pub fn duplicate(&self) -> (r: Self)
        ensures
            pair_v(r) == pair_v(*self),
    {
        let end = match &self.end {
            Some(e) => Some(e.clone()),
            None => None,
        };
        KeySpacePair { index: self.index, start: self.start.clone(), end }
    }
}

// ── Boundaries that look like leaked TOML ──────────────────

/// `'b'. ` followed by `tail`, after the boundary's index: the shape of every
/// suspicious-boundary warning.
pub open spec fn boundary_msg(i: nat, what: Seq<char>, b: Seq<char>, tail: Seq<char>) -> Seq<char> {
    "KeySpaceHints boundary "@ + dec(i) + what + b + "'. "@ + tail
}

pub open spec fn leading_ws(b: Seq<char>) -> bool {
    b.len() > 0 && (b[0] == ' ' || b[0] == '\t')
}

pub open spec fn trailing_comma(b: Seq<char>) -> bool {
    b.len() > 0 && b[b.len() - 1] == ','
}

pub open spec fn quoted_by(b: Seq<char>, q: char) -> bool {
    b.len() > 0 && b[0] == q && b[b.len() - 1] == q
}

pub open spec fn toml_bracket(b: Seq<char>) -> bool {
    b == seq!['['] || b == seq![']']
}

pub open spec fn opt_msg(c: bool, m: Seq<char>) -> Seq<Seq<char>> {
    if c {
        seq![m]
    } else {
        Seq::empty()
    }
}

/// The warnings for boundary `i`, one per pattern of leaked TOML that it shows.
pub open spec fn boundary_suspicions(i: nat, b: Seq<char>) -> Seq<Seq<char>> {
    opt_msg(
        leading_ws(b),
        boundary_msg(
            i,
            " has leading whitespace: '"@,
            b,
            "This will be sent verbatim as an S3 start_after value and may cause request failures."@,
        ),
    ) + opt_msg(
        trailing_comma(b),
        boundary_msg(i, " ends with a comma: '"@, b, "This looks like leaked TOML array syntax."@),
    ) + opt_msg(
        quoted_by(b, '"') || quoted_by(b, '\''),
        boundary_msg(i, " is quoted: '"@, b, "This looks like leaked TOML string syntax."@),
    ) + opt_msg(
        toml_bracket(b),
        boundary_msg(
            i,
            " is a TOML bracket: '"@,
            b,
            "This will produce invalid S3 start_after values."@,
        ),
    ) + opt_msg(
        crate::text::has_char(b, '='),
        boundary_msg(
            i,
            " contains '=': '"@,
            b,
            "This looks like a TOML assignment line, not an object key."@,
        ),
    )
}

/// The warnings of a boundary list, boundary by boundary in order.
pub open spec fn suspicious_warnings(v: Seq<Seq<char>>) -> Seq<Seq<char>>
    decreases v.len(),
{
    if v.len() == 0 {
        Seq::empty()
    } else {
        suspicious_warnings(v.drop_last()) + boundary_suspicions((v.len() - 1) as nat, v.last())
    }
}

fn push_msg_if(out: &mut Vec<String>, c: bool, i: usize, what: &str, b: &[char], tail: &str)
    ensures
        strings_view(final(out)@) == strings_view(old(out)@) + opt_msg(
            c,
            boundary_msg(i as nat, what@, b@, tail@),
        ),
{
    let ghost before = out@;
    if c {
        let mut m: Vec<char> = Vec::new();
        crate::text::append_str(&mut m, "KeySpaceHints boundary ");
        push_dec(&mut m, i as u64);
        crate::text::append_str(&mut m, what);
        append_chars(&mut m, b);
        crate::text::append_str(&mut m, "'. ");
        crate::text::append_str(&mut m, tail);
        let s = string_from_chars(m.as_slice());
        out.push(s);
        assert(strings_view(out@) =~= strings_view(before) + opt_msg(
            c,
            boundary_msg(i as nat, what@, b@, tail@),
        ));
    } else {
        assert(strings_view(out@) =~= strings_view(before) + opt_msg(
            c,
            boundary_msg(i as nat, what@, b@, tail@),
        ));
    }
}

/// Warnings for boundaries that look like leaked TOML syntax (leading
/// whitespace, a trailing comma, quotes, a bare bracket, an `=`); such a
/// boundary would be sent verbatim as an S3 `start_after` value.
pub fn suspicious_boundary_warnings(hints: &[String]) -> (r: Vec<String>)
    ensures
        strings_view(r@) == suspicious_warnings(strings_view(hints@)),
{
    let ghost v = strings_view(hints@);
    let mut out: Vec<String> = Vec::new();
    let mut i: usize = 0;
    while i < hints.len()
        invariant
            i <= hints.len(),
            v == strings_view(hints@),
            strings_view(out@) == suspicious_warnings(v.take(i as int)),
        decreases hints.len() - i,
    {
        let c = str_chars(hints[i].as_str());
        let b = c.as_slice();
        let n = b.len();
        let lead = n > 0 && (b[0] == ' ' || b[0] == '\t');
        let comma = n > 0 && b[n - 1] == ',';
        let quoted = n > 0 && ((b[0] == '"' && b[n - 1] == '"') || (b[0] == '\'' && b[n - 1]
            == '\''));
        let bracket = n == 1 && (b[0] == '[' || b[0] == ']');
        let assign = crate::text::has_char_exec(b, '=');
        proof {
            assert(b@ == v[i as int]);
            assert(bracket == toml_bracket(b@)) by {
                if n == 1 {
                    if b@[0] == '[' {
                        assert(b@ =~= seq!['[']);
                    }
                    if b@[0] == ']' {
                        assert(b@ =~= seq![']']);
                    }
                } else {
                    assert(b@.len() != seq!['['].len());
                }
            }
        }
        push_msg_if(
            &mut out,
            lead,
            i,
            " has leading whitespace: '",
            b,
            "This will be sent verbatim as an S3 start_after value and may cause request failures.",
        );
        push_msg_if(
            &mut out,
            comma,
            i,
            " ends with a comma: '",
            b,
            "This looks like leaked TOML array syntax.",
        );
        push_msg_if(
            &mut out,
            quoted,
            i,
            " is quoted: '",
            b,
            "This looks like leaked TOML string syntax.",
        );
        push_msg_if(
            &mut out,
            bracket,
            i,
            " is a TOML bracket: '",
            b,
            "This will produce invalid S3 start_after values.",
        );
        push_msg_if(
            &mut out,
            assign,
            i,
            " contains '=': '",
            b,
            "This looks like a TOML assignment line, not an object key.",
        );
        proof {
            assert(v.take(i + 1).drop_last() =~= v.take(i as int));
            assert(v.take(i + 1).last() == v[i as int]);
        }
        i += 1;
    }
    assert(v.take(hints.len() as int) =~= v);
    out
}

/// Segment queue of a run: pending segments in order, the ones handed out
/// and not yet finished, and the finished ones.
pub struct KeySpaceHints {
    inner: VecDeque<KeySpacePair>,
    inflight: HashMap<usize, KeySpacePair>,
    done: Vec<KeySpacePair>,
}

/// The queue as plain values: (pending, in flight by index, done).
pub type HintsV = (Seq<PairV>, Map<usize, PairV>, Seq<PairV>);

/// The queue after `next` hands out a segment.
pub open spec fn hints_after_next(v: HintsV) -> HintsV {
    if v.0.len() == 0 {
        v
    } else {
        (v.0.drop_first(), v.1.insert(v.0[0].0, v.0[0]), v.2)
    }
}

/// The queue after `finish(index)`: the segment moves from in flight to
/// done; an index that is not in flight changes nothing.
pub open spec fn hints_after_finish(v: HintsV, index: usize) -> HintsV {
    if v.1.contains_key(index) {
        (v.0, v.1.remove(index), v.2.push(v.1[index]))
    } else {
        v
    }
}

pub open spec fn hints_total(v: HintsV) -> nat {
    v.0.len() + v.1.len() + v.2.len()
}

fn contains_usize(v: &[usize], x: usize) -> (r: bool)
    ensures
        r == v@.contains(x),
{
    let mut i: usize = 0;
    while i < v.len()
        invariant
            i <= v.len(),
            forall|k: int| 0 <= k < i ==> v@[k] != x,
        decreases v.len() - i,
    {
        if v[i] == x {
            assert(v@[i as int] == x);
            return true;
        }
        i += 1;
    }
    false
}

impl View for KeySpaceHints {
    type V = HintsV;

    closed spec fn view(&self) -> HintsV {
        (
            pairs_v(self.inner@),
            self.inflight@.map_values(|p: KeySpacePair| pair_v(p)),
            pairs_v(self.done@),
        )
    }
}

impl KeySpaceHints {
    /// Queue of every segment that the boundaries define.
    pub fn new_from(hints: &[String]) -> (r: Self)
        requires
            hints@.len() < usize::MAX,
        ensures
            r@ == (segments_of(strings_view(hints@)), Map::<usize, PairV>::empty(), Seq::<PairV>::empty()),
    {
        let v = Self::pairs_from_boundaries(hints);
        let r = Self { inner: v, inflight: HashMap::new(), done: Vec::new() };
        assert(r.inflight@.map_values(|p: KeySpacePair| pair_v(p)) =~= Map::<usize, PairV>::empty());
        assert(pairs_v(r.done@) =~= Seq::<PairV>::empty());
        r
    }

    /// Queue of the segments whose index is not in `completed_indices`;
    /// each keeps its original index and boundaries.
    pub fn new_uncompleted_from(hints: &[String], completed_indices: &[usize]) -> (r: Self)
        requires
            hints@.len() < usize::MAX,
        ensures
            r@ == (
                drop_completed(segments_of(strings_view(hints@)), completed_indices@),
                Map::<usize, PairV>::empty(),
                Seq::<PairV>::empty(),
            ),
    {
        let mut all = Self::pairs_from_boundaries(hints);
        let ghost segs = pairs_v(all@);
        let mut kept: VecDeque<KeySpacePair> = VecDeque::new();
        let ghost mut taken: Seq<PairV> = Seq::empty();
        while all.len() > 0
            invariant
                segs == segments_of(strings_view(hints@)),
                taken + pairs_v(all@) =~= segs,
                pairs_v(kept@) =~= drop_completed(taken, completed_indices@),
            decreases all@.len(),
        {
            let ghost before = all@;
            let pair = all.pop_front().unwrap();
            proof {
                assert(pairs_v(before) =~= seq![pair_v(pair)] + pairs_v(all@));
            }
            let keep = !contains_usize(completed_indices, pair.index);
            let ghost pv = pair_v(pair);
            if keep {
                kept.push_back(pair);
            }
            proof {
                let t2 = taken.push(pv);
                assert(t2.drop_last() =~= taken);
                assert(t2.last() == pv);
                taken = t2;
                assert(pairs_v(kept@) =~= drop_completed(taken, completed_indices@));
            }
        }
        assert(taken =~= segs);
        let r = Self { inner: kept, inflight: HashMap::new(), done: Vec::new() };
        assert(r.inflight@.map_values(|p: KeySpacePair| pair_v(p)) =~= Map::<usize, PairV>::empty());
        assert(pairs_v(r.done@) =~= Seq::<PairV>::empty());
        r
    }

    fn pairs_from_boundaries(hints: &[String]) -> (r: VecDeque<KeySpacePair>)
        requires
            hints@.len() < usize::MAX,
        ensures
            pairs_v(r@) == segments_of(strings_view(hints@)),
    {
        let mut v: VecDeque<KeySpacePair> = VecDeque::new();
        if hints.len() == 0 {
            v.push_back(KeySpacePair::new(0, String::new(), String::new()));
            assert(pairs_v(v@) =~= segments_of(strings_view(hints@)));
            return v;
        }
        let ghost h = strings_view(hints@);
        let mut start = String::new();
        let mut i: usize = 0;
        while i < hints.len()
            invariant
                h == strings_view(hints@),
                hints@.len() < usize::MAX,
                0 < hints@.len(),
                i <= hints.len(),
                pairs_v(v@) =~= segments_of(h).take(i as int),
                start@ == if i == 0 {
                    Seq::<char>::empty()
                } else {
                    h[i - 1]
                },
            decreases hints.len() - i,
        {
            let key = hints[i].clone();
            let ghost old_v = pairs_v(v@);
            let pair = KeySpacePair::new(i, start, key);
            assert(pair_v(pair) == segments_of(h)[i as int]);
            v.push_back(pair);
            assert(pairs_v(v@) =~= old_v.push(pair_v(pair)));
            start = hints[i].clone();
            i += 1;
            assert(pairs_v(v@) =~= segments_of(h).take(i as int));
        }
        let ghost old_v = pairs_v(v@);
        let last = KeySpacePair::new(hints.len(), start, String::new());
        assert(pair_v(last) == segments_of(h)[hints@.len() as int]);
        v.push_back(last);
        assert(pairs_v(v@) =~= old_v.push(pair_v(last)));
        assert(pairs_v(v@) =~= segments_of(h));
        v
    }

    /// Hands out the next pending segment and marks it in flight.
    pub fn next(&mut self) -> (r: Option<KeySpacePair>)
        ensures
            final(self)@ == hints_after_next(old(self)@),
            match r {
                Some(p) => old(self)@.0.len() > 0 && pair_v(p) == old(self)@.0[0],
                None => old(self)@.0.len() == 0,
            },
    {
        match self.inner.pop_front() {
            Some(pair) => {
                let copy = pair.duplicate();
                let index = copy.index;
                let _ = self.inflight.insert(index, copy);
                proof {
                    assert(pairs_v(self.inner@) =~= old(self)@.0.drop_first());
                    assert(self.inflight@.map_values(|p: KeySpacePair| pair_v(p)) =~= old(
                        self,
                    )@.1.insert(pair_v(pair).0, pair_v(pair)));
                }
                Some(pair)
            },
            None => None,
        }
    }

    /// Marks segment `index` done; an index that is not in flight changes
    /// nothing.
    pub fn finish(&mut self, index: usize)
        ensures
            final(self)@ == hints_after_finish(old(self)@, index),
    {
        let ghost v0 = self@;
        match self.inflight.remove(&index) {
            Some(pair) => {
                self.done.push(pair);
                proof {
                    assert(v0.1.contains_key(index));
                    assert(self.inflight@.map_values(|p: KeySpacePair| pair_v(p)) =~= v0.1.remove(index));
                    assert(pairs_v(self.done@) =~= v0.2.push(v0.1[index]));
                }
            },
            None => {
                proof {
                    assert(!v0.1.contains_key(index));
                }
            },
        }
    }

    /// Number of pending segments.
    pub fn len(&self) -> (r: usize)
        ensures
            r == self@.0.len(),
    {
        self.inner.len()
    }

    pub fn is_empty(&self) -> (r: bool)
        ensures
            r == (self@.0.len() == 0),
    {
        self.inner.len() == 0
    }

    pub fn done_count(&self) -> (r: usize)
        ensures
            r == self@.2.len(),
    {
        self.done.len()
    }

    /// Pending, in-flight and done segments together.
    pub fn total_count(&self) -> (r: usize)
        requires
            hints_total(self@) <= usize::MAX,
        ensures
            r == hints_total(self@),
    {
        proof {
            assert(self@.1.dom() =~= self.inflight@.dom());
        }
        self.done.len() + self.inflight.len() + self.inner.len()
    }

    /// Indices of the finished segments, in finishing order.
    pub fn completed_indices(&self) -> (r: Vec<usize>)
        ensures
            r@ == Seq::new(self@.2.len(), |i: int| self@.2[i].0),
    {
        let mut out: Vec<usize> = Vec::new();
        let mut i: usize = 0;
        while i < self.done.len()
            invariant
                i <= self.done@.len(),
                out@ =~= Seq::new(i as nat, |k: int| self@.2[k].0),
            decreases self.done@.len() - i,
        {
            out.push(self.done[i].index);
            i += 1;
            assert(out@ =~= Seq::new(i as nat, |k: int| self@.2[k].0));
        }
        out
    }
}

/// An open row found on exactly one side is reported with that side's
/// presence mark, as the diff's flags are read: only on the left, `+`
/// (Plus); only on the right, `-` (Minus). Outside diff mode this holds of
/// rows the filter did not reject.
pub proof fn law_open_row_side_mark(p: ObjectProps, verdict: Option<bool>)
    requires
        p.status == OBJECT_PROPS_STATUS_OPEN,
        p.flags & OBJECT_PROPS_FLAG_DIFF_MODE != 0 || verdict != Some(false),
    ensures
        p.flags & OBJECT_PROPS_FLAG_DIR_LEFT != 0 && p.flags & OBJECT_PROPS_FLAG_DIR_RIGHT == 0
            ==> final_status(p, verdict) == MatchResult::Plus,
        p.flags & OBJECT_PROPS_FLAG_DIR_RIGHT != 0 && p.flags & OBJECT_PROPS_FLAG_DIR_LEFT == 0
            ==> final_status(p, verdict) == MatchResult::Minus,
{
    let f = p.flags;
    assert(f & 0x20u8 != 0 ==> f & 0x20u8 == 0x20u8) by (bit_vector);
    assert(f & 0x80u8 != 0 && f & 0x40u8 == 0 ==> f & 0x80u8 == 0x80u8 && f & 0xC0u8 != 0xC0u8)
        by (bit_vector);
    assert(f & 0x40u8 != 0 && f & 0x80u8 == 0 ==> f & 0x40u8 == 0x40u8 && f & 0xC0u8 != 0xC0u8
        && f & 0x80u8 != 0x80u8) by (bit_vector);
}

/// A compared row seen on both sides is reported by its comparison: equal
/// content `=` (Equal), a size or ETag difference or a missing ETag `*`
/// (Astrisk); a row the filter set aside, a compared row not on both sides,
/// an open row on both sides or on neither, and a list-mode row the filter
/// rejected are left out (Ignore).
pub proof fn law_final_status_by_status(p: ObjectProps, verdict: Option<bool>)
    ensures
        p.flags & OBJECT_PROPS_FLAG_DIFF_MODE == 0 && verdict == Some(false) ==> final_status(
            p,
            verdict,
        ) == MatchResult::Ignore,
        p.status == OBJECT_PROPS_STATUS_FILTER_OUT ==> final_status(p, verdict)
            == MatchResult::Ignore,
        (p.flags & OBJECT_PROPS_FLAG_DIFF_MODE != 0 || verdict != Some(false)) && p.flags & 0xC0u8
            == 0xC0u8 ==> {
            &&& p.status == OBJECT_PROPS_STATUS_MATCH ==> final_status(p, verdict)
                == MatchResult::Equal
            &&& (p.status == OBJECT_PROPS_STATUS_SIZE_NOT_MATCH || p.status
                == OBJECT_PROPS_STATUS_ETAG_NOT_AVAIL || p.status
                == OBJECT_PROPS_STATUS_ETAG_NOT_MATCH) ==> final_status(p, verdict)
                == MatchResult::Astrisk
            &&& p.status == OBJECT_PROPS_STATUS_OPEN ==> final_status(p, verdict)
                == MatchResult::Ignore
        },
        p.flags & 0xC0u8 != 0xC0u8 && (p.status == OBJECT_PROPS_STATUS_MATCH || p.status
            == OBJECT_PROPS_STATUS_SIZE_NOT_MATCH || p.status == OBJECT_PROPS_STATUS_ETAG_NOT_AVAIL
            || p.status == OBJECT_PROPS_STATUS_ETAG_NOT_MATCH) ==> final_status(p, verdict)
            == MatchResult::Ignore,
        p.flags & 0xC0u8 == 0 && p.status == OBJECT_PROPS_STATUS_OPEN ==> final_status(p, verdict)
            == MatchResult::Ignore,
{
    let f = p.flags;
    assert(f & 0x20u8 != 0 ==> f & 0x20u8 == 0x20u8) by (bit_vector);
    assert(f & 0x20u8 == 0 ==> f & 0x20u8 != 0x20u8) by (bit_vector);
    assert(f & 0xC0u8 == 0 ==> f & 0x80u8 != 0x80u8 && f & 0x40u8 != 0x40u8) by (bit_vector);
}

/// Handing out and finishing segments never creates or loses one: the
/// total of pending, in-flight and done segments is unchanged, where the
/// segment handed out next is not already in flight under its index.
pub proof fn law_hints_total_preserved(v: HintsV, index: usize)
    requires
        v.1.dom().finite(),
        v.0.len() > 0 ==> !v.1.contains_key(v.0[0].0),
    ensures
        hints_total(hints_after_next(v)) == hints_total(v),
        hints_total(hints_after_finish(v, index)) == hints_total(v),
{
}

/// The segments of a boundary list tile the key space: the first starts at
/// the beginning, each ends where the next starts, the last is unbounded,
/// and the indices are the positions.
pub proof fn law_segments_tile_key_space(h: Seq<Seq<char>>)
    requires
        forall|i: int| 0 <= i < h.len() ==> h[i].len() > 0,
        h.len() < usize::MAX,
    ensures
        segments_of(h).len() == h.len() + 1,
        segments_of(h)[0].1 == Seq::<char>::empty(),
        segments_of(h)[h.len() as int].2 is None,
        forall|i: int| 0 <= i < segments_of(h).len() ==> segments_of(h)[i].0 == i,
        forall|i: int|
            0 <= i < h.len() ==> segments_of(h)[i].2 == Some(segments_of(h)[i + 1].1),
{
}

/// The queue after `k` segments are handed out.
pub open spec fn after_nexts(v: HintsV, k: nat) -> HintsV
    decreases k,
{
    if k == 0 {
        v
    } else {
        hints_after_next(after_nexts(v, (k - 1) as nat))
    }
}

/// A fresh queue hands its segments out in order: after `k` of them are
/// handed out, the rest are pending in order, each of the first `k` is in
/// flight under its index, and none is done; so the `k`-th hand-out gives
/// the `k`-th segment.
pub proof fn law_queue_hands_out_in_order(s: Seq<PairV>, k: nat)
    requires
        k <= s.len(),
    ensures
        after_nexts((s, Map::empty(), Seq::empty()), k).0 == s.skip(k as int),
        after_nexts((s, Map::empty(), Seq::empty()), k).2 == Seq::<PairV>::empty(),
        forall|j: int|
            0 <= j < k ==> after_nexts((s, Map::empty(), Seq::empty()), k).1.contains_key(
                #[trigger] s[j].0,
            ),
    decreases k,
{
    if k > 0 {
        law_queue_hands_out_in_order(s, (k - 1) as nat);
        assert(s.skip(k - 1).drop_first() =~= s.skip(k as int));
        assert(s.skip(k - 1)[0] == s[k - 1]);
    } else {
        assert(s.skip(0) =~= s);
    }
}

/// Resuming keeps the segments not recorded as completed in their original
/// order: exactly the filter of the full list.
pub proof fn law_resume_keeps_order(s: Seq<PairV>, completed: Seq<usize>)
    ensures
        drop_completed(s, completed) == s.filter(|p: PairV| !completed.contains(p.0)),
    decreases s.len(),
{
    reveal(Seq::filter);
    if s.len() > 0 {
        law_resume_keeps_order(s.drop_last(), completed);
    }
}

/// Resuming keeps exactly the segments not recorded as completed, each with
/// its original index and range.
pub proof fn law_resume_keeps_uncompleted(s: Seq<PairV>, completed: Seq<usize>, p: PairV)
    ensures
        drop_completed(s, completed).contains(p) <==> (s.contains(p) && !completed.contains(
            p.0,
        )),
    decreases s.len(),
{
    if s.len() > 0 {
        law_resume_keeps_uncompleted(s.drop_last(), completed, p);
        assert(s =~= s.drop_last().push(s.last()));
        let r = drop_completed(s.drop_last(), completed);
        if !completed.contains(s.last().0) {
            let rp = r.push(s.last());
            assert(rp[rp.len() - 1] == s.last());
            if rp.contains(p) {
                let k = choose|k: int| 0 <= k < rp.len() && rp[k] == p;
                if k < rp.len() - 1 {
                    assert(r[k] == p);
                }
            }
            if r.contains(p) {
                let k = choose|k: int| 0 <= k < r.len() && r[k] == p;
                assert(rp[k] == p);
            }
        }
        assert(s.contains(p) <==> (s.drop_last().contains(p) || p == s.last())) by {
            if s.contains(p) {
                let k = choose|k: int| 0 <= k < s.len() && s[k] == p;
                if k < s.len() - 1 {
                    assert(s.drop_last()[k] == p);
                }
            }
            if s.drop_last().contains(p) {
                let k = choose|k: int| 0 <= k < s.drop_last().len() && s.drop_last()[k] == p;
                assert(s[k] == p);
            }
        }
    }
}

// ── ObjectFilter ───────────────────────────────────────────

/// The object filter applied to listed rows: a compiled expression, or
/// none (every object passes).
#[derive(Debug)]
pub struct ObjectFilter {
    expr: Option<FilterExpr>,
}

impl ObjectFilter {
    /// The compiled tree, or `None` for the filter that passes everything.
    pub closed spec fn tree(&self) -> Option<NodeV> {
        match self.expr {
            Some(f) => Some(f.tree()),
            None => None,
        }
    }

    /// Whether this filter needs the application's float evaluation.
    pub open spec fn needs_float(&self) -> bool {
        match self.tree() {
            Some(t) => has_float_v(t),
            None => false,
        }
    }

    pub fn from_expr(expr: FilterExpr) -> (r: Self)
        ensures
            r.tree() == Some(expr.tree()),
    {
        ObjectFilter { expr: Some(expr) }
    }

    /// The filter that passes every object.
    pub fn compile(expr: &str) -> (r: Result<Self, String>)
        ensures
            r is Ok && r->Ok_0.tree() is None,
    {
        let _ = expr;
        Ok(ObjectFilter { expr: None })
    }

    pub fn expr(&self) -> (r: Option<&FilterExpr>)
        ensures
            match r {
                Some(f) => self.tree() == Some(f.tree()),
                None => self.tree() is None,
            },
    {
        match &self.expr {
            Some(f) => Some(f),
            None => None,
        }
    }

    /// Whether an object (with its counterpart in diff mode) passes;
    /// `None` is a runtime error of the expression.
    pub fn evaluate(&self, source: &ObjectProps, target: Option<&ObjectProps>) -> (r: Option<bool>)
        requires
            !self.needs_float(),
        ensures
            r == match self.tree() {
                Some(t) => evaluate_spec(t, props_pair(*source), opt_pair(target)),
                None => Some(true),
            },
    {
        match &self.expr {
            Some(f) => f.evaluate(source, target),
            None => Some(true),
        }
    }
}

} // verus!
