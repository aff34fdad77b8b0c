//! Output settings: the Parquet compression setting chosen from the
//! configured codec name and level.
use crate::text::{
    append_str, dec, digit_char, is_ascii_digit, owned, push_dec, str_chars, str_eq, string_from_chars, trim, trim_chars,
    unicode_lowercase,
};
use vstd::prelude::*;

verus! {

/// Whether `parquet::basic::Compression::from_str` accepts a setting.
pub uninterp spec fn parquet_accepts(setting: Seq<char>) -> bool;

/// Every character is ASCII.
pub open spec fn all_ascii(s: Seq<char>) -> bool {
    forall|i: int| 0 <= i < s.len() ==> (#[trigger] s[i] as int) < 128
}

/// At least one character follows the first `(`, if there is one.
pub open spec fn first_paren_followed(s: Seq<char>) -> bool {
    forall|i: int|
        0 <= i < s.len() && #[trigger] s[i] == '(' && (forall|j: int| 0 <= j < i ==> s[j] != '(')
            ==> i + 1 < s.len()
}

/// A setting that `Compression::from_str` reads without panicking: it cuts
/// the last byte after the first `(` off as the closing bracket, which needs
/// a byte there that is a whole character.
pub open spec fn parquet_readable(s: Seq<char>) -> bool {
    all_ascii(s) && first_paren_followed(s)
}

/// `Compression::from_str` of the `parquet` crate, by whether it succeeds:
/// a pure parse of the text (a codec name with an optional level in
/// brackets, the level checked against the codec's range). The parse
/// slices the text after the first `(` up to its last byte, so the setting
/// must be readable in that way.
///
/// On the settings that this library asks about, the source shows the
/// answer: a level-less codec name is accepted, and a levelled one with a
/// decimal level exactly when the level is in the codec's range (gzip
/// 0..=9, brotli 0..=11, zstd up to 22).
#[verifier::external_body]
fn parquet_compression_valid(setting: &str) -> (r: bool)
    requires
        parquet_readable(setting@),
    ensures
        r == parquet_accepts(setting@),
        setting@ == "uncompressed"@ || setting@ == "snappy"@ || setting@ == "lz4"@ || setting@
            == "lz4_raw"@ ==> r,
        forall|l: u32|
            #![trigger dec(l as nat)]
            setting@ == "gzip("@ + dec(l as nat) + ")"@ ==> (r <==> l <= 9),
        forall|l: u32|
            #![trigger dec(l as nat)]
            setting@ == "brotli("@ + dec(l as nat) + ")"@ ==> (r <==> l <= 11),
        forall|l: u32|
            #![trigger dec(l as nat)]
            setting@ == "zstd("@ + dec(l as nat) + ")"@ ==> (r <==> l <= 22),
{
    <parquet::basic::Compression as std::str::FromStr>::from_str(setting).is_ok()
}

/// The setting asked for: levelled codecs carry the level; unknown names
/// fall back to gzip at the level.
pub open spec fn compression_request(name: Seq<char>, level: u32) -> Seq<char> {
    let n = unicode_lowercase(trim(name));
    if n == "gzip"@ || n == "zstd"@ || n == "brotli"@ {
        n + "("@ + dec(level as nat) + ")"@
    } else if n == "uncompressed"@ || n == "snappy"@ || n == "lz4"@ || n == "lz4_raw"@ {
        n
    } else {
        "gzip("@ + dec(level as nat) + ")"@
    }
}

proof fn lemma_dec_digits(n: nat)
    ensures
        forall|i: int| 0 <= i < dec(n).len() ==> is_ascii_digit(#[trigger] dec(n)[i]),
    decreases n,
{
    if n >= 10 {
        lemma_dec_digits(n / 10);
        let d = (n % 10) as nat;
        assert(is_ascii_digit(digit_char(d)));
        let p = dec(n / 10);
        assert(dec(n) == p.push(digit_char(d)));
        assert forall|i: int| 0 <= i < dec(n).len() implies is_ascii_digit(#[trigger] dec(n)[i]) by {
            if i < p.len() {
                assert(dec(n)[i] == p[i]);
            }
        }
    } else {
        assert(is_ascii_digit(digit_char(n)));
    }
}

/// A codec name without brackets, followed by a bracketed level, is
/// readable.
proof fn lemma_levelled_readable(codec: Seq<char>, level: nat)
    requires
        all_ascii(codec),
        forall|i: int| 0 <= i < codec.len() ==> codec[i] != '(',
    ensures
        parquet_readable(codec + "("@ + dec(level) + ")"@),
{
    reveal_strlit("(");
    reveal_strlit(")");
    lemma_dec_digits(level);
    let d = dec(level);
    let s = codec + "("@ + d + ")"@;
    assert forall|i: int| 0 <= i < s.len() implies (#[trigger] s[i] as int) < 128 by {
        if i < codec.len() {
            assert(s[i] == codec[i]);
        } else if i == codec.len() {
        } else if i < codec.len() + 1 + d.len() {
            assert(s[i] == d[i - codec.len() - 1]);
        }
    }
    assert forall|i: int|
        0 <= i < s.len() && #[trigger] s[i] == '(' && (forall|j: int| 0 <= j < i ==> s[j] != '(')
            implies i + 1 < s.len() by {
        if i < codec.len() {
            assert(s[i] == codec[i]);
        } else if i > codec.len() {
            assert(s[codec.len() as int] == '(');
        }
    }
}

/// Every setting that `parse_compression` asks about is readable.
proof fn lemma_request_readable(name: Seq<char>, level: u32)
    ensures
        parquet_readable(compression_request(name, level)),
{
    reveal_strlit("gzip");
    reveal_strlit("zstd");
    reveal_strlit("brotli");
    reveal_strlit("uncompressed");
    reveal_strlit("snappy");
    reveal_strlit("lz4");
    reveal_strlit("lz4_raw");
    reveal_strlit("gzip(");
    reveal_strlit("(");
    let n = unicode_lowercase(trim(name));
    if n == "gzip"@ || n == "zstd"@ || n == "brotli"@ {
        lemma_levelled_readable(n, level as nat);
    } else if n == "uncompressed"@ || n == "snappy"@ || n == "lz4"@ || n == "lz4_raw"@ {
    } else {
        assert("gzip("@ =~= "gzip"@ + "("@);
        lemma_levelled_readable("gzip"@, level as nat);
    }
}

/// Whether Parquet takes the request: level-less codecs always, levelled
/// ones within their range (gzip 0..=9, brotli 0..=11, zstd up to 22).
pub open spec fn request_accepted(name: Seq<char>, level: u32) -> bool {
    let n = unicode_lowercase(trim(name));
    if n == "brotli"@ {
        level <= 11
    } else if n == "zstd"@ {
        level <= 22
    } else if n == "uncompressed"@ || n == "snappy"@ || n == "lz4"@ || n == "lz4_raw"@ {
        true
    } else {
        level <= 9
    }
}

/// The setting used: the request when Parquet takes it, else gzip(6).
pub open spec fn compression_setting(name: Seq<char>, level: u32) -> Seq<char> {
    if request_accepted(name, level) {
        compression_request(name, level)
    } else {
        "gzip(6)"@
    }
}

/// The Parquet compression setting for a configured codec and level, in
/// the text form that `Compression::from_str` reads.
pub fn parse_compression(name: &str, level: u32) -> (r: String)
    ensures
        r@ == compression_setting(name@, level),
{
    let trimmed = string_from_chars(trim_chars(str_chars(name).as_slice()).as_slice());
    let n = crate::text::str_to_lowercase(trimmed.as_str());
    let mut spec: Vec<char> = Vec::new();
    if str_eq(n.as_str(), "gzip") || str_eq(n.as_str(), "zstd") || str_eq(n.as_str(), "brotli") {
        append_str(&mut spec, n.as_str());
        append_str(&mut spec, "(");
        push_dec(&mut spec, level as u64);
        append_str(&mut spec, ")");
    } else if str_eq(n.as_str(), "uncompressed") || str_eq(n.as_str(), "snappy") || str_eq(
        n.as_str(),
        "lz4",
    ) || str_eq(n.as_str(), "lz4_raw") {
        append_str(&mut spec, n.as_str());
    } else {
        append_str(&mut spec, "gzip(");
        push_dec(&mut spec, level as u64);
        append_str(&mut spec, ")");
    }
    let request = string_from_chars(spec.as_slice());
    assert(request@ =~= compression_request(name@, level));
    proof {
        lemma_request_readable(name@, level);
    }
    proof {
        reveal_strlit("gzip(");
        reveal_strlit("zstd(");
        reveal_strlit("brotli(");
        reveal_strlit("gzip");
        reveal_strlit("zstd");
        reveal_strlit("brotli");
        reveal_strlit("(");
        assert("gzip("@ =~= "gzip"@ + "("@);
        assert("zstd("@ =~= "zstd"@ + "("@);
        assert("brotli("@ =~= "brotli"@ + "("@);
        let _ = dec(level as nat);
    }
    let ok = parquet_compression_valid(request.as_str());
    proof {
        let n = unicode_lowercase(trim(name@));
        let d = dec(level as nat);
        reveal_strlit("uncompressed");
        reveal_strlit("snappy");
        reveal_strlit("lz4");
        reveal_strlit("lz4_raw");
        if n == "gzip"@ {
            assert(request@ == "gzip("@ + d + ")"@);
        } else if n == "zstd"@ {
            assert(request@ == "zstd("@ + d + ")"@);
        } else if n == "brotli"@ {
            assert(request@ == "brotli("@ + d + ")"@);
        } else if n == "uncompressed"@ || n == "snappy"@ || n == "lz4"@ || n == "lz4_raw"@ {
            assert(request@ == n);
        } else {
            assert(request@ == "gzip("@ + d + ")"@);
        }
        assert(ok == request_accepted(name@, level));
    }
    if ok {
        request
    } else {
        owned("gzip(6)")
    }
}

} // verus!
