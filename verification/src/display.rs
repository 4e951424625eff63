//! How paths, file sizes and durations are shown to the user.
use vstd::prelude::*;
use vstd::string::StringSliceAdditionalSpecFns;
use vstd::utf8::{
    decode_utf8, encode_utf8, is_ascii_chars, is_char_boundary, valid_utf8,
};

use crate::text::{append_str, decimal, digit_char, push_decimal, string_from_chars};

verus! {

broadcast use {
    vstd::utf8::encode_utf8_decode_utf8,
    vstd::utf8::encode_utf8_valid_utf8,
    vstd::utf8::valid_utf8_split,
};

// ───────────────────────── paths ─────────────────────────

/// `path` shortened for display. `bytes` is the UTF-8 encoding of `path`:
/// a path that fits in `max_len` bytes is kept; below 7 bytes the first
/// `max_len` characters are kept; otherwise the first `max_len / 2 - 2` and
/// the last `max_len / 2 - 2` bytes are kept around `...`.
pub open spec fn truncated(path: Seq<char>, max_len: nat) -> Seq<char> {
    let bytes = encode_utf8(path);
    if bytes.len() <= max_len {
        path
    } else if max_len < 7 {
        if max_len <= path.len() {
            path.take(max_len as int)
        } else {
            path
        }
    } else {
        decode_utf8(bytes.subrange(0, max_len / 2 - 2)) + "..."@ + decode_utf8(
            bytes.subrange(bytes.len() - (max_len / 2 - 2), bytes.len() as int),
        )
    }
}

/// UTF-8 encoding distributes over concatenation.
pub proof fn lemma_encode_utf8_concat(a: Seq<char>, b: Seq<char>)
    ensures
        encode_utf8(a + b) == encode_utf8(a) + encode_utf8(b),
    decreases a.len(),
{
    if a.len() > 0 {
        assert((a + b).drop_first() =~= a.drop_first() + b);
        lemma_encode_utf8_concat(a.drop_first(), b);
        assert(encode_utf8(a + b) =~= encode_utf8(a) + encode_utf8(b));
    } else {
        assert(a + b =~= b);
        assert(encode_utf8(a) =~= Seq::<u8>::empty());
        assert(encode_utf8(a) + encode_utf8(b) =~= encode_utf8(b));
    }
}

/// Shorten a path for display in at most `max_len` bytes (see
/// [`truncated`]). Where both halves are kept, each cut must fall between
/// two characters.
pub fn truncate_path(path: &str, max_len: usize) -> (r: String)
    requires
        path.spec_bytes().len() <= usize::MAX,
        path.spec_bytes().len() > max_len && max_len >= 7 ==> {
            &&& is_char_boundary(path.spec_bytes(), max_len / 2 - 2)
            &&& is_char_boundary(
                path.spec_bytes(),
                path.spec_bytes().len() - (max_len / 2 - 2),
            )
        },
    ensures
        r@ == truncated(path@, max_len as nat),
        path.spec_bytes().len() > max_len && max_len >= 7 ==> encode_utf8(r@).len() < max_len,
        is_ascii_chars(path@) ==> encode_utf8(r@).len() <= max_len,
{
    proof {
        vstd::utf8::is_char_boundary_start_end_of_seq(path.spec_bytes());
    }
    assert(path.len() == encode_utf8(path@).len());
    if path.len() <= max_len {
        return path.to_owned();
    }
    if max_len < 7 {
        let mut v: Vec<char> = Vec::new();
        for c in it: path.chars()
            invariant
                it.seq() == path@,
                it.index() <= max_len ==> v@ == path@.take(it.index() as int),
                it.index() > max_len ==> v@ == path@.take(max_len as int),
                v@.len() <= max_len,
        {
            if v.len() < max_len {
                v.push(c);
            }
            assert(it.index() + 1 <= max_len ==> v@ =~= path@.take(it.index() + 1));
            assert(it.index() + 1 > max_len ==> v@ =~= path@.take(max_len as int));
        }
        proof {
            if path@.len() < max_len {
                assert(path@.take(path@.len() as int) =~= path@);
            }
            if is_ascii_chars(path@) {
                vstd::utf8::is_ascii_chars_encode_utf8(path@);
                if max_len <= path@.len() {
                    let t = path@.take(max_len as int);
                    assert(is_ascii_chars(t));
                    vstd::utf8::is_ascii_chars_encode_utf8(t);
                }
            }
        }
        return string_from_chars(&v);
    }
    let half = max_len / 2 - 2;
    let bytes_len = path.len();
    let (start, _) = path.split_at(half);
    let (_, end) = path.split_at(bytes_len - half);
    proof {
        let b = path.spec_bytes();
        assert(start@ == decode_utf8(start.spec_bytes()));
        assert(end@ == decode_utf8(end.spec_bytes()));
        lemma_encode_utf8_concat(start@, "..."@);
        lemma_encode_utf8_concat(start@ + "..."@, end@);
        reveal_strlit("...");
        vstd::utf8::is_ascii_chars_encode_utf8("..."@);
        vstd::utf8::decode_utf8_encode_utf8(b.subrange(0, half as int));
        vstd::utf8::decode_utf8_encode_utf8(b.subrange(bytes_len - half, b.len() as int));
    }
    let mut v: Vec<char> = crate::text::chars_of(start);
    append_str(&mut v, "...");
    append_str(&mut v, end);
    string_from_chars(&v)
}

// ───────────────────────── sizes ─────────────────────────

/// `a / d` rounded to the nearest integer, halves to even (`d > 0`).
pub open spec fn div_round_even(a: nat, d: nat) -> nat
    recommends
        d > 0,
{
    let q = a / d;
    let r = a % d;
    if 2 * r > d || (2 * r == d && q % 2 == 1) {
        q + 1
    } else {
        q
    }
}

/// The largest integer a `f64` holds exactly at every step below it: 2^53.
pub open spec fn f64_exact_limit() -> nat {
    0x20_0000_0000_0000
}

/// The spacing of `f64` values around `n`: 1 below 2^53, doubling with
/// every further binary digit of `n`.
pub open spec fn f64_spacing(n: nat) -> nat
    decreases n,
{
    if n < f64_exact_limit() {
        1
    } else {
        2 * f64_spacing(n / 2)
    }
}

/// `n` converted to `f64` (rounded to the nearest value a double holds,
/// ties to even), as an integer.
pub open spec fn as_f64(n: nat) -> nat {
    div_round_even(n, f64_spacing(n)) * f64_spacing(n)
}

/// The size of `bytes` as the user reads it: whole bytes below 1 KiB; whole
/// KB or MB (rounded, ties to even) below 1 GiB; GB to one decimal place
/// (the byte count taken as a `f64`, then rounded to tenths, ties to even).
pub open spec fn file_size_text(bytes: nat) -> Seq<char> {
    if bytes >= 0x4000_0000 {
        let tenths = div_round_even(as_f64(bytes) * 10, 0x4000_0000);
        decimal(tenths / 10) + seq!['.', digit_char(tenths % 10)] + " GB"@
    } else if bytes >= 0x10_0000 {
        decimal(div_round_even(bytes, 0x10_0000)) + " MB"@
    } else if bytes >= 0x400 {
        decimal(div_round_even(bytes, 0x400)) + " KB"@
    } else {
        decimal(bytes) + " B"@
    }
}

fn round_even(a: u128, d: u128) -> (r: u128)
    requires
        0 < d <= 0x1_0000_0000,
        a < 0x1_0000_0000_0000_0000_0000,
    ensures
        r == div_round_even(a as nat, d as nat),
        r <= a / d + 1,
{
    let q = a / d;
    let rem = a % d;
    if 2 * rem > d || (2 * rem == d && q % 2 == 1) {
        q + 1
    } else {
        q
    }
}

/// `n` as `f64` holds it, as an integer.
fn to_f64_value(n: u64) -> (r: u128)
    ensures
        r == as_f64(n as nat),
        r <= 0x1_0000_0000_0000_1000,
{
    let mut m: u64 = n;
    let mut unit: u128 = 1;
    while m >= 0x20_0000_0000_0000
        invariant
            m as int == n as int / unit as int,
            1 <= unit <= 0x1000,
            f64_spacing(n as nat) == unit * f64_spacing(m as nat),
        decreases m,
    {
        proof {
            vstd::arithmetic::div_mod::lemma_div_denominator(n as int, unit as int, 2);
            assert(f64_spacing(m as nat) == 2 * f64_spacing((m / 2) as nat));
            assert(unit * f64_spacing(m as nat) == (unit * 2) * f64_spacing((m / 2) as nat))
                by (nonlinear_arith)
                requires
                    f64_spacing(m as nat) == 2 * f64_spacing((m / 2) as nat),
            ;
            vstd::arithmetic::div_mod::lemma_fundamental_div_mod(n as int, unit as int);
            assert(unit as int * (n as int / unit as int) <= n as int);
            assert(unit * 0x20_0000_0000_0000 <= unit * m) by (nonlinear_arith)
                requires
                    m >= 0x20_0000_0000_0000,
            ;
            assert(unit < 0x800);
        }
        m = m / 2;
        unit = unit * 2;
    }
    proof {
        assert(f64_spacing(m as nat) == 1);
        assert(unit * f64_spacing(m as nat) == unit * 1);
        assert(unit == f64_spacing(n as nat));
        vstd::arithmetic::div_mod::lemma_fundamental_div_mod(n as int, unit as int);
        assert(unit as int * (n as int / unit as int) <= n as int);
    }
    let q = round_even(n as u128, unit);
    proof {
        assert(q * unit <= (m + 1) * unit) by (nonlinear_arith)
            requires
                q <= m + 1,
                unit >= 1,
        ;
        assert((m + 1) * unit == unit * m + unit) by (nonlinear_arith);
    }
    q * unit
}

/// One kibibyte.
pub const KB: u64 = 1024;

/// One mebibyte.
pub const MB: u64 = 1048576;

/// One gibibyte.
pub const GB: u64 = 1073741824;

/// The size of a file as shown to the user (see [`file_size_text`]), e.g.
/// `"100 B"`, `"1 KB"`, `"50 MB"`, `"1.0 GB"`.
pub fn format_file_size(bytes: u64) -> (r: String)
    ensures
        r@ == file_size_text(bytes as nat),
{
    let mut v: Vec<char> = Vec::new();
    if bytes >= GB {
        let x = to_f64_value(bytes);
        let tenths = round_even(x * 10, GB as u128);
        proof {
            assert(tenths <= x * 10 / 0x4000_0000 + 1);
            assert(x * 10 / 0x4000_0000 <= 0x1_0000_0000_0000_1000 * 10 / 0x4000_0000) by (
            nonlinear_arith)
                requires
                    x <= 0x1_0000_0000_0000_1000,
            ;
        }
        let t = tenths as u64;
        push_decimal(&mut v, t / 10);
        v.push('.');
        v.push(crate::text::digit_of(t % 10));
        append_str(&mut v, " GB");
    } else if bytes >= MB {
        let n = round_even(bytes as u128, MB as u128);
        push_decimal(&mut v, n as u64);
        append_str(&mut v, " MB");
    } else if bytes >= KB {
        let n = round_even(bytes as u128, KB as u128);
        push_decimal(&mut v, n as u64);
        append_str(&mut v, " KB");
    } else {
        push_decimal(&mut v, bytes);
        append_str(&mut v, " B");
    }
    string_from_chars(&v)
}

// ───────────────────────── durations ─────────────────────────

/// A duration as the user reads it: `"<m>m <s>s"` from one minute on,
/// `"<s>s"` below.
pub open spec fn duration_text(seconds: nat) -> Seq<char> {
    if seconds / 60 > 0 {
        decimal(seconds / 60) + "m "@ + decimal(seconds % 60) + "s"@
    } else {
        decimal(seconds % 60) + "s"@
    }
}

/// A duration in seconds as shown to the user, e.g. `"30s"`, `"2m 5s"`.
pub fn format_duration(seconds: u64) -> (r: String)
    ensures
        r@ == duration_text(seconds as nat),
{
    let mins = seconds / 60;
    let secs = seconds % 60;
    let mut v: Vec<char> = Vec::new();
    if mins > 0 {
        push_decimal(&mut v, mins);
        append_str(&mut v, "m ");
    }
    push_decimal(&mut v, secs);
    append_str(&mut v, "s");
    string_from_chars(&v)
}

} // verus!
