//! The ffmpeg-based editor's settings and the loudness report it reads back
//! from ffmpeg.
use vstd::prelude::*;

use crate::hwaccel::HwAccel;
use crate::text::{
    append_str, chars_of, contains, lowercase_of, occurs_in, to_lowercase, occurs_at, count_lead_ws, first_index, first_position, last_char_index,
    last_position_of, string_from_chars, sub_chars, trim, trim_start, trimmed,
};

verus! {

/// The ffmpeg-based video editor.
pub struct FfmpegEditor {
    /// The hardware encoder to use.
    pub hw_accel: HwAccel,
}

impl Default for FfmpegEditor {
    fn default() -> (r: Self)
        ensures
            r.hw_accel == HwAccel::Software,
    {
        FfmpegEditor { hw_accel: HwAccel::Software }
    }
}

impl FfmpegEditor {
    /// An editor that encodes with `hw_accel`.
    pub fn new(hw_accel: HwAccel) -> (r: Self)
        ensures
            r.hw_accel == hw_accel,
    {
        FfmpegEditor { hw_accel }
    }
}

/// The measurements of ffmpeg's `loudnorm` analysis pass, as printed.
#[derive(Debug, Clone)]
pub struct LoudnormStats {
    /// Integrated loudness (`input_i`)
    pub i: String,
    /// True peak (`input_tp`)
    pub tp: String,
    /// Loudness range (`input_lra`)
    pub lra: String,
    /// Threshold (`input_thresh`)
    pub thresh: String,
    /// Offset (`target_offset`)
    pub offset: String,
}

/// Characters that end an unquoted JSON value.
pub open spec fn is_value_stop(c: char) -> bool {
    c == ',' || c == '\n' || c == '}'
}

/// The length of the part of `s` before its first value-ending character.
pub open spec fn stop_len(s: Seq<char>) -> nat
    decreases s.len(),
{
    if s.len() == 0 || is_value_stop(s[0]) {
        0
    } else {
        1 + stop_len(s.drop_first())
    }
}

/// The JSON block in ffmpeg's output: from the first `{` through the last
/// `}` after it (to the end where there is none).
pub open spec fn loudnorm_json(s: Seq<char>) -> Option<Seq<char>> {
    match first_index(s, seq!['{']) {
        None => None,
        Some(st) => {
            let j = s.skip(st);
            let end = match last_char_index(j, '}') {
                Some(p) => p + 1,
                None => j.len() as int,
            };
            Some(j.take(end))
        },
    }
}

/// The value given for `"key"` in the JSON block `js`: after the first
/// `"key"`, white space, a `:` and white space, either a quoted string (up to
/// the next `"`) or the text up to the first `,`, newline or `}`, trimmed.
pub open spec fn json_value(js: Seq<char>, key: Seq<char>) -> Option<Seq<char>> {
    let pat = seq!['"'] + key + seq!['"'];
    match first_index(js, pat) {
        None => None,
        Some(idx) => {
            let a = trim_start(js.skip(idx + pat.len()));
            if a.len() > 0 && a[0] == ':' {
                let b = trim_start(a.drop_first());
                if b.len() > 0 && b[0] == '"' {
                    let t = b.drop_first();
                    match first_index(t, seq!['"']) {
                        None => None,
                        Some(e) => Some(t.take(e)),
                    }
                } else {
                    Some(trim(b.take(stop_len(b) as int)))
                }
            } else {
                None
            }
        },
    }
}

/// The five values that the loudness pass reports, in the order `input_i`,
/// `input_tp`, `input_lra`, `input_thresh`, `target_offset`; none when the
/// output has no JSON block or the block lacks one of them.
pub open spec fn loudnorm_values(s: Seq<char>) -> Option<Seq<Seq<char>>> {
    match loudnorm_json(s) {
        None => None,
        Some(js) => match (
            json_value(js, "input_i"@),
            json_value(js, "input_tp"@),
            json_value(js, "input_lra"@),
            json_value(js, "input_thresh"@),
            json_value(js, "target_offset"@),
        ) {
            (Some(a), Some(b), Some(c), Some(d), Some(e)) => Some(seq![a, b, c, d, e]),
            _ => None,
        },
    }
}

/// The values of `stats` in the order of [`loudnorm_values`].
pub open spec fn stats_values(st: LoudnormStats) -> Seq<Seq<char>> {
    seq![st.i@, st.tp@, st.lra@, st.thresh@, st.offset@]
}

/// One of the first five `vals` is empty or rejected by `is_finite_number`.
pub open spec fn some_value_rejected<F: Fn(&String) -> bool>(
    is_finite_number: F,
    vals: Seq<Seq<char>>,
) -> bool {
    exists|k: int, s: &String|
        #![trigger vals[k], s@]
        0 <= k < 5 && s@ == vals[k] && (s@.len() == 0 || is_finite_number.ensures((s,), false))
}

fn stop_position(v: &Vec<char>) -> (r: usize)
    ensures
        r == stop_len(v@),
        r <= v@.len(),
{
    let mut i: usize = 0;
    assert(v@.skip(0) == v@);
    while i < v.len() && !(v[i] == ',' || v[i] == '\n' || v[i] == '}')
        invariant
            i <= v@.len(),
            stop_len(v@) == i + stop_len(v@.skip(i as int)),
        decreases v.len() - i,
    {
        assert(v@.skip(i as int).drop_first() == v@.skip(i + 1));
        i = i + 1;
    }
    i
}

/// `v[from..]` without its leading white space.
fn skip_ws_from(v: &Vec<char>, from: usize) -> (r: Vec<char>)
    requires
        from <= v.len(),
    ensures
        r@ == trim_start(v@.skip(from as int)),
{
    let n = count_lead_ws(v, from);
    let r = sub_chars(v, from + n, v.len());
    assert(r@ == v@.skip(from as int).skip(n as int));
    r
}

fn json_block(v: &Vec<char>) -> (r: Option<Vec<char>>)
    ensures
        match r {
            Some(js) => loudnorm_json(v@) == Some(js@),
            None => loudnorm_json(v@) is None,
        },
{
    let open = vec!['{'];
    assert(open@ =~= seq!['{']);
    match first_position(v, &open) {
        None => None,
        Some(st) => {
            let j = sub_chars(v, st, v.len());
            assert(j@ == v@.skip(st as int));
            let end = match last_position_of(&j, '}') {
                Some(p) => p + 1,
                None => j.len(),
            };
            let r = sub_chars(&j, 0, end);
            assert(r@ =~= j@.take(end as int));
            Some(r)
        },
    }
}

fn json_value_of(js: &Vec<char>, key: &str) -> (r: Option<Vec<char>>)
    ensures
        match r {
            Some(x) => json_value(js@, key@) == Some(x@),
            None => json_value(js@, key@) is None,
        },
{
    let mut pat: Vec<char> = vec!['"'];
    append_str(&mut pat, key);
    pat.push('"');
    assert(pat@ =~= seq!['"'] + key@ + seq!['"']);
    match first_position(js, &pat) {
        None => None,
        Some(idx) => {
            assert(occurs_at(js@, pat@, idx as int));
            assert(idx + pat@.len() <= js@.len());
            let n = js.len();
            let a = skip_ws_from(js, idx + pat.len());
            if a.len() > 0 && a[0] == ':' {
                let b = skip_ws_from(&a, 1);
                assert(a@.skip(1) == a@.drop_first());
                if b.len() > 0 && b[0] == '"' {
                    let t = sub_chars(&b, 1, b.len());
                    assert(t@ == b@.drop_first());
                    let quote = vec!['"'];
                    assert(quote@ =~= seq!['"']);
                    match first_position(&t, &quote) {
                        None => None,
                        Some(e) => {
                            let x = sub_chars(&t, 0, e);
                            assert(x@ =~= t@.take(e as int));
                            Some(x)
                        },
                    }
                } else {
                    let e = stop_position(&b);
                    let head = sub_chars(&b, 0, e);
                    assert(head@ =~= b@.take(e as int));
                    Some(trimmed(&head))
                }
            } else {
                None
            }
        },
    }
}

/// The loudness measurements printed by ffmpeg's `loudnorm` analysis, as
/// text, without checking that they are numbers: `None` when the output has
/// no JSON block or the block lacks one of the five values.
pub fn extract_loudnorm_stats(stderr: &str) -> (r: Option<LoudnormStats>)
    ensures
        match r {
            Some(st) => loudnorm_values(stderr@) == Some(stats_values(st)),
            None => loudnorm_values(stderr@) is None,
        },
{
    let v = chars_of(stderr);
    let js = match json_block(&v) {
        Some(js) => js,
        None => return None,
    };
    let i = match json_value_of(&js, "input_i") {
        Some(x) => x,
        None => return None,
    };
    let tp = match json_value_of(&js, "input_tp") {
        Some(x) => x,
        None => return None,
    };
    let lra = match json_value_of(&js, "input_lra") {
        Some(x) => x,
        None => return None,
    };
    let thresh = match json_value_of(&js, "input_thresh") {
        Some(x) => x,
        None => return None,
    };
    let offset = match json_value_of(&js, "target_offset") {
        Some(x) => x,
        None => return None,
    };
    let st = LoudnormStats {
        i: string_from_chars(&i),
        tp: string_from_chars(&tp),
        lra: string_from_chars(&lra),
        thresh: string_from_chars(&thresh),
        offset: string_from_chars(&offset),
    };
    assert(stats_values(st) =~= seq![i@, tp@, lra@, thresh@, offset@]);
    Some(st)
}

/// Parse the measurements of ffmpeg's `loudnorm` analysis pass from its
/// error output. Every value must be non-empty and accepted by
/// `is_finite_number` (which the caller supplies: whether the text parses as
/// a finite floating-point number); the values are checked in the order of
/// [`loudnorm_values`] and the first rejected one gives `None`.
pub fn parse_loudnorm_stats<F: Fn(&String) -> bool>(stderr: &str, is_finite_number: F) -> (r:
    Option<LoudnormStats>)
    requires
        forall|s: &String| is_finite_number.requires((s,)),
    ensures
        match r {
            Some(st) => {
                &&& loudnorm_values(stderr@) == Some(stats_values(st))
                &&& st.i@.len() > 0 && is_finite_number.ensures((&st.i,), true)
                &&& st.tp@.len() > 0 && is_finite_number.ensures((&st.tp,), true)
                &&& st.lra@.len() > 0 && is_finite_number.ensures((&st.lra,), true)
                &&& st.thresh@.len() > 0 && is_finite_number.ensures((&st.thresh,), true)
                &&& st.offset@.len() > 0 && is_finite_number.ensures((&st.offset,), true)
            },
            None => match loudnorm_values(stderr@) {
                None => true,
                Some(vals) => some_value_rejected(is_finite_number, vals),
            },
        },
{
    let st = match extract_loudnorm_stats(stderr) {
        Some(st) => st,
        None => return None,
    };
    let ghost vals = stats_values(st);
    assert(vals[0] == st.i@);
    assert(vals[1] == st.tp@);
    assert(vals[2] == st.lra@);
    assert(vals[3] == st.thresh@);
    assert(vals[4] == st.offset@);
    assert(loudnorm_values(stderr@) == Some(vals));
    if st.i.as_str().is_empty() {
        assert(vals[0] == st.i@ && st.i@.len() == 0);
        assert(some_value_rejected(is_finite_number, vals)) by {
            assert(vals[0] == (&st.i)@);
        }
        return None;
    }
    if !is_finite_number(&st.i) {
        assert(vals[0] == st.i@ && is_finite_number.ensures((&st.i,), false));
        assert(some_value_rejected(is_finite_number, vals)) by {
            assert(vals[0] == (&st.i)@);
        }
        return None;
    }
    if st.tp.as_str().is_empty() {
        assert(vals[1] == st.tp@ && st.tp@.len() == 0);
        assert(some_value_rejected(is_finite_number, vals)) by {
            assert(vals[1] == (&st.tp)@);
        }
        return None;
    }
    if !is_finite_number(&st.tp) {
        assert(vals[1] == st.tp@ && is_finite_number.ensures((&st.tp,), false));
        assert(some_value_rejected(is_finite_number, vals)) by {
            assert(vals[1] == (&st.tp)@);
        }
        return None;
    }
    if st.lra.as_str().is_empty() {
        assert(vals[2] == st.lra@ && st.lra@.len() == 0);
        assert(some_value_rejected(is_finite_number, vals)) by {
            assert(vals[2] == (&st.lra)@);
        }
        return None;
    }
    if !is_finite_number(&st.lra) {
        assert(vals[2] == st.lra@ && is_finite_number.ensures((&st.lra,), false));
        assert(some_value_rejected(is_finite_number, vals)) by {
            assert(vals[2] == (&st.lra)@);
        }
        return None;
    }
    if st.thresh.as_str().is_empty() {
        assert(vals[3] == st.thresh@ && st.thresh@.len() == 0);
        assert(some_value_rejected(is_finite_number, vals)) by {
            assert(vals[3] == (&st.thresh)@);
        }
        return None;
    }
    if !is_finite_number(&st.thresh) {
        assert(vals[3] == st.thresh@ && is_finite_number.ensures((&st.thresh,), false));
        assert(some_value_rejected(is_finite_number, vals)) by {
            assert(vals[3] == (&st.thresh)@);
        }
        return None;
    }
    if st.offset.as_str().is_empty() {
        assert(vals[4] == st.offset@ && st.offset@.len() == 0);
        assert(some_value_rejected(is_finite_number, vals)) by {
            assert(vals[4] == (&st.offset)@);
        }
        return None;
    }
    if !is_finite_number(&st.offset) {
        assert(vals[4] == st.offset@ && is_finite_number.ensures((&st.offset,), false));
        assert(some_value_rejected(is_finite_number, vals)) by {
            assert(vals[4] == (&st.offset)@);
        }
        return None;
    }
    Some(st)
}

/// A transcript segment is a filler when its lowercased text contains one
/// of the filler words.
pub open spec fn is_filler_text(text: Seq<char>, words: Seq<Seq<char>>) -> bool {
    exists|k: int| 0 <= k < words.len() && occurs_in(lowercase_of(text), #[trigger] words[k])
}

/// The views of a list of words.
pub open spec fn word_views(v: Seq<String>) -> Seq<Seq<char>> {
    v.map_values(|s: String| s@)
}

/// Whether a transcript segment with `text` is a filler to cut (see
/// [`is_filler_text`]).
pub fn is_filler(text: &str, words: &[String]) -> (r: bool)
    ensures
        r == is_filler_text(text@, word_views(words@)),
{
    let lower = to_lowercase(text);
    let l = chars_of(lower.as_str());
    let mut k: usize = 0;
    while k < words.len()
        invariant
            k <= words@.len(),
            l@ == lowercase_of(text@),
            forall|j: int| 0 <= j < k ==> !occurs_in(l@, #[trigger] word_views(words@)[j]),
        decreases words.len() - k,
    {
        let w = chars_of(words[k].as_str());
        if contains(&l, &w) {
            assert(word_views(words@)[k as int] == w@);
            return true;
        }
        assert(word_views(words@)[k as int] == w@);
        k = k + 1;
    }
    false
}

} // verus!
