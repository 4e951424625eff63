//! Reading ffmpeg's `silencedetect` report.
//!
//! The report is a log with lines such as
//! `[silencedetect @ 0x..] silence_start: 1.5` and
//! `[silencedetect @ 0x..] silence_end: 3.2 | silence_duration: 1.7`.
//! This module finds those lines and the number text on each; turning the
//! numbers into times is left to the caller.
use vstd::prelude::*;

use crate::text::{
    chars_of, first_index, first_position, line_views, lines, occurs_at, occurs_in, split_lines,
    string_from_chars, sub_chars, trim, trimmed,
};

verus! {

/// The ffmpeg-based silence detector.
pub struct FfmpegAnalyzer;

/// A silence boundary reported by ffmpeg, with the number text that follows
/// its label.
#[derive(Debug, Clone)]
pub enum SilenceMarker {
    /// `silence_start: <value>`
    Start(String),
    /// `silence_end: <value> | ...`
    End(String),
}

/// A marker as (is it a start, its value text).
pub open spec fn marker_view(m: SilenceMarker) -> (bool, Seq<char>) {
    match m {
        SilenceMarker::Start(v) => (true, v@),
        SilenceMarker::End(v) => (false, v@),
    }
}

/// The marker on one line of the report: a line holding `silence_start:`
/// gives a start with the trimmed rest of the line after its first such
/// label; otherwise a line holding `silence_end:` gives an end with the
/// trimmed text after that label, up to the first `|`.
pub open spec fn line_marker(line: Seq<char>) -> Option<(bool, Seq<char>)> {
    if occurs_in(line, "silence_start:"@) {
        let pos = first_index(line, "silence_start:"@)->0;
        Some((true, trim(line.skip(pos + 14))))
    } else if occurs_in(line, "silence_end:"@) {
        let pos = first_index(line, "silence_end:"@)->0;
        let part = line.skip(pos + 12);
        let value = match first_index(part, seq!['|']) {
            Some(p) => part.take(p),
            None => part,
        };
        Some((false, trim(value)))
    } else {
        None
    }
}

/// The markers of a sequence of lines, in order.
pub open spec fn markers_of_lines(ls: Seq<Seq<char>>) -> Seq<(bool, Seq<char>)>
    decreases ls.len(),
{
    if ls.len() == 0 {
        Seq::empty()
    } else {
        markers_of_lines(ls.drop_last()) + match line_marker(ls.last()) {
            Some(m) => seq![m],
            None => Seq::empty(),
        }
    }
}

fn marker_of_line(line: &Vec<char>) -> (r: Option<SilenceMarker>)
    ensures
        match r {
            Some(m) => line_marker(line@) == Some(marker_view(m)),
            None => line_marker(line@) is None,
        },
{
    proof {
        reveal_strlit("silence_start:");
        reveal_strlit("silence_end:");
    }
    let start_label = chars_of("silence_start:");
    let end_label = chars_of("silence_end:");
    let n = line.len();
    assert(start_label@.len() == 14 && end_label@.len() == 12);
    match first_position(line, &start_label) {
        Some(pos) => {
            proof {
                assert(occurs_in(line@, "silence_start:"@));
            }
            let rest = sub_chars(line, pos + 14, line.len());
            assert(rest@ =~= line@.skip(pos + 14));
            let v = trimmed(&rest);
            return Some(SilenceMarker::Start(string_from_chars(&v)));
        },
        None => {},
    }
    match first_position(line, &end_label) {
        Some(pos) => {
            proof {
                assert(occurs_in(line@, "silence_end:"@));
            }
            let part = sub_chars(line, pos + 12, line.len());
            assert(part@ =~= line@.skip(pos + 12));
            let bar = vec!['|'];
            assert(bar@ =~= seq!['|']);
            let value = match first_position(&part, &bar) {
                Some(p) => {
                    let x = sub_chars(&part, 0, p);
                    assert(x@ =~= part@.take(p as int));
                    x
                },
                None => part,
            };
            let v = trimmed(&value);
            Some(SilenceMarker::End(string_from_chars(&v)))
        },
        None => None,
    }
}

/// The views of a list of markers.
pub open spec fn marker_views(ms: Seq<SilenceMarker>) -> Seq<(bool, Seq<char>)> {
    ms.map_values(|m: SilenceMarker| marker_view(m))
}

proof fn lemma_markers_step(ls: Seq<Seq<char>>, i: int)
    requires
        0 <= i < ls.len(),
    ensures
        markers_of_lines(ls.take(i + 1)) == markers_of_lines(ls.take(i)) + match line_marker(ls[i]) {
            Some(m) => seq![m],
            None => Seq::empty(),
        },
{
    let t = ls.take(i + 1);
    assert(t.drop_last() =~= ls.take(i));
    assert(t.last() == ls[i]);
}

/// The silence markers in ffmpeg's `silencedetect` output, one for each line
/// that holds a `silence_start:` or `silence_end:` label (see
/// [`line_marker`]), in order.
pub fn silence_markers(output: &str) -> (r: Vec<SilenceMarker>)
    ensures
        marker_views(r@) == markers_of_lines(lines(output@)),
{
    let v = chars_of(output);
    let ls = split_lines(&v);
    let ghost lv = line_views(ls@);
    let mut out: Vec<SilenceMarker> = Vec::new();
    let mut i: usize = 0;
    while i < ls.len()
        invariant
            i <= ls@.len(),
            lv == line_views(ls@),
            lv == lines(output@),
            marker_views(out@) == markers_of_lines(lv.take(i as int)),
        decreases ls.len() - i,
    {
        let ghost before = marker_views(out@);
        let m = marker_of_line(&ls[i]);
        proof {
            lemma_markers_step(lv, i as int);
            assert(lv[i as int] == ls@[i as int]@);
        }
        match m {
            Some(m) => {
                out.push(m);
                assert(marker_views(out@) =~= before.push(marker_view(m)));
            },
            None => {},
        }
        i = i + 1;
    }
    assert(lv.take(ls@.len() as int) =~= lv);
    out
}

/// A silence boundary with its value read as a time, where it could be.
#[derive(Debug, Clone, Copy)]
pub enum SilenceEvent<T> {
    /// `silence_start:` with its time
    Start(Option<T>),
    /// `silence_end:` with its time
    End(Option<T>),
}

/// One step of pairing silence boundaries: a start with a time becomes the
/// pending start (replacing an earlier one); a start without a time changes
/// nothing; an end closes the pending start, if any, giving a silence when
/// both times are known; the pending start is used up either way.
pub open spec fn silence_step_spec<T>(pending: Option<T>, ev: SilenceEvent<T>) -> (Option<T>, Option<(T, T)>) {
    match ev {
        SilenceEvent::Start(Some(t)) => (Some(t), None),
        SilenceEvent::Start(None) => (pending, None),
        SilenceEvent::End(e) => (None, match (pending, e) {
            (Some(s), Some(e)) => Some((s, e)),
            _ => None,
        }),
    }
}

/// Pair silence boundaries (see [`silence_step_spec`]): the new pending
/// start, and the silence that the event closes, if any.
pub fn silence_step<T: Copy>(pending: Option<T>, ev: SilenceEvent<T>) -> (r: (Option<T>, Option<(T, T)>))
    ensures
        r == silence_step_spec(pending, ev),
{
    match ev {
        SilenceEvent::Start(Some(t)) => (Some(t), None),
        SilenceEvent::Start(None) => (pending, None),
        SilenceEvent::End(e) => {
            let closed = match (pending, e) {
                (Some(s), Some(e)) => Some((s, e)),
                _ => None,
            };
            (None, closed)
        },
    }
}

/// An end never leaves a start pending, so one start is closed at most
/// once.
pub proof fn lemma_end_consumes_start<T>(pending: Option<T>, e: Option<T>)
    ensures
        silence_step_spec(pending, SilenceEvent::End(e)).0 is None,
        silence_step_spec(pending, SilenceEvent::End(e)).1 is Some ==> pending is Some,
{
}

} // verus!
