//! Time notations of the exported files: SRT (`HH:MM:SS,mmm`), YouTube
//! chapters (`MM:SS` or `HH:MM:SS`), ASS captions (`H:MM:SS.CC`) and EDL
//! timecodes (`HH:MM:SS:FF`), from whole time units.
use vstd::prelude::*;

use crate::text::{
    append_str, decimal, decimal_chars, pad_with, push_padded_with, string_from_chars,
};

verus! {

/// `n` in decimal with at least `width` digits (zero-padded).
pub open spec fn zero_padded(n: nat, width: nat) -> Seq<char> {
    pad_with(decimal(n), width, '0')
}

fn push_zero_padded(v: &mut Vec<char>, n: u64, width: usize)
    ensures
        final(v)@ == old(v)@ + zero_padded(n as nat, width as nat),
{
    let d = decimal_chars(n);
    push_padded_with(v, &d, width, '0');
}

/// The SRT notation of a time given in whole milliseconds: hours (kept to
/// 32 bits), minutes, seconds, milliseconds.
pub open spec fn srt_time_text(total_millis: nat) -> Seq<char> {
    let hours = (total_millis / 3600000) as u32;
    zero_padded(hours as nat, 2) + ":"@ + zero_padded((total_millis % 3600000) / 60000, 2) + ":"@
        + zero_padded((total_millis % 60000) / 1000, 2) + ","@ + zero_padded(total_millis % 1000, 3)
}

/// The SRT notation of a time (see [`srt_time_text`]).
pub fn srt_time(total_millis: u64) -> (r: String)
    ensures
        r@ == srt_time_text(total_millis as nat),
{
    let hours = (total_millis / 3600000) as u32;
    let mut v: Vec<char> = Vec::new();
    push_zero_padded(&mut v, hours as u64, 2);
    append_str(&mut v, ":");
    push_zero_padded(&mut v, (total_millis % 3600000) / 60000, 2);
    append_str(&mut v, ":");
    push_zero_padded(&mut v, (total_millis % 60000) / 1000, 2);
    append_str(&mut v, ",");
    push_zero_padded(&mut v, total_millis % 1000, 3);
    string_from_chars(&v)
}

/// The chapter notation of a time: `MM:SS`, with the hours in front where
/// there are any.
pub open spec fn youtube_time_text(hours: nat, minutes: nat, secs: nat) -> Seq<char> {
    if hours > 0 {
        zero_padded(hours, 2) + ":"@ + zero_padded(minutes, 2) + ":"@ + zero_padded(secs, 2)
    } else {
        zero_padded(minutes, 2) + ":"@ + zero_padded(secs, 2)
    }
}

/// The chapter notation of a time (see [`youtube_time_text`]).
pub fn youtube_time(hours: u32, minutes: u32, secs: u32) -> (r: String)
    ensures
        r@ == youtube_time_text(hours as nat, minutes as nat, secs as nat),
{
    let mut v: Vec<char> = Vec::new();
    if hours > 0 {
        push_zero_padded(&mut v, hours as u64, 2);
        append_str(&mut v, ":");
    }
    push_zero_padded(&mut v, minutes as u64, 2);
    append_str(&mut v, ":");
    push_zero_padded(&mut v, secs as u64, 2);
    string_from_chars(&v)
}

/// The ASS notation of a time: hours unpadded, then two-digit minutes,
/// seconds and centiseconds.
pub open spec fn ass_time_text(hours: nat, minutes: nat, secs: nat, centis: nat) -> Seq<char> {
    decimal(hours) + ":"@ + zero_padded(minutes, 2) + ":"@ + zero_padded(secs, 2) + "."@
        + zero_padded(centis, 2)
}

/// The ASS notation of a time (see [`ass_time_text`]).
pub fn ass_time(hours: u32, minutes: u32, secs: u32, centis: u32) -> (r: String)
    ensures
        r@ == ass_time_text(hours as nat, minutes as nat, secs as nat, centis as nat),
{
    let mut v: Vec<char> = decimal_chars(hours as u64);
    append_str(&mut v, ":");
    push_zero_padded(&mut v, minutes as u64, 2);
    append_str(&mut v, ":");
    push_zero_padded(&mut v, secs as u64, 2);
    append_str(&mut v, ".");
    push_zero_padded(&mut v, centis as u64, 2);
    string_from_chars(&v)
}

/// An SMPTE timecode: hours, minutes, seconds and frames, two digits each
/// (or more).
pub open spec fn timecode_text(t: (u32, u32, u32, u32)) -> Seq<char> {
    zero_padded(t.0 as nat, 2) + ":"@ + zero_padded(t.1 as nat, 2) + ":"@ + zero_padded(
        t.2 as nat,
        2,
    ) + ":"@ + zero_padded(t.3 as nat, 2)
}

fn push_timecode(v: &mut Vec<char>, t: (u32, u32, u32, u32))
    ensures
        final(v)@ == old(v)@ + timecode_text(t),
{
    let ghost start = v@;
    push_zero_padded(v, t.0 as u64, 2);
    append_str(v, ":");
    push_zero_padded(v, t.1 as u64, 2);
    append_str(v, ":");
    push_zero_padded(v, t.2 as u64, 2);
    append_str(v, ":");
    push_zero_padded(v, t.3 as u64, 2);
    assert(v@ =~= start + timecode_text(t));
}

/// One event of an edit decision list: the event number (three digits or
/// more), the source in and out timecodes, and the clip name.
pub open spec fn edl_event_text(number: nat, from: (u32, u32, u32, u32), to: (u32, u32, u32, u32), clip: Seq<char>) -> Seq<char> {
    zero_padded(number, 3) + "  AX       V     C        "@ + timecode_text(from) + " "@
        + timecode_text(to) + "\n* FROM CLIP NAME: "@ + clip + "\n\n"@
}

/// One event of an edit decision list (see [`edl_event_text`]).
pub fn edl_event(number: u64, from: (u32, u32, u32, u32), to: (u32, u32, u32, u32), clip: &str) -> (r: String)
    ensures
        r@ == edl_event_text(number as nat, from, to, clip@),
{
    let mut v: Vec<char> = Vec::new();
    push_zero_padded(&mut v, number, 3);
    append_str(&mut v, "  AX       V     C        ");
    push_timecode(&mut v, from);
    append_str(&mut v, " ");
    push_timecode(&mut v, to);
    append_str(&mut v, "\n* FROM CLIP NAME: ");
    append_str(&mut v, clip);
    append_str(&mut v, "\n\n");
    string_from_chars(&v)
}

} // verus!
