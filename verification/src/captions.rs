//! Styled captions (ASS subtitles) and the names of the files exported next
//! to a processed video.
use vstd::prelude::*;

use crate::paths::{
    or_empty, extension, file_stem, join, parent, path_extension, path_file_stem, path_join, path_parent,
    path_with_extension, with_extension,
};
use crate::text::{
    append_chars, append_str, chars_eq_str, chars_of, decimal, push_decimal, string_from_chars,
    trim, trimmed,
};

verus! {

/// The ASS text for one character of a caption: a backslash is doubled, a
/// line break becomes the forced break `\N`, a carriage return is dropped.
pub open spec fn ass_char(c: char) -> Seq<char> {
    if c == '\\' {
        "\\\\"@
    } else if c == '\n' {
        "\\N"@
    } else if c == '\r' {
        Seq::empty()
    } else {
        seq![c]
    }
}

/// A caption text with each character replaced by its ASS text.
pub open spec fn ass_escaped(s: Seq<char>) -> Seq<char>
    decreases s.len(),
{
    if s.len() == 0 {
        Seq::empty()
    } else {
        ass_escaped(s.drop_last()) + ass_char(s.last())
    }
}

/// A transcript segment gets a caption when its trimmed text is not empty
/// and is not the transcriber's placeholder for silence.
pub open spec fn has_caption(text: Seq<char>) -> bool {
    trim(text).len() > 0 && trim(text) != "[No speech detected]"@
}

/// The ASS event line of a caption from `start` to `end` (both already in
/// ASS time notation).
pub open spec fn dialogue_line(start: Seq<char>, end: Seq<char>, text: Seq<char>) -> Seq<char> {
    "Dialogue: 0,"@ + start + ","@ + end + ",Default,,0,0,0,,"@ + ass_escaped(trim(text)) + "\n"@
}

/// `s` with its characters replaced by their ASS text (see [`ass_escaped`]).
pub fn ass_escape(s: &Vec<char>) -> (r: Vec<char>)
    ensures
        r@ == ass_escaped(s@),
{
    let mut out: Vec<char> = Vec::new();
    let mut i: usize = 0;
    while i < s.len()
        invariant
            i <= s@.len(),
            out@ == ass_escaped(s@.take(i as int)),
        decreases s.len() - i,
    {
        let c = s[i];
        let ghost before = out@;
        if c == '\\' {
            append_str(&mut out, "\\\\");
        } else if c == '\n' {
            append_str(&mut out, "\\N");
        } else if c == '\r' {
        } else {
            out.push(c);
        }
        proof {
            assert(s@.take(i + 1).drop_last() =~= s@.take(i as int));
            assert(s@.take(i + 1).last() == c);
            assert(out@ =~= before + ass_char(c));
        }
        i = i + 1;
    }
    assert(s@.take(s@.len() as int) =~= s@);
    out
}

/// The event line of a caption, or none where the segment gets no caption
/// (see [`has_caption`] and [`dialogue_line`]).
pub fn caption_line(start: &str, end: &str, text: &str) -> (r: Option<String>)
    ensures
        has_caption(text@) ==> (r matches Some(l) && l@ == dialogue_line(start@, end@, text@)),
        !has_caption(text@) ==> r is None,
{
    let t = trimmed(&chars_of(text));
    if t.len() == 0 || chars_eq_str(&t, "[No speech detected]") {
        return None;
    }
    let mut v: Vec<char> = chars_of("Dialogue: 0,");
    append_str(&mut v, start);
    append_str(&mut v, ",");
    append_str(&mut v, end);
    append_str(&mut v, ",Default,,0,0,0,,");
    let e = ass_escape(&t);
    append_chars(&mut v, &e);
    append_str(&mut v, "\n");
    assert(v@ =~= dialogue_line(start@, end@, text@));
    Some(string_from_chars(&v))
}

/// The header of a caption file: script info, the one white, outlined,
/// bottom-centred style, and the format of the event lines.
pub open spec fn ass_header_text() -> Seq<char> {
    "[Script Info]\nTitle: Generated Captions\nScriptType: v4.00+\nCollisions: Normal\nPlayDepth: 0\n\n[V4+ Styles]\nFormat: Name, Fontname, Fontsize, PrimaryColour, SecondaryColour, OutlineColour, BackColour, Bold, Italic, Underline, StrikeOut, ScaleX, ScaleY, Spacing, Angle, BorderStyle, Outline, Shadow, Alignment, MarginL, MarginR, MarginV, Encoding\nStyle: Default,Arial,48,&H00FFFFFF,&H000000FF,&H00000000,&H80000000,-1,0,0,0,100,100,0,0,1,2,2,2,10,10,30,1\n\n[Events]\nFormat: Layer, Start, End, Style, Name, MarginL, MarginR, MarginV, Effect, Text\n"@
}

/// The header of a caption file (see [`ass_header_text`]).
pub fn ass_header() -> (r: &'static str)
    ensures
        r@ == ass_header_text(),
{
    "[Script Info]\nTitle: Generated Captions\nScriptType: v4.00+\nCollisions: Normal\nPlayDepth: 0\n\n[V4+ Styles]\nFormat: Name, Fontname, Fontsize, PrimaryColour, SecondaryColour, OutlineColour, BackColour, Bold, Italic, Underline, StrikeOut, ScaleX, ScaleY, Spacing, Angle, BorderStyle, Outline, Shadow, Alignment, MarginL, MarginR, MarginV, Encoding\nStyle: Default,Arial,48,&H00FFFFFF,&H000000FF,&H00000000,&H80000000,-1,0,0,0,100,100,0,0,1,2,2,2,10,10,30,1\n\n[Events]\nFormat: Layer, Start, End, Style, Name, MarginL, MarginR, MarginV, Effect, Text\n"
}

/// The files exported next to a processed video.
#[derive(Debug, Clone)]
pub struct ExportPaths {
    /// The output without its extension; the other names derive from it
    pub base: String,
    /// Subtitles (`.srt`)
    pub subtitles: String,
    /// YouTube chapters (`.chapters.txt`)
    pub chapters: String,
    /// Styled captions (`.ass`)
    pub captions: String,
    /// The video with burnt-in captions, before it replaces the output
    pub captioned: String,
    /// Final Cut Pro XML (`.fcpxml`)
    pub fcpxml: String,
    /// Edit decision list (`.edl`)
    pub edl: String,
    /// Thumbnail (`.jpg`)
    pub thumbnail: String,
    /// The folder for highlight clips
    pub clips_dir: String,
    /// The start of the highlight clips' names
    pub clip_pattern: String,
}

/// The export files for the output `out`.
pub open spec fn export_base(out: Seq<char>) -> Seq<char> {
    path_with_extension(out, Seq::empty())
}

/// The views of the export files of `out`, in field order.
pub open spec fn export_paths_for(out: Seq<char>) -> Seq<Seq<char>> {
    let base = export_base(out);
    seq![
        base,
        path_with_extension(base, "srt"@),
        chapters_file_of(base),
        path_with_extension(base, "ass"@),
        path_with_extension(out, "captioned.mp4"@),
        path_with_extension(base, "fcpxml"@),
        path_with_extension(base, "edl"@),
        path_with_extension(base, "jpg"@),
        clips_dir_of(path_parent(base)),
        clip_pattern_of(path_file_stem(base)),
    ]
}

/// The chapters file next to the export base `base`: `<base>.chapters.txt`.
pub open spec fn chapters_file_of(base: Seq<char>) -> Seq<char> {
    base + ".chapters.txt"@
}

/// The folder of the highlight clips, given the parent folder of the export
/// base: that folder, or the current one (`.`) where there is none.
pub open spec fn clips_dir_of(parent: Option<Seq<char>>) -> Seq<char> {
    match parent {
        Some(p) => p,
        None => "."@,
    }
}

/// The start of the highlight clips' names, given the stem of the export
/// base: `<stem>_clip` (the stem empty where there is none).
pub open spec fn clip_pattern_of(stem: Option<Seq<char>>) -> Seq<char> {
    or_empty(stem) + "_clip"@
}

/// The chapters file next to the export base (see [`chapters_file_of`]).
pub fn chapters_file(base: &str) -> (r: String)
    ensures
        r@ == chapters_file_of(base@),
{
    let mut v: Vec<char> = chars_of(base);
    append_str(&mut v, ".chapters.txt");
    string_from_chars(&v)
}

/// The folder of the highlight clips (see [`clips_dir_of`]).
pub fn clips_dir(parent: Option<String>) -> (r: String)
    ensures
        r@ == clips_dir_of(
            match parent {
                Some(p) => Some(p@),
                None => None,
            },
        ),
{
    match parent {
        Some(p) => p,
        None => ".".to_string(),
    }
}

/// The start of the highlight clips' names (see [`clip_pattern_of`]).
pub fn clip_pattern(stem: Option<String>) -> (r: String)
    ensures
        r@ == clip_pattern_of(
            match stem {
                Some(s) => Some(s@),
                None => None,
            },
        ),
{
    let mut v: Vec<char> = match stem {
        Some(s) => chars_of(s.as_str()),
        None => Vec::new(),
    };
    append_str(&mut v, "_clip");
    string_from_chars(&v)
}

/// The export files as a list, in field order.
pub open spec fn export_paths_view(p: ExportPaths) -> Seq<Seq<char>> {
    seq![
        p.base@,
        p.subtitles@,
        p.chapters@,
        p.captions@,
        p.captioned@,
        p.fcpxml@,
        p.edl@,
        p.thumbnail@,
        p.clips_dir@,
        p.clip_pattern@,
    ]
}

/// The files exported next to the output `out` (see [`export_paths_for`]).
pub fn export_paths(out: &str) -> (r: ExportPaths)
    ensures
        export_paths_view(r) == export_paths_for(out@),
{
    proof {
        reveal_strlit("");
        reveal_strlit("srt");
        reveal_strlit("ass");
        reveal_strlit("captioned.mp4");
        reveal_strlit("fcpxml");
        reveal_strlit("edl");
        reveal_strlit("jpg");
    }
    assert(""@ =~= Seq::<char>::empty());
    let base = with_extension(out, "");
    let b = base.as_str();
    let chapters = chapters_file(b);
    let dir = clips_dir(parent(b));
    let pattern = clip_pattern(file_stem(b));
    let r = ExportPaths {
        subtitles: with_extension(b, "srt"),
        chapters,
        captions: with_extension(b, "ass"),
        captioned: with_extension(out, "captioned.mp4"),
        fcpxml: with_extension(b, "fcpxml"),
        edl: with_extension(b, "edl"),
        thumbnail: with_extension(b, "jpg"),
        clips_dir: dir,
        clip_pattern: pattern,
        base,
    };
    assert(r.base@ == export_base(out@));
    assert(r.clips_dir@ == export_paths_for(out@)[8]);
    assert(r.clip_pattern@ == export_paths_for(out@)[9]);
    assert(export_paths_view(r) =~= export_paths_for(out@));
    r
}

/// The file of highlight clip `index` (counted from 1).
pub open spec fn clip_file(dir: Seq<char>, pattern: Seq<char>, index: nat) -> Seq<char> {
    path_join(dir, pattern + "_"@ + decimal(index) + ".mp4"@)
}

/// The file of highlight clip `index` (see [`clip_file`]).
pub fn clip_path(dir: &str, pattern: &str, index: u64) -> (r: String)
    ensures
        r@ == clip_file(dir@, pattern@, index as nat),
{
    let mut v: Vec<char> = chars_of(pattern);
    append_str(&mut v, "_");
    push_decimal(&mut v, index);
    append_str(&mut v, ".mp4");
    let name = string_from_chars(&v);
    join(dir, name.as_str())
}

/// The copy of the output at another resolution: the export base with the
/// height and the output's extension (`mp4` where it has none).
pub open spec fn resolution_file(out: Seq<char>, height: nat) -> Seq<char> {
    let ext = match path_extension(out) {
        Some(e) => e,
        None => "mp4"@,
    };
    export_base(out) + "_"@ + decimal(height) + "p."@ + ext
}

/// Where the copy of the output `out` at `height` lines is written (see
/// [`resolution_file`]).
pub fn resolution_path(out: &str, height: u32) -> (r: String)
    ensures
        r@ == resolution_file(out@, height as nat),
{
    proof {
        reveal_strlit("");
    }
    assert(""@ =~= Seq::<char>::empty());
    let base = with_extension(out, "");
    let mut v: Vec<char> = chars_of(base.as_str());
    append_str(&mut v, "_");
    push_decimal(&mut v, height as u64);
    append_str(&mut v, "p.");
    match extension(out) {
        Some(e) => append_str(&mut v, e.as_str()),
        None => append_str(&mut v, "mp4"),
    }
    string_from_chars(&v)
}

/// Which exports are asked for.
#[derive(Debug, Clone, Copy, PartialEq, Eq, Structural)]
pub struct ExportFlags {
    /// Subtitles (`.srt`)
    pub subtitles: bool,
    /// YouTube chapters
    pub chapters: bool,
    /// Styled captions burnt into the video
    pub captions: bool,
    /// Highlight clips
    pub clips: bool,
    /// Final Cut Pro XML
    pub fcpxml: bool,
    /// Edit decision list
    pub edl: bool,
    /// Thumbnail
    pub thumbnail: bool,
    /// The video at more resolutions
    pub multi_format: bool,
    /// More resolutions are configured
    pub has_extra_resolutions: bool,
    /// A low-resolution preview
    pub preview: bool,
}

/// One export written next to a processed video.
#[derive(Debug, Clone, Copy, PartialEq, Eq, Structural)]
pub enum ExportStep {
    /// Subtitles from the transcript
    Subtitles,
    /// The subtitles file noting that transcription failed
    SubtitlesPlaceholder,
    /// Chapters from the transcript
    Chapters,
    /// A chapters file with the intro alone
    ChaptersPlaceholder,
    /// Styled captions burnt into the video
    Captions,
    /// Highlight clips
    Clips,
    /// Final Cut Pro XML
    Fcpxml,
    /// Edit decision list
    Edl,
    /// Thumbnail
    Thumbnail,
    /// The video at the other configured resolutions
    ExtraResolutions,
    /// A low-resolution preview
    Preview,
}

/// `k` alone where `b` holds, else nothing.
pub open spec fn step_if(b: bool, k: ExportStep) -> Seq<ExportStep> {
    if b {
        seq![k]
    } else {
        Seq::empty()
    }
}

/// The exports that need a transcript: subtitles, chapters, captions and
/// clips.
pub open spec fn transcript_needed(f: ExportFlags) -> bool {
    f.subtitles || f.chapters || f.captions || f.clips
}

/// The exports written, in order, given whether a transcript could be had:
/// subtitles and chapters fall back to placeholder files without one, and
/// captions and clips are left out; the resolutions are written where any
/// are configured.
pub open spec fn export_steps(f: ExportFlags, has_transcript: bool) -> Seq<ExportStep> {
    step_if(f.subtitles && has_transcript, ExportStep::Subtitles)
        + step_if(f.subtitles && !has_transcript, ExportStep::SubtitlesPlaceholder)
        + step_if(f.chapters && has_transcript, ExportStep::Chapters)
        + step_if(f.chapters && !has_transcript, ExportStep::ChaptersPlaceholder)
        + step_if(f.captions && has_transcript, ExportStep::Captions)
        + step_if(f.clips && has_transcript, ExportStep::Clips)
        + step_if(f.fcpxml, ExportStep::Fcpxml)
        + step_if(f.edl, ExportStep::Edl)
        + step_if(f.thumbnail, ExportStep::Thumbnail)
        + step_if(f.multi_format && f.has_extra_resolutions, ExportStep::ExtraResolutions)
        + step_if(f.preview, ExportStep::Preview)
}

/// The text of a placeholder file.
pub open spec fn placeholder_of(k: ExportStep) -> Option<Seq<char>> {
    match k {
        ExportStep::SubtitlesPlaceholder => Some("# Transcription failed\n"@),
        ExportStep::ChaptersPlaceholder => Some("00:00 Intro\n"@),
        _ => None,
    }
}

/// Whether the exports asked for need a transcript.
pub fn needs_transcript(f: &ExportFlags) -> (r: bool)
    ensures
        r == transcript_needed(*f),
{
    f.subtitles || f.chapters || f.captions || f.clips
}

fn push_step(v: &mut Vec<ExportStep>, b: bool, k: ExportStep)
    ensures
        final(v)@ == old(v)@ + step_if(b, k),
{
    if b {
        v.push(k);
    }
    assert(final(v)@ =~= old(v)@ + step_if(b, k));
}

/// The exports to write, in order (see [`export_steps`]).
pub fn export_plan(f: &ExportFlags, has_transcript: bool) -> (r: Vec<ExportStep>)
    ensures
        r@ == export_steps(*f, has_transcript),
{
    let mut v: Vec<ExportStep> = Vec::new();
    push_step(&mut v, f.subtitles && has_transcript, ExportStep::Subtitles);
    push_step(&mut v, f.subtitles && !has_transcript, ExportStep::SubtitlesPlaceholder);
    push_step(&mut v, f.chapters && has_transcript, ExportStep::Chapters);
    push_step(&mut v, f.chapters && !has_transcript, ExportStep::ChaptersPlaceholder);
    push_step(&mut v, f.captions && has_transcript, ExportStep::Captions);
    push_step(&mut v, f.clips && has_transcript, ExportStep::Clips);
    push_step(&mut v, f.fcpxml, ExportStep::Fcpxml);
    push_step(&mut v, f.edl, ExportStep::Edl);
    push_step(&mut v, f.thumbnail, ExportStep::Thumbnail);
    push_step(&mut v, f.multi_format && f.has_extra_resolutions, ExportStep::ExtraResolutions);
    push_step(&mut v, f.preview, ExportStep::Preview);
    v
}

impl ExportStep {
    /// The text of the placeholder file this step writes, if it writes one.
    pub fn placeholder(&self) -> (r: Option<&'static str>)
        ensures
            match r {
                Some(t) => placeholder_of(*self) == Some(t@),
                None => placeholder_of(*self) is None,
            },
    {
        match self {
            ExportStep::SubtitlesPlaceholder => Some("# Transcription failed\n"),
            ExportStep::ChaptersPlaceholder => Some("00:00 Intro\n"),
            _ => None,
        }
    }
}

proof fn lemma_steps_concat(a: Seq<ExportStep>, b: Seq<ExportStep>, x: ExportStep)
    ensures
        (a + b).contains(x) <==> a.contains(x) || b.contains(x),
{
    if a.contains(x) {
        let i = choose|i: int| 0 <= i < a.len() && a[i] == x;
        assert((a + b)[i] == x);
    }
    if b.contains(x) {
        let i = choose|i: int| 0 <= i < b.len() && b[i] == x;
        assert((a + b)[a.len() + i] == x);
    }
    if (a + b).contains(x) {
        let i = choose|i: int| 0 <= i < (a + b).len() && (a + b)[i] == x;
        if i < a.len() {
            assert(a[i] == x);
        } else {
            assert(b[i - a.len()] == x);
        }
    }
}

proof fn lemma_step_if_contains(c: bool, k: ExportStep, x: ExportStep)
    ensures
        step_if(c, k).contains(x) <==> c && k == x,
{
    if c {
        assert(step_if(c, k)[0] == k);
    }
}

/// Every export asked for is written, whatever else is asked for: the
/// timeline files, the thumbnail and the preview exactly when asked for;
/// subtitles and chapters from the transcript where there is one, else as
/// placeholder files; captions and clips where asked for and a transcript
/// exists; the other resolutions where asked for and some are configured.
/// Nothing that is not asked for is written.
pub proof fn lemma_export_plan_covers_flags(f: ExportFlags, t: bool)
    ensures
        export_steps(f, t).contains(ExportStep::Fcpxml) <==> f.fcpxml,
        export_steps(f, t).contains(ExportStep::Edl) <==> f.edl,
        export_steps(f, t).contains(ExportStep::Thumbnail) <==> f.thumbnail,
        export_steps(f, t).contains(ExportStep::Preview) <==> f.preview,
        export_steps(f, t).contains(ExportStep::Subtitles) <==> (f.subtitles && t),
        export_steps(f, t).contains(ExportStep::SubtitlesPlaceholder) <==> (f.subtitles && !t),
        export_steps(f, t).contains(ExportStep::Chapters) <==> (f.chapters && t),
        export_steps(f, t).contains(ExportStep::ChaptersPlaceholder) <==> (f.chapters && !t),
        export_steps(f, t).contains(ExportStep::Captions) <==> (f.captions && t),
        export_steps(f, t).contains(ExportStep::Clips) <==> (f.clips && t),
        export_steps(f, t).contains(ExportStep::ExtraResolutions) <==> (f.multi_format && f.has_extra_resolutions),
{
    assert forall|x: ExportStep| #![auto] export_steps(f, t).contains(x) <==> (
        (x == ExportStep::Subtitles && f.subtitles && t)
        || (x == ExportStep::SubtitlesPlaceholder && f.subtitles && !t)
        || (x == ExportStep::Chapters && f.chapters && t)
        || (x == ExportStep::ChaptersPlaceholder && f.chapters && !t)
        || (x == ExportStep::Captions && f.captions && t)
        || (x == ExportStep::Clips && f.clips && t)
        || (x == ExportStep::Fcpxml && f.fcpxml)
        || (x == ExportStep::Edl && f.edl)
        || (x == ExportStep::Thumbnail && f.thumbnail)
        || (x == ExportStep::ExtraResolutions && f.multi_format && f.has_extra_resolutions)
        || (x == ExportStep::Preview && f.preview)
    ) by {
        let s0 = step_if(f.subtitles && t, ExportStep::Subtitles);
        let s1 = step_if(f.subtitles && !t, ExportStep::SubtitlesPlaceholder);
        let s2 = step_if(f.chapters && t, ExportStep::Chapters);
        let s3 = step_if(f.chapters && !t, ExportStep::ChaptersPlaceholder);
        let s4 = step_if(f.captions && t, ExportStep::Captions);
        let s5 = step_if(f.clips && t, ExportStep::Clips);
        let s6 = step_if(f.fcpxml, ExportStep::Fcpxml);
        let s7 = step_if(f.edl, ExportStep::Edl);
        let s8 = step_if(f.thumbnail, ExportStep::Thumbnail);
        let s9 = step_if(f.multi_format && f.has_extra_resolutions, ExportStep::ExtraResolutions);
        let s10 = step_if(f.preview, ExportStep::Preview);
        lemma_step_if_contains(f.subtitles && t, ExportStep::Subtitles, x);
        lemma_step_if_contains(f.subtitles && !t, ExportStep::SubtitlesPlaceholder, x);
        lemma_step_if_contains(f.chapters && t, ExportStep::Chapters, x);
        lemma_step_if_contains(f.chapters && !t, ExportStep::ChaptersPlaceholder, x);
        lemma_step_if_contains(f.captions && t, ExportStep::Captions, x);
        lemma_step_if_contains(f.clips && t, ExportStep::Clips, x);
        lemma_step_if_contains(f.fcpxml, ExportStep::Fcpxml, x);
        lemma_step_if_contains(f.edl, ExportStep::Edl, x);
        lemma_step_if_contains(f.thumbnail, ExportStep::Thumbnail, x);
        lemma_step_if_contains(f.multi_format && f.has_extra_resolutions, ExportStep::ExtraResolutions, x);
        lemma_step_if_contains(f.preview, ExportStep::Preview, x);
        lemma_steps_concat(s0, s1, x);
        lemma_steps_concat(s0 + s1, s2, x);
        lemma_steps_concat(s0 + s1 + s2, s3, x);
        lemma_steps_concat(s0 + s1 + s2 + s3, s4, x);
        lemma_steps_concat(s0 + s1 + s2 + s3 + s4, s5, x);
        lemma_steps_concat(s0 + s1 + s2 + s3 + s4 + s5, s6, x);
        lemma_steps_concat(s0 + s1 + s2 + s3 + s4 + s5 + s6, s7, x);
        lemma_steps_concat(s0 + s1 + s2 + s3 + s4 + s5 + s6 + s7, s8, x);
        lemma_steps_concat(s0 + s1 + s2 + s3 + s4 + s5 + s6 + s7 + s8, s9, x);
        lemma_steps_concat(s0 + s1 + s2 + s3 + s4 + s5 + s6 + s7 + s8 + s9, s10, x);
    }
}

} // verus!
