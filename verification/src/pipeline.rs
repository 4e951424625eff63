//! The order of the processing stages for one video, and the file each stage
//! writes.
//!
//! A video is first trimmed; then, as configured, its audio is denoised,
//! normalised and mixed with music; intro and outro are added; then the
//! picture is stabilised, colour corrected, reframed, blurred, scaled and
//! watermarked, in that order. Every stage but the ones that write the final
//! output writes the output path with its extension replaced by one naming
//! the stage; the next stage reads that file, which is then removed.
use vstd::prelude::*;

use crate::batch::{keeps_output, other_than, tracked_after, TempFileGuard};
use crate::text::{chars_eq, chars_of};
use crate::paths::{path_with_extension, plain_extension, with_extension};

verus! {

/// Which optional stages run for a video.
#[derive(Debug, Clone, Copy, PartialEq, Eq, Structural)]
pub struct PipelineOptions {
    /// Denoise the audio
    pub noise_reduction: bool,
    /// Normalise loudness
    pub enhance_audio: bool,
    /// Mix in background music
    pub mix_music: bool,
    /// Add an intro or an outro (or both)
    pub intro_outro: bool,
    /// Stabilise the picture
    pub stabilize: bool,
    /// Correct colours
    pub color_correct: bool,
    /// Reframe to the vertical target resolution
    pub reframe: bool,
    /// Blur the background
    pub blur_background: bool,
    /// The target resolution differs from the default one
    pub resize: bool,
    /// Overlay a watermark
    pub watermark: bool,
}

/// One processing stage.
#[derive(Debug, Clone, Copy, PartialEq, Eq, Structural)]
pub enum StageKind {
    /// Cut out or speed up the silent parts
    Trim,
    /// Denoise the audio
    ReduceNoise,
    /// Normalise loudness
    EnhanceAudio,
    /// Mix in background music
    MixMusic,
    /// Concatenate intro, video and outro into the output
    AddIntroOutro,
    /// Move the current file to the output path, where it is elsewhere
    MoveToOutput,
    /// Stabilise the picture
    Stabilize,
    /// Correct colours
    ColorCorrect,
    /// Reframe to the target resolution
    Reframe,
    /// Blur the background
    BlurBackground,
    /// Scale to the target resolution
    Scale,
    /// Overlay the watermark
    Watermark,
}

/// A stage and the file it writes.
#[derive(Debug, Clone)]
pub struct Stage {
    /// What the stage does
    pub kind: StageKind,
    /// The file it writes
    pub output: String,
}

/// `k` alone where `b` holds, else nothing.
pub open spec fn when(b: bool, k: StageKind) -> Seq<StageKind> {
    if b {
        seq![k]
    } else {
        Seq::empty()
    }
}

/// The stages on the audio side: trimming first, then denoising, loudness
/// and music.
pub open spec fn audio_kinds(o: PipelineOptions) -> Seq<StageKind> {
    seq![StageKind::Trim] + when(o.noise_reduction, StageKind::ReduceNoise) + when(
        o.enhance_audio,
        StageKind::EnhanceAudio,
    ) + when(o.mix_music, StageKind::MixMusic)
}

/// After the audio stages the file reaches the output path: by the intro and
/// outro concatenation, or by a move where an audio stage wrote elsewhere.
pub open spec fn join_kinds(o: PipelineOptions) -> Seq<StageKind> {
    if o.intro_outro {
        seq![StageKind::AddIntroOutro]
    } else if o.noise_reduction || o.enhance_audio || o.mix_music {
        seq![StageKind::MoveToOutput]
    } else {
        Seq::empty()
    }
}

/// The stages on the picture; scaling only where the video is not reframed,
/// and the watermark last so that scaling does not stretch it.
pub open spec fn video_kinds(o: PipelineOptions) -> Seq<StageKind> {
    when(o.stabilize, StageKind::Stabilize) + when(o.color_correct, StageKind::ColorCorrect) + when(
        o.reframe,
        StageKind::Reframe,
    ) + when(o.blur_background, StageKind::BlurBackground) + when(
        !o.reframe && o.resize,
        StageKind::Scale,
    ) + when(o.watermark, StageKind::Watermark)
}

/// All stages in order; a final move brings the last picture stage's file
/// to the output path.
pub open spec fn stage_kinds(o: PipelineOptions) -> Seq<StageKind> {
    audio_kinds(o) + join_kinds(o) + video_kinds(o) + when(
        video_kinds(o).len() > 0,
        StageKind::MoveToOutput,
    )
}

/// The file that a stage writes, for the final output `out`: the output
/// itself, or the output with its extension replaced by one naming the stage.
/// Trimming writes the output directly unless a later audio stage or the
/// intro and outro will rewrite it.
pub open spec fn stage_output(k: StageKind, out: Seq<char>, o: PipelineOptions) -> Seq<char> {
    match k {
        StageKind::Trim => if o.enhance_audio || o.mix_music || o.intro_outro {
            path_with_extension(out, "trimmed.mp4"@)
        } else {
            out
        },
        StageKind::ReduceNoise => path_with_extension(out, "denoised.mp4"@),
        StageKind::EnhanceAudio => path_with_extension(out, "enhanced.mp4"@),
        StageKind::MixMusic => path_with_extension(out, "music.mp4"@),
        StageKind::AddIntroOutro => out,
        StageKind::MoveToOutput => out,
        StageKind::Stabilize => path_with_extension(out, "stabilized.mp4"@),
        StageKind::ColorCorrect => path_with_extension(out, "corrected.mp4"@),
        StageKind::Reframe => path_with_extension(out, "reframed.mp4"@),
        StageKind::BlurBackground => path_with_extension(out, "blurred.mp4"@),
        StageKind::Scale => path_with_extension(out, "scaled.mp4"@),
        StageKind::Watermark => path_with_extension(out, "watermarked.mp4"@),
    }
}

/// The plan: each stage with the file it writes.
pub open spec fn stage_plan(out: Seq<char>, o: PipelineOptions) -> Seq<(StageKind, Seq<char>)> {
    stage_kinds(o).map_values(|k: StageKind| (k, stage_output(k, out, o)))
}

/// A list of stages as (kind, file written).
pub open spec fn stage_views(v: Seq<Stage>) -> Seq<(StageKind, Seq<char>)> {
    v.map_values(|s: Stage| (s.kind, s.output@))
}

/// The progress shown while a stage runs, in thousandths.
pub open spec fn stage_progress(k: StageKind) -> nat {
    match k {
        StageKind::Trim => 150,
        StageKind::ReduceNoise => 740,
        StageKind::EnhanceAudio => 780,
        StageKind::MixMusic => 840,
        StageKind::AddIntroOutro => 880,
        StageKind::MoveToOutput => 880,
        StageKind::Stabilize => 900,
        StageKind::ColorCorrect => 930,
        StageKind::Reframe => 950,
        StageKind::BlurBackground => 970,
        StageKind::Scale => 960,
        StageKind::Watermark => 980,
    }
}

/// The label shown while a stage runs; a move shows none.
pub open spec fn stage_label(k: StageKind) -> Option<Seq<char>> {
    match k {
        StageKind::Trim => Some("Trimming video"@),
        StageKind::ReduceNoise => Some("Reducing noise"@),
        StageKind::EnhanceAudio => Some("Enhancing audio"@),
        StageKind::MixMusic => Some("Mixing background music"@),
        StageKind::AddIntroOutro => Some("Adding intro/outro"@),
        StageKind::MoveToOutput => None,
        StageKind::Stabilize => Some("Stabilizing video"@),
        StageKind::ColorCorrect => Some("Color correcting"@),
        StageKind::Reframe => Some("Auto-reframing"@),
        StageKind::BlurBackground => Some("Blurring background"@),
        StageKind::Scale => Some("Scaling to target resolution"@),
        StageKind::Watermark => Some("Adding watermark"@),
    }
}

impl StageKind {
    /// The progress shown while the stage runs, in thousandths.
    pub fn progress_permille(&self) -> (r: u32)
        ensures
            r == stage_progress(*self),
    {
        match self {
            StageKind::Trim => 150,
            StageKind::ReduceNoise => 740,
            StageKind::EnhanceAudio => 780,
            StageKind::MixMusic => 840,
            StageKind::AddIntroOutro => 880,
            StageKind::MoveToOutput => 880,
            StageKind::Stabilize => 900,
            StageKind::ColorCorrect => 930,
            StageKind::Reframe => 950,
            StageKind::BlurBackground => 970,
            StageKind::Scale => 960,
            StageKind::Watermark => 980,
        }
    }

    /// The label shown while the stage runs.
    pub fn label(&self) -> (r: Option<&'static str>)
        ensures
            match r {
                Some(s) => stage_label(*self) == Some(s@),
                None => stage_label(*self) is None,
            },
    {
        match self {
            StageKind::Trim => Some("Trimming video"),
            StageKind::ReduceNoise => Some("Reducing noise"),
            StageKind::EnhanceAudio => Some("Enhancing audio"),
            StageKind::MixMusic => Some("Mixing background music"),
            StageKind::AddIntroOutro => Some("Adding intro/outro"),
            StageKind::MoveToOutput => None,
            StageKind::Stabilize => Some("Stabilizing video"),
            StageKind::ColorCorrect => Some("Color correcting"),
            StageKind::Reframe => Some("Auto-reframing"),
            StageKind::BlurBackground => Some("Blurring background"),
            StageKind::Scale => Some("Scaling to target resolution"),
            StageKind::Watermark => Some("Adding watermark"),
        }
    }
}

fn stage_file(out: &str, ext: &str) -> (r: String)
    requires
        plain_extension(ext@),
    ensures
        r@ == path_with_extension(out@, ext@),
{
    with_extension(out, ext)
}

/// The file that stage `kind` writes for the final output `out` (see
/// [`stage_output`]).
pub fn stage_output_path(kind: StageKind, out: &str, o: &PipelineOptions) -> (r: String)
    ensures
        r@ == stage_output(kind, out@, *o),
{
    match kind {
        StageKind::Trim => {
            if o.enhance_audio || o.mix_music || o.intro_outro {
                proof {
                    reveal_strlit("trimmed.mp4");
                }
                stage_file(out, "trimmed.mp4")
            } else {
                out.to_string()
            }
        },
        StageKind::ReduceNoise => {
            proof {
                reveal_strlit("denoised.mp4");
            }
            stage_file(out, "denoised.mp4")
        },
        StageKind::EnhanceAudio => {
            proof {
                reveal_strlit("enhanced.mp4");
            }
            stage_file(out, "enhanced.mp4")
        },
        StageKind::MixMusic => {
            proof {
                reveal_strlit("music.mp4");
            }
            stage_file(out, "music.mp4")
        },
        StageKind::AddIntroOutro => out.to_string(),
        StageKind::MoveToOutput => out.to_string(),
        StageKind::Stabilize => {
            proof {
                reveal_strlit("stabilized.mp4");
            }
            stage_file(out, "stabilized.mp4")
        },
        StageKind::ColorCorrect => {
            proof {
                reveal_strlit("corrected.mp4");
            }
            stage_file(out, "corrected.mp4")
        },
        StageKind::Reframe => {
            proof {
                reveal_strlit("reframed.mp4");
            }
            stage_file(out, "reframed.mp4")
        },
        StageKind::BlurBackground => {
            proof {
                reveal_strlit("blurred.mp4");
            }
            stage_file(out, "blurred.mp4")
        },
        StageKind::Scale => {
            proof {
                reveal_strlit("scaled.mp4");
            }
            stage_file(out, "scaled.mp4")
        },
        StageKind::Watermark => {
            proof {
                reveal_strlit("watermarked.mp4");
            }
            stage_file(out, "watermarked.mp4")
        },
    }
}

fn push_when(v: &mut Vec<StageKind>, b: bool, k: StageKind)
    ensures
        final(v)@ == old(v)@ + when(b, k),
{
    if b {
        v.push(k);
    }
    assert(final(v)@ =~= old(v)@ + when(b, k));
}

fn audio_kind_list(o: &PipelineOptions) -> (r: Vec<StageKind>)
    ensures
        r@ == audio_kinds(*o),
{
    let mut v: Vec<StageKind> = Vec::new();
    v.push(StageKind::Trim);
    push_when(&mut v, o.noise_reduction, StageKind::ReduceNoise);
    push_when(&mut v, o.enhance_audio, StageKind::EnhanceAudio);
    push_when(&mut v, o.mix_music, StageKind::MixMusic);
    assert(v@ =~= audio_kinds(*o));
    v
}

fn video_kind_list(o: &PipelineOptions) -> (r: Vec<StageKind>)
    ensures
        r@ == video_kinds(*o),
{
    let mut v: Vec<StageKind> = Vec::new();
    push_when(&mut v, o.stabilize, StageKind::Stabilize);
    push_when(&mut v, o.color_correct, StageKind::ColorCorrect);
    push_when(&mut v, o.reframe, StageKind::Reframe);
    push_when(&mut v, o.blur_background, StageKind::BlurBackground);
    push_when(&mut v, !o.reframe && o.resize, StageKind::Scale);
    push_when(&mut v, o.watermark, StageKind::Watermark);
    assert(v@ =~= video_kinds(*o));
    v
}

/// The kinds of the stages that process one video, in order (see
/// [`stage_kinds`]).
pub fn stage_kind_list(o: &PipelineOptions) -> (r: Vec<StageKind>)
    ensures
        r@ == stage_kinds(*o),
{
    let mut v = audio_kind_list(o);
    if o.intro_outro {
        v.push(StageKind::AddIntroOutro);
    } else if o.noise_reduction || o.enhance_audio || o.mix_music {
        v.push(StageKind::MoveToOutput);
    }
    assert(v@ =~= audio_kinds(*o) + join_kinds(*o));
    let mut video = video_kind_list(o);
    let any_video = video.len() > 0;
    v.append(&mut video);
    push_when(&mut v, any_video, StageKind::MoveToOutput);
    assert(v@ =~= stage_kinds(*o));
    v
}

/// The stages that process one video whose result goes to `out`, in order,
/// each with the file it writes (see [`stage_kinds`] and [`stage_output`]).
pub fn plan_stages(out: &str, o: &PipelineOptions) -> (r: Vec<Stage>)
    ensures
        stage_views(r@) == stage_plan(out@, *o),
        r@.len() >= 1,
        r@[0].kind == StageKind::Trim,
        r@.last().output@ == out@,
{
    let kinds = stage_kind_list(o);
    let mut v: Vec<Stage> = Vec::new();
    let mut i: usize = 0;
    while i < kinds.len()
        invariant
            i <= kinds@.len(),
            kinds@ == stage_kinds(*o),
            stage_views(v@) == stage_plan(out@, *o).take(i as int),
        decreases kinds.len() - i,
    {
        let k = kinds[i];
        let path = stage_output_path(k, out, o);
        let ghost before = v@;
        v.push(Stage { kind: k, output: path });
        assert(stage_views(v@) =~= stage_views(before).push((k, stage_output(k, out@, *o))));
        assert(stage_plan(out@, *o)[i as int] == (k, stage_output(k, out@, *o)));
        assert(stage_views(v@) =~= stage_plan(out@, *o).take(i + 1));
        i = i + 1;
    }
    proof {
        lemma_plan_ends_at_output(out@, *o);
        assert(stage_plan(out@, *o).take(kinds@.len() as int) =~= stage_plan(out@, *o));
        assert(stage_views(v@)[0] == stage_plan(out@, *o)[0]);
        assert(stage_views(v@)[v@.len() - 1] == stage_plan(out@, *o)[v@.len() - 1]);
    }
    v
}

/// Bookkeeping before a stage writes `next`: `next` is tracked as an
/// intermediate file (unless it is the final output), so that a stage that
/// fails part-way leaves no partial file behind.
pub fn begin_stage(guard: &mut TempFileGuard, next: String)
    ensures
        final(guard).output_path() == old(guard).output_path(),
        final(guard).tracked_paths() == tracked_after(old(guard).tracked_paths(), old(guard).output_path(), next@),
        keeps_output(final(guard).tracked_paths(), final(guard).output_path()),
{
    guard.track(next);
}

/// Bookkeeping after a stage that read `previous` has succeeded: `previous`
/// is no longer an intermediate file to clean up. Returns whether
/// `previous` is an intermediate file (not the final output), which the
/// caller then removes (or, for a move, has renamed to the output).
pub fn end_stage(guard: &mut TempFileGuard, previous: &str) -> (intermediate: bool)
    ensures
        intermediate == (previous@ != old(guard).output_path()),
        final(guard).output_path() == old(guard).output_path(),
        final(guard).tracked_paths() == released(old(guard).tracked_paths(), old(guard).output_path(), previous@),
{
    let intermediate = reads_intermediate(guard, previous);
    if intermediate {
        guard.untrack(previous);
    }
    intermediate
}

/// Whether a stage reading `previous` reads an intermediate file, that is
/// anything but the final output.
pub fn reads_intermediate(guard: &TempFileGuard, previous: &str) -> (r: bool)
    ensures
        r == (previous@ != guard.output_path()),
{
    let prev = chars_of(previous);
    let out = chars_of(guard.output().as_str());
    !chars_eq(&prev, &out)
}

/// Every plan starts by trimming and ends with a stage that writes the
/// final output.
pub proof fn lemma_plan_ends_at_output(out: Seq<char>, o: PipelineOptions)
    ensures
        stage_kinds(o).len() >= 1,
        stage_kinds(o)[0] == StageKind::Trim,
        stage_output(stage_kinds(o).last(), out, o) == out,
        stage_plan(out, o).len() == stage_kinds(o).len(),
        stage_plan(out, o).last().1 == out,
        stage_plan(out, o)[0].0 == StageKind::Trim,
{
    let ks = stage_kinds(o);
    assert(ks[0] == StageKind::Trim);
}

/// Only the trimming stage reads the input video; every other stage reads
/// the file written by the stage before it. Where a watermark is added, no
/// picture stage runs after it, and a video that is reframed is never
/// scaled.
pub proof fn lemma_watermark_last(o: PipelineOptions)
    ensures
        o.watermark ==> video_kinds(o).last() == StageKind::Watermark,
        o.reframe ==> !video_kinds(o).contains(StageKind::Scale),
        o.watermark ==> stage_kinds(o)[stage_kinds(o).len() - 2] == StageKind::Watermark,
{
    let vk = video_kinds(o);
    if o.reframe && vk.contains(StageKind::Scale) {
        let i = choose|i: int| 0 <= i < vk.len() && vk[i] == StageKind::Scale;
        assert(false);
    }
    if o.watermark {
        let ks = stage_kinds(o);
        assert(ks[ks.len() - 2] == vk.last());
    }
}

/// The files still tracked once a stage that read `prev` has succeeded:
/// `prev` is released where it is an intermediate file.
pub open spec fn released(ts: Seq<Seq<char>>, out: Seq<char>, prev: Seq<char>) -> Seq<Seq<char>> {
    if prev != out {
        ts.filter(other_than(prev))
    } else {
        ts
    }
}

/// `x` where it is an intermediate file (not the final output `out`).
pub open spec fn intermediate(out: Seq<char>, x: Seq<char>) -> Seq<Seq<char>> {
    if x == out {
        Seq::empty()
    } else {
        seq![x]
    }
}

/// The files a guard tracks once stage `k` of a run writing `outs` in turn
/// has succeeded, each stage begun with [`begin_stage`] and, but the first
/// (trimming, which reads the input), ended with [`end_stage`].
pub open spec fn held_when_done(out: Seq<char>, outs: Seq<Seq<char>>, k: nat) -> Seq<Seq<char>>
    decreases k,
{
    if k == 0 {
        tracked_after(Seq::empty(), out, outs[0])
    } else {
        released(tracked_after(held_when_done(out, outs, (k - 1) as nat), out, outs[k as int]), out, outs[k - 1])
    }
}

/// The files a guard tracks while stage `k` runs, which are removed if it
/// fails.
pub open spec fn held_when_begun(out: Seq<char>, outs: Seq<Seq<char>>, k: nat) -> Seq<Seq<char>> {
    if k == 0 {
        tracked_after(Seq::empty(), out, outs[0])
    } else {
        tracked_after(held_when_done(out, outs, (k - 1) as nat), out, outs[k as int])
    }
}

/// The files the stages of a plan write, in order.
pub open spec fn plan_outputs(out: Seq<char>, o: PipelineOptions) -> Seq<Seq<char>> {
    stage_plan(out, o).map_values(|e: (StageKind, Seq<char>)| e.1)
}

/// No stage writes the file it reads, unless both are the final output.
pub open spec fn distinct_neighbours(out: Seq<char>, outs: Seq<Seq<char>>) -> bool {
    forall|i: int| 0 < i < outs.len() && #[trigger] outs[i] == outs[i - 1] ==> outs[i] == out
}

proof fn lemma_stage_step(out: Seq<char>, a: Seq<char>, b: Seq<char>)
    requires
        a == b ==> b == out,
    ensures
        tracked_after(intermediate(out, a), out, b) == intermediate(out, a) + intermediate(out, b),
        released(tracked_after(intermediate(out, a), out, b), out, a) == intermediate(out, b),
{
    reveal(Seq::filter);
    let prev = intermediate(out, a);
    let both = prev + intermediate(out, b);
    if a == out {
        assert(both =~= intermediate(out, b));
    } else if b == out {
        assert(both =~= seq![a]);
        assert(both.drop_last() =~= Seq::<Seq<char>>::empty());
        assert(both.filter(other_than(a)) =~= Seq::<Seq<char>>::empty());
    } else {
        assert(both =~= seq![a, b]);
        assert(both.drop_last() =~= seq![a]);
        assert(seq![a].drop_last() =~= Seq::<Seq<char>>::empty());
        assert(seq![a].filter(other_than(a)) =~= Seq::<Seq<char>>::empty());
        assert(both.filter(other_than(a)) =~= seq![b]);
    }
}

proof fn lemma_held(out: Seq<char>, outs: Seq<Seq<char>>, k: nat)
    requires
        k < outs.len(),
        distinct_neighbours(out, outs),
    ensures
        held_when_done(out, outs, k) == intermediate(out, outs[k as int]),
        held_when_begun(out, outs, k) == if k == 0 {
            intermediate(out, outs[0])
        } else {
            intermediate(out, outs[k - 1]) + intermediate(out, outs[k as int])
        },
    decreases k,
{
    if k == 0 {
        assert(tracked_after(Seq::empty(), out, outs[0]) =~= intermediate(out, outs[0]));
    } else {
        lemma_held(out, outs, (k - 1) as nat);
        assert(outs[k as int] == outs[k - 1] ==> outs[k as int] == out);
        lemma_stage_step(out, outs[k - 1], outs[k as int]);
    }
}

/// Cleaning up after a run, however it ends: while any stage of a plan
/// runs, the guard tracks exactly the intermediate files among the file the
/// stage reads (written by the stage before) and the file it writes, so a
/// failing stage leaves neither behind, and every earlier intermediate file
/// was released, to be removed, when the stage that read it succeeded. Once
/// the last stage has succeeded nothing is tracked: the final output alone
/// is left. This holds where no stage writes the file it reads (unless both
/// are the final output).
pub proof fn lemma_run_leaves_only_output(out: Seq<char>, o: PipelineOptions)
    requires
        distinct_neighbours(out, plan_outputs(out, o)),
    ensures
        ({
            let outs = plan_outputs(out, o);
            &&& forall|k: nat| k < outs.len() ==> #[trigger] held_when_begun(out, outs, k) == if k == 0 {
                intermediate(out, outs[0])
            } else {
                intermediate(out, outs[k - 1]) + intermediate(out, outs[k as int])
            }
            &&& forall|k: nat| k < outs.len() ==> #[trigger] held_when_done(out, outs, k) == intermediate(out, outs[k as int])
            &&& held_when_done(out, outs, (outs.len() - 1) as nat) == Seq::<Seq<char>>::empty()
        }),
{
    lemma_plan_ends_at_output(out, o);
    let outs = plan_outputs(out, o);
    assert(outs.len() == stage_plan(out, o).len());
    assert(outs.last() == stage_plan(out, o).last().1);
    assert forall|k: nat| k < outs.len() implies #[trigger] held_when_begun(out, outs, k) == if k == 0 {
        intermediate(out, outs[0])
    } else {
        intermediate(out, outs[k - 1]) + intermediate(out, outs[k as int])
    } by {
        lemma_held(out, outs, k);
    }
    assert forall|k: nat| k < outs.len() implies #[trigger] held_when_done(out, outs, k) == intermediate(out, outs[k as int]) by {
        lemma_held(out, outs, k);
    }
    lemma_held(out, outs, (outs.len() - 1) as nat);
}

proof fn lemma_kinds_concat(a: Seq<StageKind>, b: Seq<StageKind>, x: StageKind)
    ensures
        (a + b).contains(x) <==> a.contains(x) || b.contains(x),
{
    if a.contains(x) {
        let i = choose|i: int| 0 <= i < a.len() && a[i] == x;
        assert((a + b)[i] == x);
    }
    if b.contains(x) {
        let i = choose|i: int| 0 <= i < b.len() && b[i] == x;
        assert((a + b)[a.len() + i] == x);
    }
    if (a + b).contains(x) {
        let i = choose|i: int| 0 <= i < (a + b).len() && (a + b)[i] == x;
        if i < a.len() {
            assert(a[i] == x);
        } else {
            assert(b[i - a.len()] == x);
        }
    }
}

proof fn lemma_when_contains(c: bool, k: StageKind, x: StageKind)
    ensures
        (when(c, k)).contains(x) <==> c && k == x,
{
    if c {
        assert(when(c, k)[0] == k);
    }
}

/// Every option that is on gets its stage, and one that is off gets none,
/// whatever the other options are: trimming always runs; denoising,
/// loudness, music, intro/outro, stabilising, colour correction,
/// reframing, background blur and the watermark run exactly when asked
/// for; scaling runs exactly when a resize is asked for and the video is
/// not reframed.
pub proof fn lemma_each_option_gets_its_stage(o: PipelineOptions)
    ensures
        stage_kinds(o).contains(StageKind::Trim),
        stage_kinds(o).contains(StageKind::ReduceNoise) <==> o.noise_reduction,
        stage_kinds(o).contains(StageKind::EnhanceAudio) <==> o.enhance_audio,
        stage_kinds(o).contains(StageKind::MixMusic) <==> o.mix_music,
        stage_kinds(o).contains(StageKind::AddIntroOutro) <==> o.intro_outro,
        stage_kinds(o).contains(StageKind::Stabilize) <==> o.stabilize,
        stage_kinds(o).contains(StageKind::ColorCorrect) <==> o.color_correct,
        stage_kinds(o).contains(StageKind::Reframe) <==> o.reframe,
        stage_kinds(o).contains(StageKind::BlurBackground) <==> o.blur_background,
        stage_kinds(o).contains(StageKind::Scale) <==> (o.resize && !o.reframe),
        stage_kinds(o).contains(StageKind::Watermark) <==> o.watermark,
{
    assert forall|x: StageKind| #![auto] x != StageKind::MoveToOutput implies (stage_kinds(o).contains(x) <==> (
        x == StageKind::Trim
        || (x == StageKind::ReduceNoise && o.noise_reduction)
        || (x == StageKind::EnhanceAudio && o.enhance_audio)
        || (x == StageKind::MixMusic && o.mix_music)
        || (x == StageKind::AddIntroOutro && o.intro_outro)
        || (x == StageKind::Stabilize && o.stabilize)
        || (x == StageKind::ColorCorrect && o.color_correct)
        || (x == StageKind::Reframe && o.reframe)
        || (x == StageKind::BlurBackground && o.blur_background)
        || (x == StageKind::Scale && o.resize && !o.reframe)
        || (x == StageKind::Watermark && o.watermark)
    )) by {
        let a0 = seq![StageKind::Trim];
        let a1 = when(o.noise_reduction, StageKind::ReduceNoise);
        let a2 = when(o.enhance_audio, StageKind::EnhanceAudio);
        let a3 = when(o.mix_music, StageKind::MixMusic);
        assert(a0[0] == StageKind::Trim);
        assert(a0.contains(x) <==> x == StageKind::Trim) by {
            if a0.contains(x) {
                let i = choose|i: int| 0 <= i < a0.len() && a0[i] == x;
            }
        }
        lemma_when_contains(o.noise_reduction, StageKind::ReduceNoise, x);
        lemma_when_contains(o.enhance_audio, StageKind::EnhanceAudio, x);
        lemma_when_contains(o.mix_music, StageKind::MixMusic, x);
        lemma_kinds_concat(a0, a1, x);
        lemma_kinds_concat(a0 + a1, a2, x);
        lemma_kinds_concat(a0 + a1 + a2, a3, x);
        let j = join_kinds(o);
        assert(j.contains(x) <==> (x == StageKind::AddIntroOutro && o.intro_outro)) by {
            if j.contains(x) {
                let i = choose|i: int| 0 <= i < j.len() && j[i] == x;
            }
            if o.intro_outro {
                assert(j[0] == StageKind::AddIntroOutro);
            }
        }
        let v0 = when(o.stabilize, StageKind::Stabilize);
        let v1 = when(o.color_correct, StageKind::ColorCorrect);
        let v2 = when(o.reframe, StageKind::Reframe);
        let v3 = when(o.blur_background, StageKind::BlurBackground);
        let v4 = when(!o.reframe && o.resize, StageKind::Scale);
        let v5 = when(o.watermark, StageKind::Watermark);
        lemma_when_contains(o.stabilize, StageKind::Stabilize, x);
        lemma_when_contains(o.color_correct, StageKind::ColorCorrect, x);
        lemma_when_contains(o.reframe, StageKind::Reframe, x);
        lemma_when_contains(o.blur_background, StageKind::BlurBackground, x);
        lemma_when_contains(!o.reframe && o.resize, StageKind::Scale, x);
        lemma_when_contains(o.watermark, StageKind::Watermark, x);
        lemma_kinds_concat(v0, v1, x);
        lemma_kinds_concat(v0 + v1, v2, x);
        lemma_kinds_concat(v0 + v1 + v2, v3, x);
        lemma_kinds_concat(v0 + v1 + v2 + v3, v4, x);
        lemma_kinds_concat(v0 + v1 + v2 + v3 + v4, v5, x);
        let tail = when(video_kinds(o).len() > 0, StageKind::MoveToOutput);
        lemma_when_contains(video_kinds(o).len() > 0, StageKind::MoveToOutput, x);
        lemma_kinds_concat(audio_kinds(o), j, x);
        lemma_kinds_concat(audio_kinds(o) + j, video_kinds(o), x);
        lemma_kinds_concat(audio_kinds(o) + j + video_kinds(o), tail, x);
    }
    assert(StageKind::Trim != StageKind::MoveToOutput);
}

} // verus!
