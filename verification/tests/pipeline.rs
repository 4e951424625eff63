use ai_vid_editor::batch::TempFileGuard;
use ai_vid_editor::pipeline::{
    begin_stage, end_stage, plan_stages, reads_intermediate, stage_kind_list, stage_output_path, PipelineOptions, StageKind,
};

fn none() -> PipelineOptions {
    PipelineOptions {
        noise_reduction: false,
        enhance_audio: false,
        mix_music: false,
        intro_outro: false,
        stabilize: false,
        color_correct: false,
        reframe: false,
        blur_background: false,
        resize: false,
        watermark: false,
    }
}

fn kinds(o: &PipelineOptions) -> Vec<StageKind> {
    stage_kind_list(o)
}

#[test]
fn plan_with_no_options_trims_into_output() {
    let plan = plan_stages("/out/v.mp4", &none());
    assert_eq!(plan.len(), 1);
    assert_eq!(plan[0].kind, StageKind::Trim);
    assert_eq!(plan[0].output, "/out/v.mp4");
}

#[test]
fn plan_with_enhance_uses_intermediate_files() {
    let mut o = none();
    o.enhance_audio = true;
    let plan = plan_stages("/out/v.mp4", &o);
    let got: Vec<(StageKind, String)> = plan.iter().map(|s| (s.kind, s.output.clone())).collect();
    assert_eq!(
        got,
        vec![
            (StageKind::Trim, "/out/v.trimmed.mp4".to_string()),
            (StageKind::EnhanceAudio, "/out/v.enhanced.mp4".to_string()),
            (StageKind::MoveToOutput, "/out/v.mp4".to_string()),
        ]
    );
}

#[test]
fn plan_noise_reduction_alone_trims_into_output_first() {
    let mut o = none();
    o.noise_reduction = true;
    let plan = plan_stages("/out/v.mp4", &o);
    assert_eq!(plan[0].output, "/out/v.mp4");
    assert_eq!(plan[1].kind, StageKind::ReduceNoise);
    assert_eq!(plan[1].output, "/out/v.denoised.mp4");
    assert_eq!(plan[2].kind, StageKind::MoveToOutput);
}

#[test]
fn plan_everything_in_order() {
    let o = PipelineOptions {
        noise_reduction: true,
        enhance_audio: true,
        mix_music: true,
        intro_outro: true,
        stabilize: true,
        color_correct: true,
        reframe: false,
        blur_background: true,
        resize: true,
        watermark: true,
    };
    assert_eq!(
        kinds(&o),
        vec![
            StageKind::Trim,
            StageKind::ReduceNoise,
            StageKind::EnhanceAudio,
            StageKind::MixMusic,
            StageKind::AddIntroOutro,
            StageKind::Stabilize,
            StageKind::ColorCorrect,
            StageKind::BlurBackground,
            StageKind::Scale,
            StageKind::Watermark,
            StageKind::MoveToOutput,
        ]
    );
    let plan = plan_stages("clip.mov", &o);
    assert_eq!(plan[4].output, "clip.mov");
    assert_eq!(plan[9].output, "clip.watermarked.mp4");
    assert_eq!(plan.last().unwrap().output, "clip.mov");
}

#[test]
fn reframed_video_is_not_scaled() {
    let mut o = none();
    o.reframe = true;
    o.resize = true;
    assert_eq!(kinds(&o), vec![StageKind::Trim, StageKind::Reframe, StageKind::MoveToOutput]);
}

#[test]
fn stage_labels_and_progress() {
    assert_eq!(StageKind::Trim.label(), Some("Trimming video"));
    assert_eq!(StageKind::MoveToOutput.label(), None);
    assert_eq!(StageKind::Watermark.label(), Some("Adding watermark"));
    assert_eq!(StageKind::Trim.progress_permille(), 150);
    assert_eq!(StageKind::Scale.progress_permille(), 960);
    assert_eq!(stage_output_path(StageKind::Stabilize, "a/b.mp4", &none()), "a/b.stabilized.mp4");
}

#[test]
fn stages_track_before_and_release_after() {
    let mut g = TempFileGuard::new("/o/v.mp4".to_string());
    // trimming writes an intermediate file, tracked before it runs
    begin_stage(&mut g, "/o/v.trimmed.mp4".to_string());
    assert_eq!(g.temps(), &vec!["/o/v.trimmed.mp4".to_string()]);
    // while enhancing runs, both its input and its partial output are tracked
    begin_stage(&mut g, "/o/v.enhanced.mp4".to_string());
    assert_eq!(g.temps(), &vec!["/o/v.trimmed.mp4".to_string(), "/o/v.enhanced.mp4".to_string()]);
    // once it succeeded its input is released, for the caller to remove
    assert!(end_stage(&mut g, "/o/v.trimmed.mp4"));
    assert_eq!(g.temps(), &vec!["/o/v.enhanced.mp4".to_string()]);
    // moved to the output: nothing left to clean up
    begin_stage(&mut g, "/o/v.mp4".to_string());
    assert!(reads_intermediate(&g, "/o/v.enhanced.mp4"));
    assert!(end_stage(&mut g, "/o/v.enhanced.mp4"));
    assert!(g.temps().is_empty());
    // a stage that read the output itself keeps it
    begin_stage(&mut g, "/o/v.stabilized.mp4".to_string());
    assert!(!reads_intermediate(&g, "/o/v.mp4"));
    assert!(!end_stage(&mut g, "/o/v.mp4"));
    assert_eq!(g.temps(), &vec!["/o/v.stabilized.mp4".to_string()]);
}
