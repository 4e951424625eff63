use ai_vid_editor::captions::{export_plan, needs_transcript, ExportFlags, ExportStep, ass_header, chapters_file, clip_pattern, clips_dir, caption_line, clip_path, export_paths, resolution_path};

#[test]
fn caption_lines_escape_text() {
    assert_eq!(
        caption_line("0:00:01.00", "0:00:02.50", "  Hello\\world\r\nagain "),
        Some("Dialogue: 0,0:00:01.00,0:00:02.50,Default,,0,0,0,,Hello\\\\world\\Nagain\n".to_string())
    );
}

#[test]
fn silent_segments_get_no_caption() {
    assert_eq!(caption_line("a", "b", "   "), None);
    assert_eq!(caption_line("a", "b", " [No speech detected] "), None);
}

#[test]
fn caption_header_sections() {
    let h = ass_header();
    assert!(h.starts_with("[Script Info]\n"));
    assert!(h.contains("[V4+ Styles]\n"));
    assert!(h.ends_with("Format: Layer, Start, End, Style, Name, MarginL, MarginR, MarginV, Effect, Text\n"));
}

#[test]
fn export_file_names() {
    let p = export_paths("/out/talk.mp4");
    assert_eq!(p.base, "/out/talk");
    assert_eq!(p.subtitles, "/out/talk.srt");
    assert_eq!(p.chapters, "/out/talk.chapters.txt");
    assert_eq!(p.captions, "/out/talk.ass");
    assert_eq!(p.captioned, "/out/talk.captioned.mp4");
    assert_eq!(p.fcpxml, "/out/talk.fcpxml");
    assert_eq!(p.edl, "/out/talk.edl");
    assert_eq!(p.thumbnail, "/out/talk.jpg");
    assert_eq!(p.clips_dir, "/out");
    assert_eq!(p.clip_pattern, "talk_clip");
    assert_eq!(clip_path(&p.clips_dir, &p.clip_pattern, 2), "/out/talk_clip_2.mp4");
}

#[test]
fn resolution_copies() {
    assert_eq!(resolution_path("/out/talk.mov", 720), "/out/talk_720p.mov");
    assert_eq!(resolution_path("/out/talk", 1080), "/out/talk_1080p.mp4");
}

#[test]
fn export_name_parts() {
    assert_eq!(chapters_file("/out/talk"), "/out/talk.chapters.txt");
    assert_eq!(clips_dir(Some("/out".to_string())), "/out");
    assert_eq!(clips_dir(None), ".");
    assert_eq!(clip_pattern(Some("talk".to_string())), "talk_clip");
    assert_eq!(clip_pattern(None), "_clip");
}

fn no_exports() -> ExportFlags {
    ExportFlags {
        subtitles: false,
        chapters: false,
        captions: false,
        clips: false,
        fcpxml: false,
        edl: false,
        thumbnail: false,
        multi_format: false,
        has_extra_resolutions: false,
        preview: false,
    }
}

#[test]
fn export_plan_falls_back_without_transcript() {
    let f = ExportFlags { subtitles: true, chapters: true, captions: true, clips: true, edl: true, ..no_exports() };
    assert!(needs_transcript(&f));
    assert!(!needs_transcript(&ExportFlags { fcpxml: true, ..no_exports() }));
    assert_eq!(
        export_plan(&f, true),
        vec![ExportStep::Subtitles, ExportStep::Chapters, ExportStep::Captions, ExportStep::Clips, ExportStep::Edl]
    );
    let plan = export_plan(&f, false);
    assert_eq!(plan, vec![ExportStep::SubtitlesPlaceholder, ExportStep::ChaptersPlaceholder, ExportStep::Edl]);
    assert_eq!(plan[0].placeholder(), Some("# Transcription failed\n"));
    assert_eq!(plan[1].placeholder(), Some("00:00 Intro\n"));
    assert_eq!(plan[2].placeholder(), None);
}

#[test]
fn export_plan_resolutions_need_a_list() {
    let f = ExportFlags { multi_format: true, thumbnail: true, preview: true, ..no_exports() };
    assert_eq!(export_plan(&f, false), vec![ExportStep::Thumbnail, ExportStep::Preview]);
    let g = ExportFlags { has_extra_resolutions: true, ..f };
    assert_eq!(
        export_plan(&g, false),
        vec![ExportStep::Thumbnail, ExportStep::ExtraResolutions, ExportStep::Preview]
    );
}
