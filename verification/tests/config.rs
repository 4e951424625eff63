use ai_vid_editor::config::{
    default_clip_count, default_filler_words, default_join_after_count, default_join_pattern,
    default_preset, default_thumbnail_height, default_thumbnail_width, default_true,
    default_watch_interval, default_watermark_position, JoinMode, Preset, ProcessingConfig,
    SilenceMode, VideoResolution, WatchConfig,
};

#[test]
fn test_preset_from_str() {
    assert_eq!(Preset::parse_name("youtube"), Some(Preset::Youtube));
    assert_eq!(Preset::parse_name("SHORTS"), Some(Preset::Shorts));
    assert_eq!(Preset::parse_name("tiktok"), Some(Preset::Tiktok));
    assert_eq!(Preset::parse_name("reels"), Some(Preset::Reels));
    assert_eq!(Preset::parse_name("podcast"), Some(Preset::Podcast));
    assert_eq!(Preset::parse_name("twitter"), Some(Preset::Twitter));
    assert_eq!(Preset::parse_name("minimal"), Some(Preset::Minimal));
    assert_eq!(Preset::parse_name("invalid"), None);
}

#[test]
fn preset_aliases() {
    assert_eq!(Preset::parse_name("ytshorts"), Some(Preset::Shorts));
    assert_eq!(Preset::parse_name("Instagram"), Some(Preset::Reels));
    assert_eq!(Preset::parse_name("X"), Some(Preset::Twitter));
    assert_eq!(Preset::parse_name(" youtube"), None);
}

#[test]
fn preset_name_roundtrip() {
    for p in [
        Preset::Youtube,
        Preset::Shorts,
        Preset::Tiktok,
        Preset::Reels,
        Preset::Podcast,
        Preset::Twitter,
        Preset::Minimal,
    ] {
        assert_eq!(Preset::parse_name(p.as_str()), Some(p));
    }
}

#[test]
fn resolution_dimensions_and_scale() {
    assert_eq!(VideoResolution::Hd720p.dimensions(), (1280, 720));
    assert_eq!(VideoResolution::Uhd4k.dimensions(), (3840, 2160));
    assert_eq!(VideoResolution::Vertical1080p.dimensions(), (1080, 1920));
    assert_eq!(VideoResolution::Fhd1080p.to_ffmpeg_scale(), "1920:1080");
    assert_eq!(VideoResolution::Vertical720p.to_ffmpeg_scale(), "720:1280");
    assert_eq!(VideoResolution::Qhd1440p.display_name(), "1440p QHD");
    assert_eq!(VideoResolution::default(), VideoResolution::Fhd1080p);
}

#[test]
fn vertical_resolutions_are_taller_than_wide() {
    for r in [
        VideoResolution::Hd720p,
        VideoResolution::Fhd1080p,
        VideoResolution::Qhd1440p,
        VideoResolution::Uhd4k,
        VideoResolution::Vertical1080p,
        VideoResolution::Vertical720p,
    ] {
        let (w, h) = r.dimensions();
        let vertical = matches!(
            r,
            VideoResolution::Vertical1080p | VideoResolution::Vertical720p
        );
        assert_eq!(w < h, vertical);
    }
}

#[test]
fn defaults() {
    assert_eq!(SilenceMode::default(), SilenceMode::Cut);
    assert_eq!(JoinMode::default(), JoinMode::Off);
    let p = ProcessingConfig::default();
    assert_eq!(p.join_mode, JoinMode::Off);
    assert_eq!(p.join_after_count, 5);
    assert_eq!(p.join_output_pattern, "joined_{date}.mp4");
    let w = WatchConfig::default();
    assert!(!w.enabled);
    assert_eq!(w.interval, 5);
    assert_eq!(default_watermark_position(), "bottom-right");
    assert!(default_true());
    assert_eq!(default_filler_words(), vec!["um", "uh", "ah", "er"]);
    assert_eq!(default_thumbnail_width(), 1280);
    assert_eq!(default_thumbnail_height(), 720);
    assert_eq!(default_clip_count(), 3);
    assert_eq!(default_preset(), "youtube");
    assert_eq!(default_watch_interval(), 5);
    assert_eq!(default_join_after_count(), 5);
    assert_eq!(default_join_pattern(), "joined_{date}.mp4");
}

use ai_vid_editor::config::{available_preset_names, preset_file_path, preset_name_of_file};
use ai_vid_editor::text::sort_strings;

#[test]
fn preset_names_fall_back_to_builtins() {
    let builtins = vec!["youtube", "shorts", "podcast", "minimal"];
    assert_eq!(available_preset_names(None), builtins);
    assert_eq!(available_preset_names(Some(vec![])), builtins);
}

#[test]
fn preset_names_are_sorted() {
    let found = vec!["zeta".to_string(), "alpha".to_string(), "Beta".to_string(), "alpha".to_string()];
    assert_eq!(available_preset_names(Some(found)), vec!["Beta", "alpha", "alpha", "zeta"]);
}

#[test]
fn preset_files() {
    assert_eq!(preset_file_path("shorts"), "presets/shorts.toml");
    assert_eq!(preset_name_of_file("presets/my.toml"), Some("my".to_string()));
    assert_eq!(preset_name_of_file("presets/readme.md"), None);
    assert_eq!(preset_name_of_file("presets/noext"), None);
}

#[test]
fn sorting_matches_str_order() {
    let v: Vec<String> = vec!["b", "ab", "a", "é", "z", "", "aa"].into_iter().map(String::from).collect();
    let mut expected = v.clone();
    expected.sort();
    assert_eq!(sort_strings(v), expected);
}
