use ai_vid_editor::config::Preset;
use ai_vid_editor::preset_rules::{default_preset_rules, preset_for_file, preset_for_name, PresetRule};

#[test]
fn test_preset_for_file_matching() {
    let rules = vec![
        PresetRule::new("short", Preset::Shorts),
        PresetRule::new("podcast", Preset::Podcast),
    ];

    assert_eq!(
        preset_for_file("my_short_video.mp4", &rules, Preset::Youtube),
        Preset::Shorts
    );
    assert_eq!(
        preset_for_file("podcast_episode_1.mp4", &rules, Preset::Youtube),
        Preset::Podcast
    );
    assert_eq!(
        preset_for_file("regular_video.mp4", &rules, Preset::Youtube),
        Preset::Youtube
    );
}

#[test]
fn test_preset_for_file_case_insensitive() {
    let rules = vec![PresetRule::new("SHORT", Preset::Shorts)];

    assert_eq!(
        preset_for_file("My_Short_Video.mp4", &rules, Preset::Youtube),
        Preset::Shorts
    );
}

#[test]
fn test_preset_for_file_first_match_wins() {
    let rules = vec![
        PresetRule::new("short", Preset::Shorts),
        PresetRule::new("shorts", Preset::Tiktok), // never matches: "short" matches first
    ];

    assert_eq!(
        preset_for_file("shorts_video.mp4", &rules, Preset::Youtube),
        Preset::Shorts
    );
}

#[test]
fn test_default_preset_rules() {
    let rules = default_preset_rules();
    assert!(!rules.is_empty());

    assert_eq!(
        preset_for_file("tiktok_dance.mp4", &rules, Preset::Youtube),
        Preset::Tiktok
    );
}

#[test]
fn test_preset_for_file_all_default_rules() {
    let rules = default_preset_rules();

    assert_eq!(
        preset_for_file("video_short.mp4", &rules, Preset::Youtube),
        Preset::Shorts
    );
    assert_eq!(
        preset_for_file("my_tiktok.mp4", &rules, Preset::Youtube),
        Preset::Tiktok
    );
    assert_eq!(
        preset_for_file("insta_reel.mp4", &rules, Preset::Youtube),
        Preset::Reels
    );
    assert_eq!(
        preset_for_file("podcast_audio.mp4", &rules, Preset::Youtube),
        Preset::Podcast
    );
    assert_eq!(
        preset_for_file("twitter_video.mp4", &rules, Preset::Youtube),
        Preset::Twitter
    );
    assert_eq!(
        preset_for_file("x_video.mp4", &rules, Preset::Youtube),
        Preset::Twitter
    );
}

#[test]
fn test_preset_for_file_empty_rules() {
    assert_eq!(
        preset_for_file("anything.mp4", &[], Preset::Minimal),
        Preset::Minimal
    );
}

#[test]
fn test_preset_for_file_path_without_stem() {
    let rules = vec![PresetRule::new("test", Preset::Shorts)];
    assert_eq!(preset_for_file("/", &rules, Preset::Youtube), Preset::Youtube);
}

#[test]
fn test_preset_for_file_no_extension() {
    let rules = vec![PresetRule::new("short", Preset::Shorts)];
    assert_eq!(
        preset_for_file("my_short_video", &rules, Preset::Youtube),
        Preset::Shorts
    );
}

#[test]
fn test_preset_rule_exact_match() {
    let rule = PresetRule::new("podcast", Preset::Podcast);
    let rules = vec![rule];

    assert_eq!(
        preset_for_file("my_podcast.mp3", &rules, Preset::Minimal),
        Preset::Podcast
    );
}

#[test]
fn test_preset_for_file_substring_match() {
    let rules = vec![PresetRule::new("short", Preset::Shorts)];
    assert_eq!(
        preset_for_file("my_short_video.mp4", &rules, Preset::Minimal),
        Preset::Shorts
    );
}

#[test]
fn test_preset_for_file_no_match_returns_default() {
    let rules = vec![PresetRule::new("podcast", Preset::Podcast)];
    assert_eq!(
        preset_for_file("random_video.mp4", &rules, Preset::Minimal),
        Preset::Minimal
    );
}

#[test]
fn test_preset_for_file_empty_rules_returns_default() {
    let rules: Vec<PresetRule> = vec![];
    assert_eq!(
        preset_for_file("anything.mp4", &rules, Preset::Youtube),
        Preset::Youtube
    );
}

#[test]
fn test_preset_rule_preserves_priority() {
    let rules = vec![
        PresetRule::new("interview", Preset::Podcast),
        PresetRule::new("interview", Preset::Shorts),
    ];
    assert_eq!(
        preset_for_file("my_interview.mp4", &rules, Preset::Minimal),
        Preset::Podcast
    );
}

#[test]
fn test_preset_for_file_with_path() {
    let rules = vec![PresetRule::new("vlog", Preset::Minimal)];
    assert_eq!(
        preset_for_file("/home/user/videos/my_vlog.mp4", &rules, Preset::Minimal),
        Preset::Minimal
    );
}

#[test]
fn test_preset_for_file_multiple_patterns() {
    let rules = vec![
        PresetRule::new("podcast", Preset::Podcast),
        PresetRule::new("interview", Preset::Youtube),
        PresetRule::new("shorts", Preset::Shorts),
    ];
    assert_eq!(
        preset_for_file("podcast_001.mp4", &rules, Preset::Minimal),
        Preset::Podcast
    );
    assert_eq!(
        preset_for_file("interview_001.mp4", &rules, Preset::Minimal),
        Preset::Youtube
    );
    assert_eq!(
        preset_for_file("shorts_001.mp4", &rules, Preset::Minimal),
        Preset::Shorts
    );
}

#[test]
fn test_preset_for_file_no_match_fallback() {
    let rules = vec![PresetRule::new("podcast", Preset::Podcast)];
    let result = preset_for_file("random_video.mp4", &rules, Preset::Minimal);
    assert_eq!(result, Preset::Minimal);
}

#[test]
fn test_preset_for_file_empty_rules_fallback() {
    let rules: Vec<PresetRule> = vec![];
    let result = preset_for_file("any_video.mp4", &rules, Preset::Twitter);
    assert_eq!(result, Preset::Twitter);
}

#[test]
fn test_preset_rule_new() {
    let rule = PresetRule::new("test", Preset::Podcast);
    assert_eq!(rule.pattern, "test");
    assert!(matches!(rule.preset, Preset::Podcast));
}

// ── Further cases ───────────────────────────────────────────────────────

#[test]
fn matching_ignores_directories_and_extension() {
    let rules = vec![PresetRule::new("podcast", Preset::Podcast)];
    // "podcast" only in the directory name, not in the stem
    assert_eq!(
        preset_for_file("/podcast/episode.mp4", &rules, Preset::Minimal),
        Preset::Minimal
    );
    // ... or only in the extension
    assert_eq!(
        preset_for_file("episode.podcast", &rules, Preset::Minimal),
        Preset::Minimal
    );
}

#[test]
fn rule_patterns_are_lowercased() {
    let rule = PresetRule::new("TikTok", Preset::Tiktok);
    assert_eq!(rule.pattern, "tiktok");
}

#[test]
fn name_matching_is_case_sensitive_on_given_name() {
    let rules = vec![PresetRule::new("reel", Preset::Reels)];
    assert_eq!(preset_for_name("my_reel", &rules, Preset::Minimal), Preset::Reels);
    assert_eq!(preset_for_name("MY_REEL", &rules, Preset::Minimal), Preset::Minimal);
}

#[test]
fn default_rules_patterns() {
    let rules = default_preset_rules();
    let patterns: Vec<&str> = rules.iter().map(|r| r.pattern.as_str()).collect();
    assert_eq!(patterns, vec!["short", "tiktok", "reel", "podcast", "twitter", "x_"]);
}
