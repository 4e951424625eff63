use ai_vid_editor::config::JoinMode;
use ai_vid_editor::ui::{
    is_default_path, is_default_setup_path, join_mode_display, yes_no, ModalState,
    SettingsCategory, Toast, ToastKind,
};

#[test]
fn settings_category_labels_and_icons() {
    assert_eq!(SettingsCategory::default(), SettingsCategory::Processing);
    assert_eq!(SettingsCategory::Processing.label(), "Processing");
    assert_eq!(SettingsCategory::Audio.label(), "Audio");
    assert_eq!(SettingsCategory::Video.label(), "Video");
    assert_eq!(SettingsCategory::Exports.label(), "Exports");
    assert_eq!(SettingsCategory::Advanced.label(), "Advanced");
    assert_eq!(SettingsCategory::Advanced.icon(), "\u{2699}");
}

#[test]
fn toast_expires_after_five_seconds() {
    let t = Toast::new("saved".to_string(), ToastKind::Success, 100);
    assert!(!t.expired(100));
    assert!(!t.expired(105));
    assert!(t.expired(106));
    assert!(!t.expired(50));
    assert_eq!(t.icon(), "\u{2713}");
    assert_eq!(Toast::new(String::new(), ToastKind::Error, 0).icon(), "\u{2717}");
}

#[test]
fn modal_add_then_close() {
    let mut m = ModalState::default();
    assert!(!m.show);
    m.reset_for_add();
    assert!(m.show);
    assert_eq!(m.editing_idx, None);
    assert_eq!(m.input, "videos/youtube");
    assert_eq!(m.output, "videos/youtube/output");
    assert_eq!(m.preset, "youtube");
    assert!(m.enabled);
    m.prompt_delete(2);
    assert_eq!(m.delete_confirm_idx, Some(2));
    m.close();
    assert!(!m.show);
    assert_eq!(m.delete_confirm_idx, None);
}

#[test]
fn modal_edit_fills_fields() {
    let mut m = ModalState::default();
    m.set_for_edit(3, "in", "out", "podcast", false);
    assert!(m.show);
    assert_eq!(m.editing_idx, Some(3));
    assert_eq!(m.input, "in");
    assert_eq!(m.output, "out");
    assert_eq!(m.preset, "podcast");
    assert!(!m.enabled);
}

#[test]
fn join_mode_and_switch_labels() {
    assert_eq!(join_mode_display(&JoinMode::Off), "Off");
    assert_eq!(join_mode_display(&JoinMode::ByDate), "By Date");
    assert_eq!(join_mode_display(&JoinMode::ByName), "By Name");
    assert_eq!(join_mode_display(&JoinMode::AfterCount), "After N Files");
    assert_eq!(yes_no(Some(true)), "On");
    assert_eq!(yes_no(Some(false)), "Off");
    assert_eq!(yes_no(None), "\u{2014}");
}

#[test]
fn default_paths_follow_the_preset() {
    assert!(is_default_path("videos/youtube", "youtube"));
    assert!(is_default_path("videos/youtube/output", "youtube"));
    assert!(is_default_path("videos", "shorts"));
    assert!(is_default_path("videos/output", "shorts"));
    assert!(!is_default_path("videos/youtube", "shorts"));
    assert!(!is_default_path("/home/me/clips", "youtube"));
}

#[test]
fn default_setup_paths() {
    assert!(is_default_setup_path("/home/me/Videos", "youtube"));
    assert!(is_default_setup_path("/home/me/podcast", "podcast"));
    assert!(is_default_setup_path("videos/shorts", "shorts"));
    assert!(!is_default_setup_path("/home/me/clips", "youtube"));
}

use ai_vid_editor::config::SilenceMode;
use ai_vid_editor::ui::{add_toast, keep_newest, remember_output, silence_mode_name, MAX_TOASTS};

#[test]
fn settings_navigation_wraps() {
    assert_eq!(SettingsCategory::Processing.navigate(1), SettingsCategory::Audio);
    assert_eq!(SettingsCategory::Processing.navigate(-1), SettingsCategory::Advanced);
    assert_eq!(SettingsCategory::Advanced.navigate(1), SettingsCategory::Processing);
    assert_eq!(SettingsCategory::Video.navigate(5), SettingsCategory::Video);
    assert_eq!(SettingsCategory::Exports.navigate(-128), SettingsCategory::Processing);
}

#[test]
fn toasts_are_bounded() {
    let mut v = Vec::new();
    for i in 0..12u64 {
        add_toast(&mut v, Toast::new(format!("t{}", i), ToastKind::Info, i));
    }
    assert_eq!(v.len(), MAX_TOASTS);
    assert_eq!(v[0].message, "t2");
    assert_eq!(v[9].message, "t11");
}

#[test]
fn recent_outputs_newest_first() {
    let mut r: Vec<String> = Vec::new();
    for i in 0..11 {
        remember_output(&mut r, format!("/o/{}.mp4", i));
    }
    assert_eq!(r.len(), 10);
    assert_eq!(r[0], "/o/10.mp4");
    assert_eq!(r[9], "/o/1.mp4");
}

#[test]
fn activity_log_keeps_newest() {
    let mut log: Vec<u32> = (0..8).collect();
    keep_newest(&mut log, 5);
    assert_eq!(log, vec![3, 4, 5, 6, 7]);
    keep_newest(&mut log, 10);
    assert_eq!(log, vec![3, 4, 5, 6, 7]);
}

#[test]
fn silence_mode_labels() {
    assert_eq!(silence_mode_name(SilenceMode::Cut), "Cut");
    assert_eq!(silence_mode_name(SilenceMode::Speedup), "Speed Up");
}
