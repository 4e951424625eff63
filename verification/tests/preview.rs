use ai_vid_editor::preview::{preview_name, preview_path};
use std::path::{Path, PathBuf};

#[test]
fn test_preview_path_adds_preview_suffix() {
    let output = "/a/b/c/video.mp4";
    let preview = preview_path(output);
    assert!(preview.contains("_preview"));
}

#[test]
fn test_preview_path_preserves_extension() {
    let output = "video.avi";
    let preview = preview_path(output);
    assert_eq!(Path::new(&preview).extension().unwrap(), "avi");
}

#[test]
fn test_preview_path_webm_preserved() {
    let output = "video.webm";
    let preview = preview_path(output);
    assert_eq!(Path::new(&preview).extension().unwrap(), "webm");
}

#[test]
fn test_preview_path_mkv_preserved() {
    let output = "video.mkv";
    let preview = preview_path(output);
    assert_eq!(Path::new(&preview).extension().unwrap(), "mkv");
}

#[test]
fn test_preview_path() {
    let preview = preview_path("/tmp/video.mp4");
    assert_eq!(PathBuf::from(preview), PathBuf::from("/tmp/video_preview.mp4"));
}

#[test]
fn test_preview_path_different_extensions() {
    assert_eq!(
        PathBuf::from(preview_path("/tmp/video.mov")),
        PathBuf::from("/tmp/video_preview.mov")
    );
    assert_eq!(
        PathBuf::from(preview_path("/tmp/video.avi")),
        PathBuf::from("/tmp/video_preview.avi")
    );
    assert_eq!(
        PathBuf::from(preview_path("/tmp/video.mkv")),
        PathBuf::from("/tmp/video_preview.mkv")
    );
}

#[test]
fn test_preview_path_nested() {
    let preview = preview_path("/home/user/videos/project/video.mp4");
    assert_eq!(
        PathBuf::from(preview),
        PathBuf::from("/home/user/videos/project/video_preview.mp4")
    );
}

#[test]
fn preview_path_without_extension() {
    assert_eq!(preview_path("/tmp/video"), "/tmp/video_preview.");
}

#[test]
fn preview_name_from_stem_and_extension() {
    assert_eq!(preview_name(Some("talk".to_string()), Some("mkv".to_string())), "talk_preview.mkv");
    assert_eq!(preview_name(None, Some("mp4".to_string())), "_preview.mp4");
    assert_eq!(preview_name(Some("talk".to_string()), None), "talk_preview.");
}
