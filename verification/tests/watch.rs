use ai_vid_editor::watch::{
    batch_complete_message, queue_file_label, queue_output_file, AttemptedFiles, WatchAction,
    MAX_ATTEMPTED,
};

#[test]
fn watcher_processes_a_new_video_once() {
    let mut a = AttemptedFiles::new();
    assert_eq!(a.on_file_found("/in/a.mp4", true, true, false), WatchAction::Process);
    a.record("/in/a.mp4".to_string());
    assert!(a.contains("/in/a.mp4"));
    assert_eq!(a.on_file_found("/in/a.mp4", true, true, false), WatchAction::Skip);
}

#[test]
fn watcher_skips_non_videos_and_nameless_files() {
    let mut a = AttemptedFiles::new();
    assert_eq!(a.on_file_found("/in/notes.txt", false, true, false), WatchAction::Skip);
    assert_eq!(a.on_file_found("/in/..", true, false, false), WatchAction::Skip);
    assert_eq!(a.len(), 0);
}

#[test]
fn watcher_remembers_files_whose_output_exists() {
    let mut a = AttemptedFiles::new();
    assert_eq!(a.on_file_found("/in/b.mp4", true, true, true), WatchAction::AlreadyDone);
    assert!(a.contains("/in/b.mp4"));
    assert_eq!(a.on_file_found("/in/b.mp4", true, true, true), WatchAction::Skip);
}

#[test]
fn watcher_forgets_the_oldest_beyond_the_bound() {
    let mut a = AttemptedFiles::new();
    for i in 0..(MAX_ATTEMPTED + 1) {
        a.record(format!("/in/{}.mp4", i));
    }
    assert_eq!(a.len(), MAX_ATTEMPTED);
    assert!(!a.contains("/in/0.mp4"));
    assert!(a.contains("/in/1.mp4"));
    assert!(a.contains(&format!("/in/{}.mp4", MAX_ATTEMPTED)));
}

#[test]
fn queue_names() {
    assert_eq!(queue_file_label("/videos/talk.mov"), "talk.mov");
    assert_eq!(queue_file_label("/"), "unknown");
    assert_eq!(queue_output_file("/videos/talk.mov", "/out"), "/out/talk.mov");
    assert_eq!(queue_output_file("/videos/talk", "/out"), "/out/talk.mp4");
}

#[test]
fn queue_completion_messages() {
    assert_eq!(batch_complete_message(1, 0), "Processed 1 file successfully");
    assert_eq!(batch_complete_message(3, 0), "Processed 3 files successfully");
    assert_eq!(batch_complete_message(2, 1), "Processed 3 files (1 failed)");
    assert_eq!(batch_complete_message(0, 1), "Processed 1 file (1 failed)");
}

use ai_vid_editor::watch::{failed_notification, ready_notification};

#[test]
fn watcher_notifications() {
    assert_eq!(
        ready_notification("talk.mp4"),
        ("Processing Complete".to_string(), "talk.mp4 is ready".to_string())
    );
    assert_eq!(
        failed_notification("talk.mp4", "boom"),
        ("Processing Failed".to_string(), "talk.mp4: boom".to_string())
    );
}
