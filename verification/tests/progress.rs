use ai_vid_editor::progress::BatchProgress;

#[test]
fn test_batch_progress_empty_completed() {
    let mut progress = BatchProgress::default();
    progress.total = 5;
    // No completed files
    assert_eq!(progress.completed.len(), 0);
}

#[test]
fn test_batch_progress_none_completed() {
    let mut progress = BatchProgress::default();
    progress.total = 3;
    // No completed files
    assert!(progress.completed.is_empty());
    assert!(progress.failed.is_empty());
}

#[test]
fn test_progress_tracking() {
    let mut progress = BatchProgress {
        total: 5,
        ..Default::default()
    };

    let file1 = "/tmp/video1.mp4";
    let file2 = "/tmp/video2.mp4";

    assert!(!progress.is_completed(file1, Some(100)));
    progress.mark_completed(file1, 100);
    assert!(progress.is_completed(file1, Some(100)));

    progress.mark_failed(file2);
    assert_eq!(progress.remaining(), 3);
}

#[test]
fn test_progress_remaining_calculation() {
    let mut progress = BatchProgress {
        total: 10,
        ..Default::default()
    };

    assert_eq!(progress.remaining(), 10);

    progress.mark_completed("/tmp/v1.mp4", 0);
    assert_eq!(progress.remaining(), 9);

    progress.mark_failed("/tmp/v2.mp4");
    assert_eq!(progress.remaining(), 8);

    // Saturating at 0 when total is exceeded
    progress.total = 3;
    progress.mark_completed("/tmp/a.mp4", 0);
    progress.mark_completed("/tmp/b.mp4", 0);
    progress.mark_completed("/tmp/c.mp4", 0);
    progress.mark_completed("/tmp/d.mp4", 0);
    assert_eq!(progress.remaining(), 0);
}

#[test]
fn test_progress_default_path() {
    let path = BatchProgress::default_path("/tmp", "/videos/holiday");
    assert!(path.contains("ai-vid-editor-progress"));
    assert!(path.contains("holiday"));
    assert_eq!(path, "/tmp/ai-vid-editor-progress-holiday.json");
}

#[test]
fn test_progress_default_path_fallback() {
    let path = BatchProgress::default_path("/tmp", "/");
    assert!(path.contains("default"));
    assert_eq!(path, "/tmp/ai-vid-editor-progress-default.json");
}

#[test]
fn test_progress_zero_total() {
    let mut progress = BatchProgress {
        total: 0,
        ..Default::default()
    };
    assert_eq!(progress.remaining(), 0);
    progress.mark_completed("/tmp/v.mp4", 0);
    assert_eq!(progress.remaining(), 0);
}

#[test]
fn test_progress_failed_vs_completed_separate() {
    let mut progress = BatchProgress {
        total: 5,
        ..Default::default()
    };
    let file = "/tmp/test.mp4";

    progress.mark_failed(file);
    assert!(
        !progress.is_completed(file, Some(0)),
        "Failed files are not completed"
    );
    assert_eq!(
        progress.remaining(),
        4,
        "Failed files no longer count toward remaining"
    );
}

#[test]
fn test_batch_progress_completed_count() {
    let mut progress = BatchProgress::default();
    progress.total = 5;
    progress.mark_completed("/a.mp4", 123);
    progress.mark_completed("/b.mp4", 124);

    assert_eq!(progress.completed.len(), 2);
    assert_eq!(progress.total - progress.completed.len(), 3);
}

#[test]
fn test_batch_progress_failed_count() {
    let mut progress = BatchProgress::default();
    progress.total = 5;
    progress.mark_failed("/a.mp4");

    assert_eq!(progress.failed.len(), 1);
}

#[test]
fn test_batch_progress_remaining_count() {
    let mut progress = BatchProgress::default();
    progress.total = 10;
    progress.mark_completed("/a.mp4", 123);
    progress.mark_completed("/b.mp4", 124);
    progress.mark_failed("/c.mp4");

    let remaining = progress.total - progress.completed.len();
    assert_eq!(remaining, 8);
}

#[test]
fn test_batch_progress_full_completion() {
    let mut progress = BatchProgress::default();
    progress.total = 3;
    progress.mark_completed("/a.mp4", 100);
    progress.mark_completed("/b.mp4", 200);
    progress.mark_completed("/c.mp4", 300);
    assert_eq!(progress.completed.len(), progress.total);
}

#[test]
fn test_batch_progress_mixed_results() {
    let mut progress = BatchProgress::default();
    progress.total = 10;
    progress.mark_completed("/a.mp4", 100);
    progress.mark_failed("/b.mp4");
    assert!(progress.completed.len() < progress.total);
    assert!(progress.failed.len() > 0);
}

#[test]
fn test_batch_progress_all_failed() {
    let mut progress = BatchProgress::default();
    progress.total = 5;
    progress.mark_failed("/a.mp4");
    progress.mark_failed("/b.mp4");
    assert!(progress.completed.is_empty());
    assert_eq!(progress.failed.len(), 2);
}

#[test]
fn test_batch_progress_one_of_many() {
    let mut progress = BatchProgress::default();
    progress.total = 100;
    progress.mark_completed("/single.mp4", 50);
    assert_eq!(progress.completed.len(), 1);
    assert_eq!(progress.failed.len(), 0);
}

#[test]
fn test_batch_progress_large_batch() {
    let mut progress = BatchProgress::default();
    progress.total = 1000;
    for i in 0..100u64 {
        progress.mark_completed(&format!("/{}.mp4", i), i * 10);
    }
    assert_eq!(progress.completed.len(), 100);
}

// ── Further cases ───────────────────────────────────────────────────────

#[test]
fn mtime_tolerance_is_five_seconds() {
    let mut progress = BatchProgress::default();
    progress.mark_completed("/v.mp4", 1000);
    assert!(progress.is_completed("/v.mp4", Some(1005)));
    assert!(progress.is_completed("/v.mp4", Some(995)));
    assert!(!progress.is_completed("/v.mp4", Some(1006)));
    assert!(!progress.is_completed("/v.mp4", Some(994)));
    // modification time unknown: assume the same file
    assert!(progress.is_completed("/v.mp4", None));
    // never recorded
    assert!(!progress.is_completed("/w.mp4", None));
}

#[test]
fn unchanged_file_stays_done_however_late() {
    // the recorded modification time does not drift with the clock
    let mut progress = BatchProgress::default();
    progress.mark_completed("/v.mp4", 1_700_000_000);
    assert!(progress.is_completed("/v.mp4", Some(1_700_000_000)));
    assert!(progress.is_completed("/v.mp4", Some(1_700_000_003)));
    // a file modified later is processed again
    assert!(!progress.is_completed("/v.mp4", Some(1_700_003_600)));
    // a failed file is never counted as done
    progress.mark_failed("/f.mp4");
    assert!(!progress.is_completed("/f.mp4", None));
}

#[test]
fn marking_twice_keeps_one_entry() {
    let mut progress = BatchProgress::default();
    progress.mark_completed("/v.mp4", 1);
    progress.mark_completed("/v.mp4", 500);
    assert_eq!(progress.completed.len(), 1);
    assert!(progress.is_completed("/v.mp4", Some(500)));
    progress.mark_failed("/x.mp4");
    progress.mark_failed("/x.mp4");
    assert_eq!(progress.failed.len(), 1);
}

#[test]
fn file_both_completed_and_failed_counts_once() {
    let mut progress = BatchProgress { total: 5, ..Default::default() };
    progress.mark_completed("/tmp/same.mp4", 1);
    progress.mark_failed("/tmp/same.mp4");
    assert_eq!(progress.remaining(), 4);
    progress.mark_failed("/tmp/other.mp4");
    assert_eq!(progress.remaining(), 3);
}

#[test]
fn from_entries_removes_repeats() {
    let p = BatchProgress::from_entries(
        vec![("/a.mp4".to_string(), 1), ("/b.mp4".to_string(), 2), ("/a.mp4".to_string(), 3)],
        vec!["/c.mp4".to_string(), "/c.mp4".to_string(), "/a.mp4".to_string()],
        10,
    );
    assert_eq!(p.completed.len(), 2);
    assert_eq!(p.failed.len(), 2);
    assert_eq!(p.total, 10);
    assert!(p.is_completed("/a.mp4", Some(3)));
    assert!(!p.is_completed("/a.mp4", Some(100)));
    assert!(p.is_completed("/b.mp4", Some(2)));
    assert_eq!(p.remaining(), 7);
}
