use ai_vid_editor::batch::{batch_summary, TempFileGuard};

#[test]
fn temp_guard_starts_empty() {
    let guard = TempFileGuard::new("/out/video.mp4".to_string());
    assert!(guard.temps().is_empty());
}

#[test]
fn temp_guard_tracks_intermediate_files_once() {
    let mut guard = TempFileGuard::new("/out/video.mp4".to_string());
    guard.track("/out/video.trimmed.mp4".to_string());
    guard.track("/out/video.enhanced.mp4".to_string());
    guard.track("/out/video.trimmed.mp4".to_string());
    assert_eq!(
        guard.temps(),
        &vec!["/out/video.trimmed.mp4".to_string(), "/out/video.enhanced.mp4".to_string()]
    );
}

#[test]
fn temp_guard_never_tracks_the_output() {
    let mut guard = TempFileGuard::new("/out/video.mp4".to_string());
    guard.track("/out/video.mp4".to_string());
    assert!(guard.temps().is_empty());
}

#[test]
fn temp_guard_untrack_removes_the_file() {
    let mut guard = TempFileGuard::new("/out/video.mp4".to_string());
    guard.track("/out/a.mp4".to_string());
    guard.track("/out/b.mp4".to_string());
    guard.track("/out/c.mp4".to_string());
    guard.untrack("/out/b.mp4");
    assert_eq!(guard.temps(), &vec!["/out/a.mp4".to_string(), "/out/c.mp4".to_string()]);
    guard.untrack("/out/missing.mp4");
    assert_eq!(guard.temps().len(), 2);
}

#[test]
fn temp_guard_track_after_untrack() {
    let mut guard = TempFileGuard::new("/out/video.mp4".to_string());
    guard.track("/out/a.mp4".to_string());
    guard.untrack("/out/a.mp4");
    guard.track("/out/a.mp4".to_string());
    assert_eq!(guard.temps(), &vec!["/out/a.mp4".to_string()]);
}

#[test]
fn batch_summary_layout() {
    let s = batch_summary(10, 7, 2, 1);
    let expected = "\n=== BATCH SUMMARY ===\n  Total files:      10\n  \x1b[32mSuccessful:\x1b[0m        7 (70%)\n  \x1b[31mFailed:\x1b[0m            2 (20%)\n  \x1b[33mSkipped (done):\x1b[0m    1\n=====================\n\n";
    assert_eq!(s, expected);
}

#[test]
fn batch_summary_empty_batch_has_zero_percent() {
    let s = batch_summary(0, 0, 0, 0);
    assert!(s.contains("Total files:       0\n"));
    assert!(s.contains("  0 (0%)"));
}

#[test]
fn batch_summary_wide_total_widens_columns() {
    let s = batch_summary(12345, 12345, 0, 0);
    assert!(s.contains("Total files:     12345\n"));
    assert!(s.contains("12345 (100%)"));
    assert!(s.contains("    0 (0%)"));
}

#[test]
fn batch_summary_percent_rounds_down() {
    let s = batch_summary(3, 1, 2, 0);
    assert!(s.contains("(33%)"));
    assert!(s.contains("(66%)"));
}

use ai_vid_editor::batch::{worker_chunks, BatchTally};

#[test]
fn tally_counts_every_file_once() {
    let mut t = BatchTally::new(4);
    t.skip();
    t.record(true);
    assert!(!t.is_done());
    t.record(false);
    t.record(true);
    assert!(t.is_done());
    assert_eq!(t.summary(), ai_vid_editor::batch::batch_summary(4, 2, 1, 1));
}

#[test]
fn workers_share_the_batch() {
    assert_eq!(worker_chunks(0, 4), vec![]);
    assert_eq!(worker_chunks(10, 4), vec![(0, 3), (3, 6), (6, 9), (9, 10)]);
    assert_eq!(worker_chunks(10, 0), vec![(0, 10)]);
    assert_eq!(worker_chunks(3, 8), vec![(0, 1), (1, 2), (2, 3)]);
}
