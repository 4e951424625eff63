use ai_vid_editor::activity::{
    upsert_processing_entry, Activity, ActivityEntry, EntryStatus, ProcessingStatus, QueueEntry, QueueEvent,
    QueueState, QueueStatus, WatcherEvent, FINISHED_VISIBLE_SECS, MAX_BATCH_QUEUE,
};
use ai_vid_editor::ui::ToastKind;

fn empty() -> Activity<f32> {
    Activity { status: ProcessingStatus::Idle, log: Vec::new(), toasts: Vec::new() }
}

#[test]
fn progress_updates_the_entry_in_place() {
    let mut a = empty();
    a.apply(WatcherEvent::Processing { filename: "a.mp4".into(), file_size: 100 }, "10:00:00".into(), 1, 0.0);
    assert_eq!(a.log.len(), 1);
    assert_eq!(a.log[0].message, "Queued");
    assert!(matches!(&a.status, ProcessingStatus::Processing(f) if f == "a.mp4"));
    a.apply(
        WatcherEvent::Progress { filename: "a.mp4".into(), progress: 0.5, message: "Trimming video".into() },
        "10:00:05".into(),
        6,
        0.0,
    );
    assert_eq!(a.log.len(), 1);
    assert_eq!(a.log[0].progress, Some(0.5));
    assert_eq!(a.log[0].file_size, 100);
    assert_eq!(a.log[0].timestamp, "10:00:05");
    assert_eq!(a.log[0].message, "Trimming video");
}

#[test]
fn finished_and_failed_files_notify() {
    let mut a = empty();
    a.apply(
        WatcherEvent::Completed { filename: "a.mp4".into(), file_size: 5, duration_secs: 3 },
        "t".into(),
        9,
        0.0,
    );
    assert!(matches!(a.status, ProcessingStatus::Watching));
    assert_eq!(a.log[0].status, EntryStatus::Success);
    assert_eq!(a.toasts[0].message, "a.mp4 processed");
    assert_eq!(a.toasts[0].kind, ToastKind::Success);
    a.apply(WatcherEvent::Failed { filename: "b.mp4".into(), message: "boom".into() }, "t".into(), 10, 0.0);
    assert!(matches!(&a.status, ProcessingStatus::Error(m) if m == "boom"));
    assert_eq!(a.log[1].status, EntryStatus::Error);
    assert_eq!(a.toasts[1].message, "b.mp4 failed: boom");
    assert_eq!(a.toasts[1].created_secs, 10);
}

#[test]
fn log_messages_and_trimming() {
    let mut a = empty();
    for i in 0..505 {
        a.apply(WatcherEvent::Log { message: format!("m{}", i), success: i % 2 == 0 }, "t".into(), 0, 0.0);
    }
    a.trim_log();
    assert_eq!(a.log.len(), 500);
    assert_eq!(a.log[0].message, "m5");
    assert_eq!(a.log[0].status, EntryStatus::Error);
}

#[test]
fn upsert_finds_the_latest_processing_entry() {
    let mut log: Vec<ActivityEntry<u32>> = vec![
        ActivityEntry::processing("1".into(), "a".into(), 10, 0),
        ActivityEntry::success("2".into(), "a".into(), 10, 4),
        ActivityEntry::processing("3".into(), "a".into(), 20, 1),
    ];
    upsert_processing_entry(&mut log, "4".into(), "a", 0, 7, "Encoding");
    assert_eq!(log.len(), 3);
    assert_eq!(log[2].progress, Some(7));
    assert_eq!(log[2].file_size, 20);
    assert_eq!(log[0].progress, Some(0));
    upsert_processing_entry(&mut log, "5".into(), "b", 3, 1, "Queued");
    assert_eq!(log.len(), 4);
    assert_eq!(log[3].filename, "b");
}

fn queued(path: &str) -> QueueEntry<f32> {
    QueueEntry { path: path.into(), status: QueueStatus::Queued, progress: 0.0, output_path: None, completed_at: None }
}

fn queue_of(paths: &[&str]) -> QueueState<f32> {
    QueueState {
        entries: paths.iter().map(|p| queued(p)).collect(),
        processing: true,
        status: ProcessingStatus::Idle,
        toasts: Vec::new(),
        recent_outputs: Vec::new(),
    }
}

#[test]
fn queue_marks_the_reported_file() {
    let mut q = queue_of(&["/in/a.mp4", "/in/b.mp4"]);
    q.apply(QueueEvent::Processing { filename: "b.mp4".into(), path: "/in/b.mp4".into() }, 10, false, 0.0, 1.0);
    assert_eq!(q.entries[1].status, QueueStatus::Processing);
    assert_eq!(q.entries[0].status, QueueStatus::Queued);
    assert!(matches!(&q.status, ProcessingStatus::Processing(f) if f == "b.mp4"));
    q.apply(
        QueueEvent::Progress { filename: "b.mp4".into(), path: "/in/b.mp4".into(), progress: 0.4, message: "x".into() },
        11,
        false,
        0.0,
        1.0,
    );
    assert_eq!(q.entries[1].progress, 0.4);
    assert_eq!(q.entries[1].status, QueueStatus::Processing);
    assert!(q.toasts.is_empty());
}

#[test]
fn queue_completion_records_output_and_notifies() {
    let mut q = queue_of(&["/in/a.mp4"]);
    q.apply(
        QueueEvent::Completed {
            filename: "a.mp4".into(),
            path: "/in/a.mp4".into(),
            file_size: 5,
            output_path: "/out/a_edited.mp4".into(),
        },
        20,
        true,
        0.0,
        1.0,
    );
    assert_eq!(q.entries[0].status, QueueStatus::Done);
    assert_eq!(q.entries[0].progress, 1.0);
    assert_eq!(q.entries[0].output_path.as_deref(), Some("/out/a_edited.mp4"));
    assert_eq!(q.entries[0].completed_at, Some(20));
    assert_eq!(q.recent_outputs, vec!["/out/a_edited.mp4".to_string()]);
    assert_eq!(q.toasts.len(), 1);
    assert_eq!(q.toasts[0].message, "a.mp4 processed");
    assert_eq!(q.toasts[0].kind, ToastKind::Success);
}

#[test]
fn queue_completion_without_output_file_keeps_recent_list() {
    let mut q = queue_of(&["/in/a.mp4"]);
    q.apply(
        QueueEvent::Completed {
            filename: "a.mp4".into(),
            path: "/in/a.mp4".into(),
            file_size: 5,
            output_path: "/out/a_edited.mp4".into(),
        },
        20,
        false,
        0.0,
        1.0,
    );
    assert_eq!(q.entries[0].status, QueueStatus::Done);
    assert!(q.recent_outputs.is_empty());
}

#[test]
fn queue_failure_and_finish() {
    let mut q = queue_of(&["/in/a.mp4"]);
    q.apply(
        QueueEvent::Failed { filename: "a.mp4".into(), path: "/in/a.mp4".into(), message: "boom".into() },
        30,
        false,
        0.0,
        1.0,
    );
    assert_eq!(q.entries[0].status, QueueStatus::Error);
    assert_eq!(q.toasts[0].message, "a.mp4 failed: boom");
    assert_eq!(q.toasts[0].kind, ToastKind::Error);
    assert!(q.processing);
    q.apply(QueueEvent::Finished, 31, false, 0.0, 1.0);
    assert!(!q.processing);
    assert_eq!(q.entries.len(), 1);
}

#[test]
fn queue_report_for_unknown_file_changes_no_entry() {
    let mut q = queue_of(&["/in/a.mp4"]);
    q.apply(QueueEvent::Processing { filename: "z.mp4".into(), path: "/in/z.mp4".into() }, 10, false, 0.0, 1.0);
    assert_eq!(q.entries[0].status, QueueStatus::Queued);
}

#[test]
fn prune_drops_old_finished_entries() {
    let mut q = queue_of(&["/in/a.mp4", "/in/b.mp4", "/in/c.mp4"]);
    q.entries[0].status = QueueStatus::Done;
    q.entries[0].completed_at = Some(100);
    q.entries[1].status = QueueStatus::Error;
    q.entries[1].completed_at = Some(100 + 10);
    q.prune(100 + FINISHED_VISIBLE_SECS + 1);
    assert_eq!(q.entries.len(), 2);
    assert_eq!(q.entries[0].path, "/in/b.mp4");
    assert_eq!(q.entries[1].path, "/in/c.mp4");
    q.prune(100 + FINISHED_VISIBLE_SECS);
    assert_eq!(q.entries.len(), 2);
}

#[test]
fn prune_keeps_the_newest_hundred() {
    let names: Vec<String> = (0..MAX_BATCH_QUEUE + 5).map(|i| format!("/in/{}.mp4", i)).collect();
    let refs: Vec<&str> = names.iter().map(|s| s.as_str()).collect();
    let mut q = queue_of(&refs);
    q.prune(0);
    assert_eq!(q.entries.len(), MAX_BATCH_QUEUE);
    assert_eq!(q.entries[0].path, "/in/5.mp4");
    assert_eq!(q.entries[MAX_BATCH_QUEUE - 1].path, format!("/in/{}.mp4", MAX_BATCH_QUEUE + 4));
}

#[test]
fn queue_panel_edits() {
    let mut q = queue_of(&["/in/a.mp4", "/in/b.mp4"]);
    q.add_file("/in/c.mp4".into(), 0.0);
    assert_eq!(q.entries.len(), 3);
    assert_eq!(q.entries[2].status, QueueStatus::Queued);
    q.entries[0].status = QueueStatus::Done;
    q.entries[1].status = QueueStatus::Error;
    q.entries[1].progress = 0.7;
    q.entries[1].completed_at = Some(9);
    // only waiting files can be removed
    assert!(!q.remove_queued(0));
    assert!(!q.retry(0, 0.0));
    assert!(q.retry(1, 0.0));
    assert_eq!(q.entries[1].status, QueueStatus::Queued);
    assert_eq!(q.entries[1].progress, 0.0);
    assert_eq!(q.entries[1].completed_at, None);
    assert!(q.remove_queued(1));
    assert_eq!(q.entries.len(), 2);
    assert_eq!(q.done_count(), 1);
    q.clear_completed();
    assert_eq!(q.entries.len(), 1);
    assert_eq!(q.entries[0].path, "/in/c.mp4");
    assert_eq!(q.done_count(), 0);
}
