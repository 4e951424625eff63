//! The activity log and status that the interface shows, and how the
//! watcher's reports update them.
//!
//! Progress values are of any type `P` (the interface uses fractions); the
//! log keeps one entry per file being processed, updated as it progresses,
//! and at most [`MAX_ACTIVITY_LOG`] entries after each batch of reports.
use vstd::prelude::*;

use crate::text::{append_str, chars_eq, chars_of, string_from_chars};
use crate::ui::{
    keep_newest, recent_after, remember_output, string_views, Toast, ToastKind, MAX_ACTIVITY_LOG,
};

verus! {

/// The state of an activity entry.
#[derive(Debug, Clone, Copy, PartialEq, Eq, Structural)]
pub enum EntryStatus {
    Success,
    Processing,
    Error,
}

/// One line of the activity log.
#[derive(Debug, Clone)]
pub struct ActivityEntry<P> {
    /// When it happened, as shown (`HH:MM:SS`)
    pub timestamp: String,
    /// The file it is about (empty for general messages)
    pub filename: String,
    /// The file's size in bytes (0 where unknown)
    pub file_size: u64,
    /// How long processing took, in seconds
    pub duration: Option<u64>,
    /// How far processing is
    pub progress: Option<P>,
    /// Its state
    pub status: EntryStatus,
    /// The text shown
    pub message: String,
}

/// An entry as (timestamp, file name, size, duration, progress, status,
/// message).
pub open spec fn entry_view<P>(e: ActivityEntry<P>) -> (Seq<char>, Seq<char>, u64, Option<u64>, Option<P>, EntryStatus, Seq<char>) {
    (e.timestamp@, e.filename@, e.file_size, e.duration, e.progress, e.status, e.message@)
}

/// The views of a log.
pub open spec fn log_view<P>(log: Seq<ActivityEntry<P>>) -> Seq<(Seq<char>, Seq<char>, u64, Option<u64>, Option<P>, EntryStatus, Seq<char>)> {
    log.map_values(|e: ActivityEntry<P>| entry_view(e))
}

impl<P> ActivityEntry<P> {
    /// A file processed successfully in `duration` seconds.
    pub fn success(timestamp: String, filename: String, file_size: u64, duration: u64) -> (r: Self)
        ensures
            entry_view(r) == (timestamp@, filename@, file_size, Some(duration), None::<P>, EntryStatus::Success, Seq::<char>::empty()),
    {
        let r = ActivityEntry {
            timestamp,
            filename,
            file_size,
            duration: Some(duration),
            progress: None,
            status: EntryStatus::Success,
            message: String::new(),
        };
        assert(r.message@ =~= Seq::<char>::empty());
        r
    }

    /// A file that has started processing.
    pub fn processing(timestamp: String, filename: String, file_size: u64, progress: P) -> (r: Self)
        ensures
            entry_view(r) == (timestamp@, filename@, file_size, None::<u64>, Some(progress), EntryStatus::Processing, "Queued"@),
    {
        ActivityEntry {
            timestamp,
            filename,
            file_size,
            duration: None,
            progress: Some(progress),
            status: EntryStatus::Processing,
            message: "Queued".to_string(),
        }
    }

    /// A file whose processing failed with `message`.
    pub fn error(timestamp: String, filename: String, message: String) -> (r: Self)
        ensures
            entry_view(r) == (timestamp@, filename@, 0u64, None::<u64>, None::<P>, EntryStatus::Error, message@),
    {
        ActivityEntry { timestamp, filename, file_size: 0, duration: None, progress: None, status: EntryStatus::Error, message }
    }

    /// A general message, shown as a success or an error.
    pub fn simple(timestamp: String, message: String, success: bool) -> (r: Self)
        ensures
            entry_view(r) == (
                timestamp@,
                Seq::<char>::empty(),
                0u64,
                None::<u64>,
                None::<P>,
                if success { EntryStatus::Success } else { EntryStatus::Error },
                message@,
            ),
    {
        let r = ActivityEntry {
            timestamp,
            filename: String::new(),
            file_size: 0,
            duration: None,
            progress: None,
            status: if success {
                EntryStatus::Success
            } else {
                EntryStatus::Error
            },
            message,
        };
        assert(r.filename@ =~= Seq::<char>::empty());
        r
    }
}

/// The entry of `file` still being processed: the last such entry of the
/// log.
pub open spec fn last_processing<P>(log: Seq<ActivityEntry<P>>, file: Seq<char>) -> Option<int>
    decreases log.len(),
{
    if log.len() == 0 {
        None
    } else if log.last().status == EntryStatus::Processing && log.last().filename@ == file {
        Some(log.len() - 1)
    } else {
        last_processing(log.drop_last(), file)
    }
}

proof fn lemma_last_processing_take<P>(log: Seq<ActivityEntry<P>>, file: Seq<char>, i: int)
    requires
        0 <= i <= log.len(),
        forall|j: int|
            i <= j < log.len() ==> !(#[trigger] log[j].status == EntryStatus::Processing && log[j].filename@
                == file),
    ensures
        last_processing(log, file) == last_processing(log.take(i), file),
    decreases log.len() - i,
{
    if i == log.len() {
        assert(log.take(i) =~= log);
    } else {
        let l2 = log.drop_last();
        assert(log[log.len() - 1] == log.last());
        lemma_last_processing_take(l2, file, i);
        assert(l2.take(i) =~= log.take(i));
    }
}

/// Record progress of `file`: its entry still being processed is updated
/// (time, size where one is known, progress, message); where it has none, a
/// processing entry is added.
pub fn upsert_processing_entry<P>(
    log: &mut Vec<ActivityEntry<P>>,
    timestamp: String,
    file: &str,
    file_size: u64,
    progress: P,
    message: &str,
)
    ensures
        log_view(final(log)@) == upserted(old(log)@, timestamp@, file@, file_size, progress, message@),
{
    let f = chars_of(file);
    let ghost start = log@;
    let mut i: usize = log.len();
    let mut found: Option<usize> = None;
    while i > 0
        invariant_except_break
            found is None,
        invariant
            i <= log@.len(),
            log@ == start,
            f@ == file@,
            forall|j: int|
                i <= j < log@.len() ==> !(#[trigger] log@[j].status == EntryStatus::Processing
                    && log@[j].filename@ == file@),
        ensures
            found matches Some(k) ==> k + 1 == i && log@[k as int].status == EntryStatus::Processing
                && log@[k as int].filename@ == file@,
            found is None ==> i == 0,
        decreases i,
    {
        let k = i - 1;
        let n = chars_of(log[k].filename.as_str());
        if log[k].status == EntryStatus::Processing && chars_eq(&n, &f) {
            found = Some(k);
            break;
        }
        i = k;
    }
    match found {
        Some(k) => {
            proof {
                lemma_last_processing_take(start, file@, k + 1);
                let t = start.take(k + 1);
                assert(t.last() == start[k as int]);
            }
            let old_entry = log.remove(k);
            let size = if file_size > 0 {
                file_size
            } else {
                old_entry.file_size
            };
            let entry = ActivityEntry {
                timestamp,
                filename: old_entry.filename,
                file_size: size,
                duration: old_entry.duration,
                progress: Some(progress),
                status: EntryStatus::Processing,
                message: message.to_string(),
            };
            log.insert(k, entry);
            assert(log_view(log@) =~= log_view(start).update(k as int, entry_view(entry)));
        },
        None => {
            proof {
                lemma_last_processing_take(start, file@, 0);
                assert(start.take(0) =~= Seq::<ActivityEntry<P>>::empty());
            }
            let entry = ActivityEntry {
                timestamp,
                filename: file.to_string(),
                file_size,
                duration: None,
                progress: Some(progress),
                status: EntryStatus::Processing,
                message: message.to_string(),
            };
            log.push(entry);
            assert(log_view(log@) =~= log_view(start).push(entry_view(entry)));
        },
    }
}

/// What the watcher is doing, as the interface shows it.
#[derive(Debug, Clone)]
pub enum ProcessingStatus {
    Idle,
    Watching,
    /// Processing the named file
    Processing(String),
    /// Stopped by the error described
    Error(String),
}

/// A status as (kind, text): 0 idle, 1 watching, 2 processing, 3 error.
pub open spec fn status_view(s: ProcessingStatus) -> (int, Seq<char>) {
    match s {
        ProcessingStatus::Idle => (0, Seq::empty()),
        ProcessingStatus::Watching => (1, Seq::empty()),
        ProcessingStatus::Processing(f) => (2, f@),
        ProcessingStatus::Error(m) => (3, m@),
    }
}

/// A report from the folder watcher.
#[derive(Debug)]
pub enum WatcherEvent<P> {
    /// The watcher's status changed
    Status(ProcessingStatus),
    /// A general message
    Log { message: String, success: bool },
    /// A file started processing
    Processing { filename: String, file_size: u64 },
    /// A file progressed
    Progress { filename: String, progress: P, message: String },
    /// A file was processed
    Completed { filename: String, file_size: u64, duration_secs: u64 },
    /// A file failed
    Failed { filename: String, message: String },
}

/// The status, activity log and notifications the interface shows.
pub struct Activity<P> {
    /// What the watcher is doing
    pub status: ProcessingStatus,
    /// The activity log, oldest first
    pub log: Vec<ActivityEntry<P>>,
    /// The notifications, oldest first
    pub toasts: Vec<Toast>,
}

/// A notification as (message, kind, creation time).
pub open spec fn toast_view(t: Toast) -> (Seq<char>, ToastKind, u64) {
    (t.message@, t.kind, t.created_secs)
}

/// The views of a list of notifications.
pub open spec fn toasts_view(v: Seq<Toast>) -> Seq<(Seq<char>, ToastKind, u64)> {
    v.map_values(|t: Toast| toast_view(t))
}

impl<P: Copy> Activity<P> {
    /// Take in one report of the watcher, at `timestamp` (as shown) and
    /// `now_secs`: the status follows the report; messages, finished and
    /// failed files are added to the log; progress updates the file's entry
    /// (a file that starts gets progress `start` and the message `Queued`);
    /// finished and failed files also raise a notification.
    pub fn apply(&mut self, event: WatcherEvent<P>, timestamp: String, now_secs: u64, start: P)
        ensures
            match event {
                WatcherEvent::Status(s) => {
                    &&& status_view(final(self).status) == status_view(s)
                    &&& log_view(final(self).log@) == log_view(old(self).log@)
                    &&& toasts_view(final(self).toasts@) == toasts_view(old(self).toasts@)
                },
                WatcherEvent::Log { message, success } => {
                    &&& status_view(final(self).status) == status_view(old(self).status)
                    &&& log_view(final(self).log@) == log_view(old(self).log@).push(
                        (
                            timestamp@,
                            Seq::<char>::empty(),
                            0u64,
                            None::<u64>,
                            None::<P>,
                            if success { EntryStatus::Success } else { EntryStatus::Error },
                            message@,
                        ),
                    )
                    &&& toasts_view(final(self).toasts@) == toasts_view(old(self).toasts@)
                },
                WatcherEvent::Processing { filename, file_size } => {
                    &&& status_view(final(self).status) == (2int, filename@)
                    &&& log_view(final(self).log@) == upserted(old(self).log@, timestamp@, filename@, file_size, start, "Queued"@)
                    &&& toasts_view(final(self).toasts@) == toasts_view(old(self).toasts@)
                },
                WatcherEvent::Progress { filename, progress, message } => {
                    &&& status_view(final(self).status) == (2int, filename@)
                    &&& log_view(final(self).log@) == upserted(old(self).log@, timestamp@, filename@, 0, progress, message@)
                    &&& toasts_view(final(self).toasts@) == toasts_view(old(self).toasts@)
                },
                WatcherEvent::Completed { filename, file_size, duration_secs } => {
                    &&& status_view(final(self).status) == (1int, Seq::<char>::empty())
                    &&& log_view(final(self).log@) == log_view(old(self).log@).push(
                        (timestamp@, filename@, file_size, Some(duration_secs), None::<P>, EntryStatus::Success, Seq::<char>::empty()),
                    )
                    &&& toasts_view(final(self).toasts@) == toasts_view(old(self).toasts@).push(
                        (filename@ + " processed"@, ToastKind::Success, now_secs),
                    )
                },
                WatcherEvent::Failed { filename, message } => {
                    &&& status_view(final(self).status) == (3int, message@)
                    &&& log_view(final(self).log@) == log_view(old(self).log@).push(
                        (timestamp@, filename@, 0u64, None::<u64>, None::<P>, EntryStatus::Error, message@),
                    )
                    &&& toasts_view(final(self).toasts@) == toasts_view(old(self).toasts@).push(
                        (filename@ + " failed: "@ + message@, ToastKind::Error, now_secs),
                    )
                },
            },
    {
        match event {
            WatcherEvent::Status(s) => {
                self.status = s;
            },
            WatcherEvent::Log { message, success } => {
                let ghost before = self.log@;
                let e = ActivityEntry::simple(timestamp, message, success);
                self.log.push(e);
                assert(log_view(self.log@) =~= log_view(before).push(entry_view(e)));
            },
            WatcherEvent::Processing { filename, file_size } => {
                upsert_processing_entry(&mut self.log, timestamp, filename.as_str(), file_size, start, "Queued");
                self.status = ProcessingStatus::Processing(filename);
            },
            WatcherEvent::Progress { filename, progress, message } => {
                upsert_processing_entry(&mut self.log, timestamp, filename.as_str(), 0, progress, message.as_str());
                self.status = ProcessingStatus::Processing(filename);
            },
            WatcherEvent::Completed { filename, file_size, duration_secs } => {
                self.status = ProcessingStatus::Watching;
                let ghost before = self.log@;
                let ghost tbefore = self.toasts@;
                let mut v = chars_of(filename.as_str());
                append_str(&mut v, " processed");
                let text = string_from_chars(&v);
                let e = ActivityEntry::success(timestamp, filename, file_size, duration_secs);
                self.log.push(e);
                assert(log_view(self.log@) =~= log_view(before).push(entry_view(e)));
                let t = Toast::new(text, ToastKind::Success, now_secs);
                self.toasts.push(t);
                assert(toasts_view(self.toasts@) =~= toasts_view(tbefore).push(toast_view(t)));
            },
            WatcherEvent::Failed { filename, message } => {
                let ghost before = self.log@;
                let ghost tbefore = self.toasts@;
                let mut v = chars_of(filename.as_str());
                append_str(&mut v, " failed: ");
                append_str(&mut v, message.as_str());
                let text = string_from_chars(&v);
                self.status = ProcessingStatus::Error(message.clone());
                let e = ActivityEntry::error(timestamp, filename, message);
                self.log.push(e);
                assert(log_view(self.log@) =~= log_view(before).push(entry_view(e)));
                let t = Toast::new(text, ToastKind::Error, now_secs);
                self.toasts.push(t);
                assert(toasts_view(self.toasts@) =~= toasts_view(tbefore).push(toast_view(t)));
            },
        }
    }

    /// After a round of reports, keep only the newest
    /// [`MAX_ACTIVITY_LOG`] log entries.
    pub fn trim_log(&mut self)
        ensures
            old(self).log@.len() <= MAX_ACTIVITY_LOG ==> final(self).log@ == old(self).log@,
            old(self).log@.len() > MAX_ACTIVITY_LOG ==> final(self).log@ == old(self).log@.skip(
                old(self).log@.len() - MAX_ACTIVITY_LOG,
            ),
            final(self).log@.len() <= MAX_ACTIVITY_LOG,
            status_view(final(self).status) == status_view(old(self).status),
            toasts_view(final(self).toasts@) == toasts_view(old(self).toasts@),
    {
        keep_newest(&mut self.log, MAX_ACTIVITY_LOG);
    }
}

/// The log after recording progress of `file` (see
/// [`upsert_processing_entry`]).
pub open spec fn upserted<P>(
    log: Seq<ActivityEntry<P>>,
    timestamp: Seq<char>,
    file: Seq<char>,
    file_size: u64,
    progress: P,
    message: Seq<char>,
) -> Seq<(Seq<char>, Seq<char>, u64, Option<u64>, Option<P>, EntryStatus, Seq<char>)> {
    match last_processing(log, file) {
        Some(i) => log_view(log).update(
            i,
            (
                timestamp,
                log[i].filename@,
                if file_size > 0 { file_size } else { log[i].file_size },
                log[i].duration,
                Some(progress),
                EntryStatus::Processing,
                message,
            ),
        ),
        None => log_view(log).push(
            (timestamp, file, file_size, None::<u64>, Some(progress), EntryStatus::Processing, message),
        ),
    }
}

/// Progress keeps one entry per file: recording progress of a file that
/// already has an entry being processed changes that entry in place, and
/// the log does not grow.
pub proof fn lemma_upsert_keeps_length<P>(
    log: Seq<ActivityEntry<P>>,
    timestamp: Seq<char>,
    file: Seq<char>,
    file_size: u64,
    progress: P,
    message: Seq<char>,
)
    ensures
        last_processing(log, file) is Some ==> upserted(log, timestamp, file, file_size, progress, message).len() == log.len(),
        last_processing(log, file) is None ==> upserted(log, timestamp, file, file_size, progress, message).len() == log.len() + 1,
        last_processing(log, file) matches Some(i) ==> 0 <= i < log.len(),
    decreases log.len(),
{
    if log.len() > 0 && !(log.last().status == EntryStatus::Processing && log.last().filename@ == file) {
        lemma_upsert_keeps_length(log.drop_last(), timestamp, file, file_size, progress, message);
    }
}

/// The state of a queued file.
#[derive(Debug, Clone, Copy, PartialEq, Eq, Structural)]
pub enum QueueStatus {
    Queued,
    Processing,
    Done,
    Error,
}

/// A file in the processing queue as the interface shows it.
#[derive(Debug, Clone)]
pub struct QueueEntry<P> {
    /// The file
    pub path: String,
    /// Its state
    pub status: QueueStatus,
    /// How far processing is
    pub progress: P,
    /// Where the result was written, once done
    pub output_path: Option<String>,
    /// When it finished, in whole seconds of a monotonic clock
    pub completed_at: Option<u64>,
}

/// An entry as (path, state, progress, output written, finish time).
pub open spec fn queue_entry_view<P>(e: QueueEntry<P>) -> (Seq<char>, QueueStatus, P, Option<Seq<char>>, Option<u64>) {
    (
        e.path@,
        e.status,
        e.progress,
        match e.output_path {
            Some(o) => Some(o@),
            None => None,
        },
        e.completed_at,
    )
}

/// The views of a queue.
pub open spec fn queue_view<P>(q: Seq<QueueEntry<P>>) -> Seq<(Seq<char>, QueueStatus, P, Option<Seq<char>>, Option<u64>)> {
    q.map_values(|e: QueueEntry<P>| queue_entry_view(e))
}

/// The first entry of the queue for `path`.
pub open spec fn first_entry_for<P>(q: Seq<QueueEntry<P>>, path: Seq<char>) -> Option<int> {
    if exists|i: int| 0 <= i < q.len() && #[trigger] q[i].path@ == path {
        Some(choose|i: int| 0 <= i < q.len() && #[trigger] q[i].path@ == path && forall|j: int| 0 <= j < i ==> q[j].path@ != path)
    } else {
        None
    }
}

/// How many finished files the queue shows at most.
pub const MAX_BATCH_QUEUE: usize = 100;

/// How long, in seconds, a finished file stays in the queue.
pub const FINISHED_VISIBLE_SECS: u64 = 60;

/// A finished file is shown no longer than [`FINISHED_VISIBLE_SECS`].
pub open spec fn still_shown<P>(e: QueueEntry<P>, now_secs: u64) -> bool {
    !((e.status == QueueStatus::Done || e.status == QueueStatus::Error) && match e.completed_at {
        Some(t) => now_secs > t && now_secs - t > FINISHED_VISIBLE_SECS,
        None => false,
    })
}

fn find_entry<P>(q: &Vec<QueueEntry<P>>, path: &str) -> (r: Option<usize>)
    ensures
        match r {
            Some(i) => first_entry_for(q@, path@) == Some(i as int) && i < q@.len() && q@[i as int].path@
                == path@,
            None => first_entry_for(q@, path@) is None,
        },
{
    let p = chars_of(path);
    let mut i: usize = 0;
    while i < q.len()
        invariant
            i <= q@.len(),
            p@ == path@,
            forall|j: int| 0 <= j < i ==> q@[j].path@ != path@,
        decreases q.len() - i,
    {
        let k = chars_of(q[i].path.as_str());
        if chars_eq(&k, &p) {
            proof {
                let w = choose|w: int| 0 <= w < q@.len() && #[trigger] q@[w].path@ == path@ && forall|j: int| 0 <= j < w ==> q@[j].path@ != path@;
                assert(q@[i as int].path@ == path@);
                if w < i {
                } else if w > i {
                    assert(q@[i as int].path@ != path@);
                }
            }
            return Some(i);
        }
        i = i + 1;
    }
    None
}

/// A report from the queue worker.
#[derive(Debug)]
pub enum QueueEvent<P> {
    /// A file started processing
    Processing { filename: String, path: String },
    /// A file progressed
    Progress { filename: String, path: String, progress: P, message: String },
    /// A file was processed into `output_path`
    Completed { filename: String, path: String, file_size: u64, output_path: String },
    /// A file failed
    Failed { filename: String, path: String, message: String },
    /// The queue is done
    Finished,
}

/// The queue, with the interface state its reports change.
pub struct QueueState<P> {
    /// The queued files
    pub entries: Vec<QueueEntry<P>>,
    /// Whether the queue is being worked through
    pub processing: bool,
    /// What is being done
    pub status: ProcessingStatus,
    /// The notifications, oldest first
    pub toasts: Vec<Toast>,
    /// The outputs written most recently, newest first
    pub recent_outputs: Vec<String>,
}

impl<P: Copy> QueueState<P> {
    fn set_entry(&mut self, i: usize, status: QueueStatus, progress: P, output: Option<String>, completed_at: Option<u64>)
        requires
            i < old(self).entries@.len(),
        ensures
            queue_view(final(self).entries@) == queue_view(old(self).entries@).update(
                i as int,
                (old(self).entries@[i as int].path@, status, progress, match output {
                    Some(o) => Some(o@),
                    None => None,
                }, completed_at),
            ),
            final(self).entries@[i as int].path@ == old(self).entries@[i as int].path@,
            final(self).processing == old(self).processing,
            status_view(final(self).status) == status_view(old(self).status),
            toasts_view(final(self).toasts@) == toasts_view(old(self).toasts@),
            final(self).recent_outputs@ == old(self).recent_outputs@,
    {
        let ghost before = self.entries@;
        let e = self.entries.remove(i);
        let n = QueueEntry { path: e.path, status, progress, output_path: output, completed_at };
        self.entries.insert(i, n);
        assert(queue_view(self.entries@) =~= queue_view(before).update(i as int, queue_entry_view(n)));
    }

    fn on_processing(&mut self, filename: String, path: String, start: P)
        ensures
            status_view(final(self).status) == (2int, filename@),
            match first_entry_for(old(self).entries@, path@) {
                Some(i) => queue_view(final(self).entries@) == queue_view(old(self).entries@).update(
                    i,
                    (path@, QueueStatus::Processing, start, queue_view(old(self).entries@)[i].3, old(self).entries@[i].completed_at),
                ),
                None => queue_view(final(self).entries@) == queue_view(old(self).entries@),
            },
            toasts_view(final(self).toasts@) == toasts_view(old(self).toasts@),
            final(self).processing == old(self).processing,
    {
        match find_entry(&self.entries, path.as_str()) {
            Some(i) => {
                let out = self.entries[i].output_path.clone();
                let at = self.entries[i].completed_at;
                self.set_entry(i, QueueStatus::Processing, start, out, at);
            },
            None => {},
        }
        self.status = ProcessingStatus::Processing(filename);
    }

    fn on_progress(&mut self, path: String, progress: P)
        ensures
            status_view(final(self).status) == status_view(old(self).status),
            match first_entry_for(old(self).entries@, path@) {
                Some(i) => queue_view(final(self).entries@) == queue_view(old(self).entries@).update(
                    i,
                    (path@, old(self).entries@[i].status, progress, queue_view(old(self).entries@)[i].3, old(self).entries@[i].completed_at),
                ),
                None => queue_view(final(self).entries@) == queue_view(old(self).entries@),
            },
            toasts_view(final(self).toasts@) == toasts_view(old(self).toasts@),
            final(self).processing == old(self).processing,
    {
        match find_entry(&self.entries, path.as_str()) {
            Some(i) => {
                let out = self.entries[i].output_path.clone();
                let at = self.entries[i].completed_at;
                let st = self.entries[i].status;
                self.set_entry(i, st, progress, out, at);
            },
            None => {},
        }
    }

    fn on_completed(&mut self, filename: String, path: String, output_path: String, now_secs: u64, output_exists: bool, done: P)
        ensures
            status_view(final(self).status) == status_view(old(self).status),
            match first_entry_for(old(self).entries@, path@) {
                Some(i) => {
                    &&& queue_view(final(self).entries@) == queue_view(old(self).entries@).update(
                        i,
                        (path@, QueueStatus::Done, done, Some(output_path@), Some(now_secs)),
                    )
                    &&& string_views(final(self).recent_outputs@) == if output_exists {
                        recent_after(string_views(old(self).recent_outputs@), output_path@)
                    } else {
                        string_views(old(self).recent_outputs@)
                    }
                },
                None => {
                    &&& queue_view(final(self).entries@) == queue_view(old(self).entries@)
                    &&& string_views(final(self).recent_outputs@) == string_views(old(self).recent_outputs@)
                },
            },
            toasts_view(final(self).toasts@) == toasts_view(old(self).toasts@).push(
                (filename@ + " processed"@, ToastKind::Success, now_secs),
            ),
            final(self).processing == old(self).processing,
    {
        match find_entry(&self.entries, path.as_str()) {
            Some(i) => {
                self.set_entry(i, QueueStatus::Done, done, Some(output_path.clone()), Some(now_secs));
                if output_exists {
                    remember_output(&mut self.recent_outputs, output_path);
                }
            },
            None => {},
        }
        let ghost tbefore = self.toasts@;
        let mut v = chars_of(filename.as_str());
        append_str(&mut v, " processed");
        let t = Toast::new(string_from_chars(&v), ToastKind::Success, now_secs);
        self.toasts.push(t);
        assert(toasts_view(self.toasts@) =~= toasts_view(tbefore).push(toast_view(t)));
    }

    fn on_failed(&mut self, filename: String, path: String, message: String, now_secs: u64)
        ensures
            status_view(final(self).status) == status_view(old(self).status),
            match first_entry_for(old(self).entries@, path@) {
                Some(i) => queue_view(final(self).entries@) == queue_view(old(self).entries@).update(
                    i,
                    (path@, QueueStatus::Error, old(self).entries@[i].progress, queue_view(old(self).entries@)[i].3, old(self).entries@[i].completed_at),
                ),
                None => queue_view(final(self).entries@) == queue_view(old(self).entries@),
            },
            toasts_view(final(self).toasts@) == toasts_view(old(self).toasts@).push(
                (filename@ + " failed: "@ + message@, ToastKind::Error, now_secs),
            ),
            final(self).processing == old(self).processing,
    {
        match find_entry(&self.entries, path.as_str()) {
            Some(i) => {
                let out = self.entries[i].output_path.clone();
                let at = self.entries[i].completed_at;
                let pr = self.entries[i].progress;
                self.set_entry(i, QueueStatus::Error, pr, out, at);
            },
            None => {},
        }
        let ghost tbefore = self.toasts@;
        let mut v = chars_of(filename.as_str());
        append_str(&mut v, " failed: ");
        append_str(&mut v, message.as_str());
        let t = Toast::new(string_from_chars(&v), ToastKind::Error, now_secs);
        self.toasts.push(t);
        assert(toasts_view(self.toasts@) =~= toasts_view(tbefore).push(toast_view(t)));
    }

    /// Take in one report of the queue worker at `now_secs`. The first
    /// entry for the reported file changes: a start marks it processing
    /// with progress `start`; progress updates it; completion marks it done
    /// with progress `done`, its output and finish time (and puts the output
    /// first among the recent ones where `output_exists`); failure marks it
    /// failed. Completion and failure raise a notification; the end of the
    /// queue stops processing.
    pub fn apply(&mut self, event: QueueEvent<P>, now_secs: u64, output_exists: bool, start: P, done: P)
        ensures
            match event {
                QueueEvent::Processing { filename, path } => {
                    &&& status_view(final(self).status) == (2int, filename@)
                    &&& match first_entry_for(old(self).entries@, path@) {
                        Some(i) => queue_view(final(self).entries@) == queue_view(old(self).entries@).update(
                            i,
                            (path@, QueueStatus::Processing, start, queue_view(old(self).entries@)[i].3, old(self).entries@[i].completed_at),
                        ),
                        None => queue_view(final(self).entries@) == queue_view(old(self).entries@),
                    }
                    &&& toasts_view(final(self).toasts@) == toasts_view(old(self).toasts@)
                    &&& final(self).processing == old(self).processing
                },
                QueueEvent::Progress { filename, path, progress, message } => {
                    &&& status_view(final(self).status) == status_view(old(self).status)
                    &&& match first_entry_for(old(self).entries@, path@) {
                        Some(i) => queue_view(final(self).entries@) == queue_view(old(self).entries@).update(
                            i,
                            (path@, old(self).entries@[i].status, progress, queue_view(old(self).entries@)[i].3, old(self).entries@[i].completed_at),
                        ),
                        None => queue_view(final(self).entries@) == queue_view(old(self).entries@),
                    }
                    &&& toasts_view(final(self).toasts@) == toasts_view(old(self).toasts@)
                    &&& final(self).processing == old(self).processing
                },
                QueueEvent::Completed { filename, path, file_size, output_path } => {
                    &&& status_view(final(self).status) == status_view(old(self).status)
                    &&& match first_entry_for(old(self).entries@, path@) {
                        Some(i) => {
                            &&& queue_view(final(self).entries@) == queue_view(old(self).entries@).update(
                                i,
                                (path@, QueueStatus::Done, done, Some(output_path@), Some(now_secs)),
                            )
                            &&& string_views(final(self).recent_outputs@) == if output_exists {
                                recent_after(string_views(old(self).recent_outputs@), output_path@)
                            } else {
                                string_views(old(self).recent_outputs@)
                            }
                        },
                        None => {
                            &&& queue_view(final(self).entries@) == queue_view(old(self).entries@)
                            &&& string_views(final(self).recent_outputs@) == string_views(old(self).recent_outputs@)
                        },
                    }
                    &&& toasts_view(final(self).toasts@) == toasts_view(old(self).toasts@).push(
                        (filename@ + " processed"@, ToastKind::Success, now_secs),
                    )
                    &&& final(self).processing == old(self).processing
                },
                QueueEvent::Failed { filename, path, message } => {
                    &&& status_view(final(self).status) == status_view(old(self).status)
                    &&& match first_entry_for(old(self).entries@, path@) {
                        Some(i) => queue_view(final(self).entries@) == queue_view(old(self).entries@).update(
                            i,
                            (path@, QueueStatus::Error, old(self).entries@[i].progress, queue_view(old(self).entries@)[i].3, old(self).entries@[i].completed_at),
                        ),
                        None => queue_view(final(self).entries@) == queue_view(old(self).entries@),
                    }
                    &&& toasts_view(final(self).toasts@) == toasts_view(old(self).toasts@).push(
                        (filename@ + " failed: "@ + message@, ToastKind::Error, now_secs),
                    )
                    &&& final(self).processing == old(self).processing
                },
                QueueEvent::Finished => {
                    &&& !final(self).processing
                    &&& queue_view(final(self).entries@) == queue_view(old(self).entries@)
                    &&& toasts_view(final(self).toasts@) == toasts_view(old(self).toasts@)
                    &&& status_view(final(self).status) == status_view(old(self).status)
                },
            },
    {
        match event {
            QueueEvent::Processing { filename, path } => self.on_processing(filename, path, start),
            QueueEvent::Progress { filename: _, path, progress, message: _ } => self.on_progress(path, progress),
            QueueEvent::Completed { filename, path, file_size: _, output_path } => {
                self.on_completed(filename, path, output_path, now_secs, output_exists, done)
            },
            QueueEvent::Failed { filename, path, message } => self.on_failed(filename, path, message, now_secs),
            QueueEvent::Finished => {
                self.processing = false;
            },
        }
    }

    /// Add a file at the end of the queue, queued with progress `start`.
    pub fn add_file(&mut self, path: String, start: P)
        ensures
            queue_view(final(self).entries@) == queue_view(old(self).entries@).push(
                (path@, QueueStatus::Queued, start, None, None),
            ),
            final(self).processing == old(self).processing,
            toasts_view(final(self).toasts@) == toasts_view(old(self).toasts@),
    {
        let ghost before = self.entries@;
        let e = QueueEntry { path, status: QueueStatus::Queued, progress: start, output_path: None, completed_at: None };
        self.entries.push(e);
        assert(queue_view(self.entries@) =~= queue_view(before).push(queue_entry_view(e)));
    }

    /// Queue failed file `idx` again, with progress `start` and no finish
    /// time; any other file is left as it is. Returns whether it was
    /// queued again.
    pub fn retry(&mut self, idx: usize, start: P) -> (r: bool)
        requires
            idx < old(self).entries@.len(),
        ensures
            r == (old(self).entries@[idx as int].status == QueueStatus::Error),
            r ==> queue_view(final(self).entries@) == queue_view(old(self).entries@).update(
                idx as int,
                (old(self).entries@[idx as int].path@, QueueStatus::Queued, start, queue_view(old(self).entries@)[idx as int].3, None),
            ),
            !r ==> queue_view(final(self).entries@) == queue_view(old(self).entries@),
            final(self).processing == old(self).processing,
            toasts_view(final(self).toasts@) == toasts_view(old(self).toasts@),
    {
        let failed = match self.entries[idx].status {
            QueueStatus::Error => true,
            _ => false,
        };
        if failed {
            let out = self.entries[idx].output_path.clone();
            self.set_entry(idx, QueueStatus::Queued, start, out, None);
        }
        failed
    }

    /// Remove file `idx` from the queue where it is still waiting; a file
    /// being processed or finished stays. Returns whether it was removed.
    pub fn remove_queued(&mut self, idx: usize) -> (r: bool)
        requires
            idx < old(self).entries@.len(),
        ensures
            r == (old(self).entries@[idx as int].status == QueueStatus::Queued),
            r ==> final(self).entries@ == old(self).entries@.remove(idx as int),
            !r ==> final(self).entries@ == old(self).entries@,
            final(self).processing == old(self).processing,
            toasts_view(final(self).toasts@) == toasts_view(old(self).toasts@),
    {
        let queued = match self.entries[idx].status {
            QueueStatus::Queued => true,
            _ => false,
        };
        if queued {
            self.entries.remove(idx);
        }
        queued
    }

    /// Drop the files processed successfully; the others stay, in order.
    pub fn clear_completed(&mut self)
        ensures
            final(self).entries@ == old(self).entries@.filter(|e: QueueEntry<P>| e.status != QueueStatus::Done),
            final(self).processing == old(self).processing,
            toasts_view(final(self).toasts@) == toasts_view(old(self).toasts@),
    {
        let ghost pred = |e: QueueEntry<P>| e.status != QueueStatus::Done;
        let mut rest: Vec<QueueEntry<P>> = Vec::new();
        std::mem::swap(&mut rest, &mut self.entries);
        let ghost all = rest@;
        let mut kept: Vec<QueueEntry<P>> = Vec::new();
        assert(all.take(0) =~= Seq::<QueueEntry<P>>::empty());
        assert(all.skip(0) =~= all);
        while rest.len() > 0
            invariant
                rest@.len() <= all.len(),
                rest@ == all.skip(all.len() - rest@.len()),
                kept@ == all.take(all.len() - rest@.len()).filter(pred),
                pred == (|e: QueueEntry<P>| e.status != QueueStatus::Done),
            decreases rest@.len(),
        {
            let ghost n = all.len() - rest@.len();
            let e = rest.remove(0);
            proof {
                assert(e == all[n]);
                assert(all.skip(n).drop_first() =~= all.skip(n + 1));
                let t = all.take(n + 1);
                assert(t.drop_last() =~= all.take(n));
                assert(t.last() == all[n]);
                reveal(Seq::filter);
            }
            let done = match e.status {
                QueueStatus::Done => true,
                _ => false,
            };
            if !done {
                kept.push(e);
            }
        }
        proof {
            assert(all.take(all.len() as int) =~= all);
        }
        self.entries = kept;
    }

    /// How many files were processed successfully.
    pub fn done_count(&self) -> (r: usize)
        ensures
            r == self.entries@.filter(|e: QueueEntry<P>| e.status == QueueStatus::Done).len(),
    {
        let ghost pred = |e: QueueEntry<P>| e.status == QueueStatus::Done;
        let mut n: usize = 0;
        let mut i: usize = 0;
        assert(self.entries@.take(0) =~= Seq::<QueueEntry<P>>::empty());
        while i < self.entries.len()
            invariant
                i <= self.entries@.len(),
                n == self.entries@.take(i as int).filter(pred).len(),
                n <= i,
                pred == (|e: QueueEntry<P>| e.status == QueueStatus::Done),
            decreases self.entries.len() - i,
        {
            proof {
                let t = self.entries@.take(i + 1);
                assert(t.drop_last() =~= self.entries@.take(i as int));
                assert(t.last() == self.entries@[i as int]);
                reveal(Seq::filter);
            }
            let done = match self.entries[i].status {
                QueueStatus::Done => true,
                _ => false,
            };
            if done {
                n = n + 1;
            }
            i = i + 1;
        }
        proof {
            assert(self.entries@.take(self.entries@.len() as int) =~= self.entries@);
        }
        n
    }

    /// After a round of reports: drop the files finished more than
    /// [`FINISHED_VISIBLE_SECS`] ago, then keep only the newest
    /// [`MAX_BATCH_QUEUE`] entries.
    pub fn prune(&mut self, now_secs: u64)
        ensures
            ({
                let kept = old(self).entries@.filter(|e: QueueEntry<P>| still_shown(e, now_secs));
                &&& kept.len() <= MAX_BATCH_QUEUE ==> final(self).entries@ == kept
                &&& kept.len() > MAX_BATCH_QUEUE ==> final(self).entries@ == kept.skip(kept.len() - MAX_BATCH_QUEUE)
            }),
            final(self).entries@.len() <= MAX_BATCH_QUEUE,
            final(self).processing == old(self).processing,
            toasts_view(final(self).toasts@) == toasts_view(old(self).toasts@),
    {
        let ghost pred = |e: QueueEntry<P>| still_shown(e, now_secs);
        let mut rest: Vec<QueueEntry<P>> = Vec::new();
        std::mem::swap(&mut rest, &mut self.entries);
        let ghost all = rest@;
        let mut kept: Vec<QueueEntry<P>> = Vec::new();
        assert(all.take(0) =~= Seq::<QueueEntry<P>>::empty());
        assert(all.skip(0) =~= all);
        while rest.len() > 0
            invariant
                rest@.len() <= all.len(),
                rest@ == all.skip(all.len() - rest@.len()),
                kept@ == all.take(all.len() - rest@.len()).filter(pred),
                pred == (|e: QueueEntry<P>| still_shown(e, now_secs)),
            decreases rest@.len(),
        {
            let ghost n = all.len() - rest@.len();
            let e = rest.remove(0);
            proof {
                assert(e == all[n]);
                assert(all.skip(n).drop_first() =~= all.skip(n + 1));
                let t = all.take(n + 1);
                assert(t.drop_last() =~= all.take(n));
                assert(t.last() == all[n]);
                reveal(Seq::filter);
            }
            let finished = match e.status {
                QueueStatus::Done | QueueStatus::Error => true,
                _ => false,
            };
            let expired = match e.completed_at {
                Some(t) => now_secs > t && now_secs - t > FINISHED_VISIBLE_SECS,
                None => false,
            };
            if !(finished && expired) {
                kept.push(e);
            }
            proof {
                assert(kept@ =~= all.take(n + 1).filter(pred));
            }
        }
        proof {
            assert(all.take(all.len() as int) =~= all);
        }
        keep_newest(&mut kept, MAX_BATCH_QUEUE);
        self.entries = kept;
    }
}

} // verus!
