//! The decisions of the folder watcher and of the processing queue.
//!
//! The watcher polls its folders and processes each new video once; it
//! remembers the files it has already handled (the most recent ones, up to
//! a bound) so that a failed or finished file is not picked up again. The
//! queue processes a list of files into their output folders and reports a
//! summary at the end.
use vstd::prelude::*;
use std::collections::VecDeque;

use crate::paths::{
    extension, file_name, file_stem, join, path_extension, path_file_name, path_file_stem,
    path_join,
};
use crate::text::{append_str, chars_eq, chars_of, decimal, push_decimal, string_from_chars};

verus! {

/// How many handled files the watcher remembers.
pub const MAX_ATTEMPTED: usize = 10000;

/// What the watcher does with a file it finds in a watched folder.
#[derive(Debug, Clone, Copy, PartialEq, Eq, Structural)]
pub enum WatchAction {
    /// Not a video, or already handled: leave it alone
    Skip,
    /// Its output already exists: remember it as handled, without processing
    AlreadyDone,
    /// Process it, then remember it as handled
    Process,
}

/// The files the watcher has handled, oldest first, at most
/// [`MAX_ATTEMPTED`] of them.
pub struct AttemptedFiles {
    paths: VecDeque<String>,
}

/// The views of a list of paths.
pub open spec fn deque_views(s: Seq<String>) -> Seq<Seq<char>> {
    s.map_values(|p: String| p@)
}

/// The list after handling `p`: `p` is added last, and the oldest entry is
/// dropped where the list would exceed its bound.
pub open spec fn recorded(s: Seq<Seq<char>>, p: Seq<char>) -> Seq<Seq<char>> {
    if s.len() + 1 > MAX_ATTEMPTED {
        s.push(p).drop_first()
    } else {
        s.push(p)
    }
}

/// What the watcher does with a file: videos that were not handled yet and
/// have a file name are processed, or only remembered where their output
/// already exists.
pub open spec fn watch_action_for(
    is_video: bool,
    attempted: bool,
    has_file_name: bool,
    output_exists: bool,
) -> WatchAction {
    if !is_video || attempted || !has_file_name {
        WatchAction::Skip
    } else if output_exists {
        WatchAction::AlreadyDone
    } else {
        WatchAction::Process
    }
}

impl AttemptedFiles {
    #[verifier::type_invariant]
    spec fn inv(self) -> bool {
        self.paths@.len() <= MAX_ATTEMPTED
    }

    /// The handled files, oldest first.
    pub closed spec fn files(self) -> Seq<Seq<char>> {
        deque_views(self.paths@)
    }

    /// No file handled yet.
    pub fn new() -> (r: Self)
        ensures
            r.files() == Seq::<Seq<char>>::empty(),
    {
        let r = AttemptedFiles { paths: VecDeque::new() };
        assert(deque_views(r.paths@) =~= Seq::<Seq<char>>::empty());
        r
    }

    /// How many files are remembered.
    pub fn len(&self) -> (r: usize)
        ensures
            r == self.files().len(),
            r <= MAX_ATTEMPTED,
    {
        proof {
            use_type_invariant(self);
        }
        self.paths.len()
    }

    /// Whether `path` is among the handled files.
    pub fn contains(&self, path: &str) -> (r: bool)
        ensures
            r == self.files().contains(path@),
    {
        let p = chars_of(path);
        let mut i: usize = 0;
        while i < self.paths.len()
            invariant
                i <= self.paths@.len(),
                p@ == path@,
                forall|j: int| 0 <= j < i ==> self.paths@[j]@ != path@,
            decreases self.paths.len() - i,
        {
            let k = chars_of(self.paths[i].as_str());
            if chars_eq(&k, &p) {
                assert(deque_views(self.paths@)[i as int] == path@);
                return true;
            }
            i = i + 1;
        }
        proof {
            if deque_views(self.paths@).contains(path@) {
                let j = choose|j: int|
                    0 <= j < deque_views(self.paths@).len() && deque_views(self.paths@)[j]
                        == path@;
                assert(self.paths@[j]@ == path@);
            }
        }
        false
    }

    /// Remember `path` as handled, forgetting the oldest file where the
    /// bound would be exceeded.
    pub fn record(&mut self, path: String)
        ensures
            final(self).files() == recorded(old(self).files(), path@),
            final(self).files().len() <= MAX_ATTEMPTED,
            final(self).files().contains(path@),
    {
        proof {
            use_type_invariant(&*self);
        }
        let ghost old_views = deque_views(self.paths@);
        let ghost p = path@;
        let mut paths: VecDeque<String> = VecDeque::new();
        std::mem::swap(&mut paths, &mut self.paths);
        paths.push_back(path);
        assert(deque_views(paths@) =~= old_views.push(p));
        if paths.len() > MAX_ATTEMPTED {
            let ghost before = paths@;
            let _ = paths.pop_front();
            assert(deque_views(paths@) =~= deque_views(before).drop_first());
        }
        self.paths = paths;
        proof {
            let f = deque_views(self.paths@);
            assert(f[f.len() - 1] == p);
        }
    }

    /// The watcher's step for a file found in a watched folder: decide what
    /// to do with it, and remember it at once where its output already
    /// exists.
    pub fn on_file_found(
        &mut self,
        path: &str,
        is_video: bool,
        has_file_name: bool,
        output_exists: bool,
    ) -> (r: WatchAction)
        ensures
            r == watch_action_for(is_video, old(self).files().contains(path@), has_file_name, output_exists),
            r == WatchAction::AlreadyDone ==> final(self).files() == recorded(old(self).files(), path@),
            r != WatchAction::AlreadyDone ==> final(self).files() == old(self).files(),
    {
        if !is_video {
            return WatchAction::Skip;
        }
        let attempted = self.contains(path);
        if attempted || !has_file_name {
            return WatchAction::Skip;
        }
        if output_exists {
            self.record(path.to_string());
            return WatchAction::AlreadyDone;
        }
        WatchAction::Process
    }
}

/// Whether a processed file is picked up again: never, as long as fewer
/// than [`MAX_ATTEMPTED`] other files were handled after it.
pub proof fn lemma_recorded_not_reprocessed(
    s: Seq<Seq<char>>,
    p: Seq<char>,
    is_video: bool,
    has_file_name: bool,
    output_exists: bool,
)
    ensures
        watch_action_for(is_video, recorded(s, p).contains(p), has_file_name, output_exists)
            == WatchAction::Skip,
{
    let r = recorded(s, p);
    assert(r[r.len() - 1] == p);
}

/// The file name shown for a queued file: its last component, or
/// `unknown`.
pub open spec fn queue_label(path: Seq<char>) -> Seq<char> {
    match path_file_name(path) {
        Some(n) => n,
        None => "unknown"@,
    }
}

/// The label of a queued file (see [`queue_label`]).
pub fn queue_file_label(path: &str) -> (r: String)
    ensures
        r@ == queue_label(path@),
{
    match file_name(path) {
        Some(n) => n,
        None => "unknown".to_string(),
    }
}

/// The output of a queued file: in `output_dir`, named after the input's
/// stem (`output` where there is none) with the input's extension (`mp4`
/// where there is none).
pub open spec fn queue_output(path: Seq<char>, output_dir: Seq<char>) -> Seq<char> {
    let stem = match path_file_stem(path) {
        Some(s) => s,
        None => "output"@,
    };
    let ext = match path_extension(path) {
        Some(e) => e,
        None => "mp4"@,
    };
    path_join(output_dir, stem + "."@ + ext)
}

/// Where the queue writes the result for `path` (see [`queue_output`]).
pub fn queue_output_file(path: &str, output_dir: &str) -> (r: String)
    ensures
        r@ == queue_output(path@, output_dir@),
{
    let mut name: Vec<char> = match file_stem(path) {
        Some(s) => chars_of(s.as_str()),
        None => chars_of("output"),
    };
    append_str(&mut name, ".");
    match extension(path) {
        Some(e) => append_str(&mut name, e.as_str()),
        None => append_str(&mut name, "mp4"),
    }
    let name = string_from_chars(&name);
    join(output_dir, name.as_str())
}

/// The notification after the queue has run: how many files were
/// processed, with the number of failures where there were any.
pub open spec fn batch_complete_text(successful: nat, failed: nat) -> Seq<char> {
    let total = successful + failed;
    let plural = if total == 1 {
        ""@
    } else {
        "s"@
    };
    if failed == 0 {
        "Processed "@ + decimal(total) + " file"@ + plural + " successfully"@
    } else {
        "Processed "@ + decimal(total) + " file"@ + plural + " ("@ + decimal(failed) + " failed)"@
    }
}

/// The notification text after the queue has run (see
/// [`batch_complete_text`]).
pub fn batch_complete_message(successful: usize, failed: usize) -> (r: String)
    requires
        successful + failed <= usize::MAX,
    ensures
        r@ == batch_complete_text(successful as nat, failed as nat),
{
    let total = successful + failed;
    let mut v: Vec<char> = chars_of("Processed ");
    push_decimal(&mut v, total as u64);
    append_str(&mut v, " file");
    if total != 1 {
        append_str(&mut v, "s");
    }
    if failed == 0 {
        append_str(&mut v, " successfully");
    } else {
        append_str(&mut v, " (");
        push_decimal(&mut v, failed as u64);
        append_str(&mut v, " failed)");
    }
    proof {
        reveal_strlit("");
    }
    assert(v@ =~= batch_complete_text(successful as nat, failed as nat));
    string_from_chars(&v)
}

/// The desktop notification after a watched file was processed: its
/// title and body.
pub open spec fn ready_notification_text(label: Seq<char>) -> (Seq<char>, Seq<char>) {
    ("Processing Complete"@, label + " is ready"@)
}

/// The desktop notification after a watched file was processed (see
/// [`ready_notification_text`]).
pub fn ready_notification(label: &str) -> (r: (String, String))
    ensures
        (r.0@, r.1@) == ready_notification_text(label@),
{
    let mut b: Vec<char> = chars_of(label);
    append_str(&mut b, " is ready");
    ("Processing Complete".to_string(), string_from_chars(&b))
}

/// The desktop notification after a watched file failed: its title and
/// body, the file's label and the error.
pub open spec fn failed_notification_text(label: Seq<char>, error: Seq<char>) -> (Seq<char>, Seq<char>) {
    ("Processing Failed"@, label + ": "@ + error)
}

/// The desktop notification after a watched file failed (see
/// [`failed_notification_text`]).
pub fn failed_notification(label: &str, error: &str) -> (r: (String, String))
    ensures
        (r.0@, r.1@) == failed_notification_text(label@, error@),
{
    let mut b: Vec<char> = chars_of(label);
    append_str(&mut b, ": ");
    append_str(&mut b, error);
    ("Processing Failed".to_string(), string_from_chars(&b))
}

} // verus!
