//! Bookkeeping for resumable batch runs: which files are done (with the
//! modification time recorded when they were done, in seconds since the
//! Unix epoch) and which failed.
use vstd::prelude::*;

use crate::paths::{file_name, join, path_file_name, path_join};
use crate::text::{append_str, chars_eq, chars_of, string_from_chars};

verus! {

/// Tracks progress of batch processing jobs so they can be resumed.
///
/// Each path occurs at most once among `completed` and at most once among
/// `failed` (see [`BatchProgress::wf`]).
#[derive(Debug, Clone)]
pub struct BatchProgress {
    /// Files that have been successfully processed, with the modification
    /// time (in seconds since the Unix epoch) recorded for each
    pub completed: Vec<(String, u64)>,
    /// Files that failed processing
    pub failed: Vec<String>,
    /// Total number of files in the batch
    pub total: usize,
}

/// The paths of the completed entries.
pub open spec fn completed_paths(c: Seq<(String, u64)>) -> Seq<Seq<char>> {
    c.map_values(|e: (String, u64)| e.0@)
}

/// The paths of the failed entries.
pub open spec fn failed_paths(f: Seq<String>) -> Seq<Seq<char>> {
    f.map_values(|e: String| e@)
}

/// The recorded modification time of `path` among the completed entries.
pub open spec fn saved_mtime(c: Seq<(String, u64)>, path: Seq<char>) -> Option<u64>
    decreases c.len(),
{
    if c.len() == 0 {
        None
    } else if c[0].0@ == path {
        Some(c[0].1)
    } else {
        saved_mtime(c.drop_first(), path)
    }
}

/// Whether a file with the given recorded and current modification times
/// counts as done: it does when it was recorded and either its current
/// modification time cannot be read or
/// it differs from the recorded one by at most 5 seconds.
pub open spec fn counts_as_done(saved: Option<u64>, current: Option<u64>) -> bool {
    match (saved, current) {
        (Some(s), Some(c)) => (if s >= c { s - c } else { c - s }) <= 5,
        (Some(_), None) => true,
        _ => false,
    }
}

/// The modification time of the last entry for `path`.
pub open spec fn last_mtime(c: Seq<(String, u64)>, path: Seq<char>) -> Option<u64>
    decreases c.len(),
{
    if c.len() == 0 {
        None
    } else if c.last().0@ == path {
        Some(c.last().1)
    } else {
        last_mtime(c.drop_last(), path)
    }
}

/// The distinct paths that are completed or failed.
pub open spec fn finished_paths(c: Seq<(String, u64)>, f: Seq<String>) -> Set<Seq<char>> {
    completed_paths(c).to_set() + failed_paths(f).to_set()
}

/// Where the progress of a batch over `input_dir` is kept inside `temp_dir`.
pub open spec fn progress_file_path(temp_dir: Seq<char>, input_dir: Seq<char>) -> Seq<char> {
    let dir_name = match path_file_name(input_dir) {
        Some(n) => n,
        None => "default"@,
    };
    path_join(temp_dir, "ai-vid-editor-progress-"@ + dir_name + ".json"@)
}

impl Default for BatchProgress {
    fn default() -> (r: Self)
        ensures
            r.completed@.len() == 0,
            r.failed@.len() == 0,
            r.total == 0,
    {
        BatchProgress { completed: Vec::new(), failed: Vec::new(), total: 0 }
    }
}

impl BatchProgress {
    /// No path is recorded twice as completed or twice as failed.
    pub open spec fn wf(&self) -> bool {
        &&& completed_paths(self.completed@).no_duplicates()
        &&& failed_paths(self.failed@).no_duplicates()
    }

    fn index_of_completed(&self, path: &Vec<char>) -> (r: Option<usize>)
        ensures
            r matches Some(i) ==> i < self.completed@.len() && self.completed@[i as int].0@ == path@
                && forall|j: int| 0 <= j < i ==> self.completed@[j].0@ != path@,
            r is None ==> forall|j: int| 0 <= j < self.completed@.len() ==> self.completed@[j].0@ != path@,
    {
        let mut i: usize = 0;
        while i < self.completed.len()
            invariant
                i <= self.completed@.len(),
                forall|j: int| 0 <= j < i ==> self.completed@[j].0@ != path@,
            decreases self.completed.len() - i,
        {
            let k = chars_of(self.completed[i].0.as_str());
            if chars_eq(&k, path) {
                return Some(i);
            }
            i = i + 1;
        }
        None
    }

    fn index_of_failed(&self, path: &Vec<char>) -> (r: Option<usize>)
        ensures
            r matches Some(i) ==> i < self.failed@.len() && self.failed@[i as int]@ == path@,
            r is None ==> forall|j: int| 0 <= j < self.failed@.len() ==> self.failed@[j]@ != path@,
    {
        let mut i: usize = 0;
        while i < self.failed.len()
            invariant
                i <= self.failed@.len(),
                forall|j: int| 0 <= j < i ==> self.failed@[j]@ != path@,
            decreases self.failed.len() - i,
        {
            let k = chars_of(self.failed[i].as_str());
            if chars_eq(&k, path) {
                return Some(i);
            }
            i = i + 1;
        }
        None
    }

    /// Check if a file has already been processed, given its current
    /// modification time in seconds since the Unix epoch (`None` where it
    /// cannot be read): it has been when it is recorded as completed and the
    /// two modification times agree within 5 seconds (timestamp precision),
    /// or when its current modification time is unknown.
    pub fn is_completed(&self, path: &str, current_mtime: Option<u64>) -> (r: bool)
        ensures
            r == counts_as_done(saved_mtime(self.completed@, path@), current_mtime),
    {
        let p = chars_of(path);
        let found = self.index_of_completed(&p);
        proof {
            lemma_saved_mtime_first(self.completed@, path@, found);
        }
        match found {
            Some(i) => {
                let saved = self.completed[i].1;
                match current_mtime {
                    Some(c) => {
                        let diff = if saved >= c {
                            saved - c
                        } else {
                            c - saved
                        };
                        diff <= 5
                    },
                    None => true,
                }
            },
            None => false,
        }
    }

    /// Mark a file as completed with its modification time (seconds since the
    /// Unix epoch): its entry is updated if it has one, else a new entry is
    /// added.
    pub fn mark_completed(&mut self, path: &str, mtime: u64)
        requires
            old(self).wf(),
        ensures
            final(self).wf(),
            final(self).failed == old(self).failed,
            final(self).total == old(self).total,
            saved_mtime(final(self).completed@, path@) == Some(mtime),
            forall|q: Seq<char>|
                q != path@ ==> #[trigger] saved_mtime(final(self).completed@, q) == saved_mtime(
                    old(self).completed@,
                    q,
                ),
            completed_paths(old(self).completed@).contains(path@) ==> completed_paths(
                final(self).completed@,
            ) == completed_paths(old(self).completed@),
            !completed_paths(old(self).completed@).contains(path@) ==> completed_paths(
                final(self).completed@,
            ) == completed_paths(old(self).completed@).push(path@),
    {
        let p = chars_of(path);
        let found = self.index_of_completed(&p);
        let ghost old_c = self.completed@;
        match found {
            Some(i) => {
                self.completed.set(i, (path.to_owned(), mtime));
                proof {
                    assert(completed_paths(old_c)[i as int] == path@);
                    assert(completed_paths(self.completed@) =~= completed_paths(old_c));
                    assert forall|q: Seq<char>| q != path@ implies #[trigger] saved_mtime(
                        self.completed@,
                        q,
                    ) == saved_mtime(old_c, q) by {
                        lemma_saved_mtime_update(old_c, i as int, self.completed@[i as int], q);
                    }
                    lemma_saved_mtime_update(old_c, i as int, self.completed@[i as int], path@);
                }
            },
            None => {
                self.completed.push((path.to_owned(), mtime));
                proof {
                    assert(completed_paths(self.completed@) =~= completed_paths(old_c).push(path@));
                    assert(!completed_paths(old_c).contains(path@)) by {
                        if completed_paths(old_c).contains(path@) {
                            let j = choose|j: int|
                                0 <= j < completed_paths(old_c).len() && completed_paths(old_c)[j]
                                    == path@;
                            assert(old_c[j].0@ == path@);
                        }
                    }
                    assert forall|q: Seq<char>| q != path@ implies #[trigger] saved_mtime(
                        self.completed@,
                        q,
                    ) == saved_mtime(old_c, q) by {
                        lemma_saved_mtime_push(old_c, self.completed@.last(), q);
                    }
                    lemma_saved_mtime_push(old_c, self.completed@.last(), path@);
                }
            },
        }
    }

    /// Progress of a batch of `total` files from lists of entries that may
    /// name a path more than once (as paths read back from storage can): a
    /// path completed more than once keeps the modification time of its last
    /// entry, and a path failed more than once is recorded once.
    pub fn from_entries(completed: Vec<(String, u64)>, failed: Vec<String>, total: usize) -> (r: Self)
        ensures
            r.wf(),
            r.total == total,
            forall|q: Seq<char>| #[trigger] saved_mtime(r.completed@, q) == last_mtime(completed@, q),
            failed_paths(r.failed@).to_set() == failed_paths(failed@).to_set(),
    {
        let mut r = BatchProgress { completed: Vec::new(), failed: Vec::new(), total };
        proof {
            assert(completed_paths(r.completed@) =~= Seq::<Seq<char>>::empty());
            assert(failed_paths(r.failed@) =~= Seq::<Seq<char>>::empty());
        }
        let mut i: usize = 0;
        while i < completed.len()
            invariant
                r.wf(),
                r.total == total,
                r.failed@.len() == 0,
                i <= completed@.len(),
                forall|q: Seq<char>| #[trigger] saved_mtime(r.completed@, q) == last_mtime(completed@.take(i as int), q),
            decreases completed.len() - i,
        {
            r.mark_completed(completed[i].0.as_str(), completed[i].1);
            proof {
                let t = completed@.take(i + 1);
                assert(t.drop_last() =~= completed@.take(i as int));
                assert forall|q: Seq<char>| #[trigger] saved_mtime(r.completed@, q) == last_mtime(t, q) by {
                    assert(last_mtime(t, q) == if t.last().0@ == q {
                        Some(t.last().1)
                    } else {
                        last_mtime(t.drop_last(), q)
                    });
                }
            }
            i = i + 1;
        }
        proof {
            assert(completed@.take(completed@.len() as int) =~= completed@);
            assert(failed@.take(0) =~= Seq::<String>::empty());
            assert(failed_paths(r.failed@).to_set() =~= failed_paths(failed@.take(0)).to_set());
        }
        let mut j: usize = 0;
        while j < failed.len()
            invariant
                r.wf(),
                r.total == total,
                j <= failed@.len(),
                forall|q: Seq<char>| #[trigger] saved_mtime(r.completed@, q) == last_mtime(completed@, q),
                failed_paths(r.failed@).to_set() == failed_paths(failed@.take(j as int)).to_set(),
            decreases failed.len() - j,
        {
            let ghost before = failed_paths(r.failed@);
            r.mark_failed(failed[j].as_str());
            proof {
                let x = failed@[j as int]@;
                assert(failed_paths(failed@.take(j + 1)) =~= failed_paths(failed@.take(j as int)).push(x));
                failed_paths(failed@.take(j as int)).lemma_push_to_set_commute(x);
                before.lemma_push_to_set_commute(x);
                if before.contains(x) {
                    assert(before.to_set().contains(x));
                    assert(before.to_set().insert(x) =~= before.to_set());
                }
            }
            j = j + 1;
        }
        proof {
            assert(failed@.take(failed@.len() as int) =~= failed@);
        }
        r
    }

    /// Mark a file as failed (recorded once, however often it fails).
    pub fn mark_failed(&mut self, path: &str)
        requires
            old(self).wf(),
        ensures
            final(self).wf(),
            final(self).completed == old(self).completed,
            final(self).total == old(self).total,
            failed_paths(old(self).failed@).contains(path@) ==> failed_paths(final(self).failed@)
                == failed_paths(old(self).failed@),
            !failed_paths(old(self).failed@).contains(path@) ==> failed_paths(final(self).failed@)
                == failed_paths(old(self).failed@).push(path@),
    {
        let p = chars_of(path);
        let found = self.index_of_failed(&p);
        let ghost old_f = self.failed@;
        match found {
            Some(i) => {
                proof {
                    assert(failed_paths(old_f)[i as int] == path@);
                }
            },
            None => {
                self.failed.push(path.to_owned());
                proof {
                    assert(failed_paths(self.failed@) =~= failed_paths(old_f).push(path@));
                    assert(!failed_paths(old_f).contains(path@)) by {
                        if failed_paths(old_f).contains(path@) {
                            let j = choose|j: int|
                                0 <= j < failed_paths(old_f).len() && failed_paths(old_f)[j]
                                    == path@;
                            assert(old_f[j]@ == path@);
                        }
                    }
                }
            },
        }
    }

    /// Get the number of remaining files: the total less the number of
    /// distinct files that are completed or failed (a file both completed
    /// and failed counts once), and 0 when those are more than the total.
    pub fn remaining(&self) -> (r: usize)
        requires
            self.wf(),
        ensures
            r == if finished_paths(self.completed@, self.failed@).len() <= self.total {
                self.total - finished_paths(self.completed@, self.failed@).len()
            } else {
                0
            },
    {
        let ghost a = completed_paths(self.completed@);
        let ghost b = failed_paths(self.failed@);
        proof {
            a.unique_seq_to_set();
            assert(b.take(0) =~= Seq::<Seq<char>>::empty());
            assert(a.to_set() + b.take(0).to_set() =~= a.to_set());
        }
        let mut r: usize = self.total.saturating_sub(self.completed.len());
        let ghost mut s: Set<Seq<char>> = a.to_set();
        let mut i: usize = 0;
        while i < self.failed.len()
            invariant
                self.wf(),
                a == completed_paths(self.completed@),
                b == failed_paths(self.failed@),
                i <= self.failed@.len(),
                s == a.to_set() + b.take(i as int).to_set(),
                s.finite(),
                r == if s.len() <= self.total {
                    self.total - s.len()
                } else {
                    0
                },
            decreases self.failed.len() - i,
        {
            let p = chars_of(self.failed[i].as_str());
            let found = self.index_of_completed(&p);
            proof {
                let x = b[i as int];
                b.take(i as int).lemma_push_to_set_commute(x);
                assert(b.take(i + 1) =~= b.take(i as int).push(x));
                assert(a.to_set() + b.take(i + 1).to_set() =~= s.insert(x));
                assert(!b.take(i as int).to_set().contains(x)) by {
                    if b.take(i as int).to_set().contains(x) {
                        let j = choose|j: int| 0 <= j < i && b.take(i as int)[j] == x;
                        assert(b[j] == b[i as int]);
                    }
                }
                if a.to_set().contains(x) {
                    let j = choose|j: int| 0 <= j < a.len() && a[j] == x;
                    assert(self.completed@[j].0@ == x);
                    assert(found is Some);
                } else {
                    assert(!s.contains(x));
                    if found is Some {
                        let k = found->0;
                        assert(a[k as int] == x);
                        assert(a.contains(x));
                        assert(a.to_set().contains(x));
                    }
                }
                s = s.insert(x);
            }
            if found.is_none() {
                r = r.saturating_sub(1);
            }
            i = i + 1;
        }
        proof {
            assert(b.take(b.len() as int) =~= b);
        }
        r
    }

    /// The progress file for `input_dir` inside `temp_dir` (the directory
    /// for temporary files): `ai-vid-editor-progress-<dir name>.json`, with
    /// `default` as the name where `input_dir` has no last component.
    pub fn default_path(temp_dir: &str, input_dir: &str) -> (r: String)
        ensures
            r@ == progress_file_path(temp_dir@, input_dir@),
    {
        let mut name: Vec<char> = chars_of("ai-vid-editor-progress-");
        match file_name(input_dir) {
            Some(n) => append_str(&mut name, n.as_str()),
            None => append_str(&mut name, "default"),
        }
        append_str(&mut name, ".json");
        let name = string_from_chars(&name);
        join(temp_dir, name.as_str())
    }
}

/// The first entry for `path` is the one `saved_mtime` reports.
proof fn lemma_saved_mtime_first(c: Seq<(String, u64)>, path: Seq<char>, found: Option<usize>)
    requires
        found matches Some(i) ==> i < c.len() && c[i as int].0@ == path && forall|j: int|
            0 <= j < i ==> c[j].0@ != path,
        found is None ==> forall|j: int| 0 <= j < c.len() ==> c[j].0@ != path,
    ensures
        saved_mtime(c, path) == match found {
            Some(i) => Some(c[i as int].1),
            None => None::<u64>,
        },
    decreases c.len(),
{
    if c.len() > 0 {
        let t = c.drop_first();
        match found {
            Some(i) => {
                if i > 0 {
                    assert forall|j: int| 0 <= j < (i - 1) as usize implies t[j].0@ != path by {
                        assert(t[j] == c[j + 1]);
                    }
                    assert(t[(i - 1) as int] == c[i as int]);
                    lemma_saved_mtime_first(t, path, Some((i - 1) as usize));
                }
            },
            None => {
                assert forall|j: int| 0 <= j < t.len() implies t[j].0@ != path by {
                    assert(t[j] == c[j + 1]);
                }
                lemma_saved_mtime_first(t, path, None);
            },
        }
    }
}

/// Replacing the entry at `i` (which holds `path`, recorded nowhere else)
/// by another entry for `path` changes the recorded time of `path` only.
proof fn lemma_saved_mtime_update(c: Seq<(String, u64)>, i: int, e: (String, u64), q: Seq<char>)
    requires
        0 <= i < c.len(),
        c[i].0@ == e.0@,
        completed_paths(c).no_duplicates(),
    ensures
        saved_mtime(c.update(i, e), q) == if q == e.0@ {
            Some(e.1)
        } else {
            saved_mtime(c, q)
        },
    decreases c.len(),
{
    let c2 = c.update(i, e);
    if i == 0 {
        assert(c2.drop_first() =~= c.drop_first());
        if q != e.0@ {
        }
    } else {
        let t = c.drop_first();
        assert(c2.drop_first() =~= t.update(i - 1, e));
        assert(completed_paths(t) =~= completed_paths(c).drop_first());
        if q == e.0@ {
            assert(completed_paths(c)[0] != completed_paths(c)[i]);
        }
        lemma_saved_mtime_update(t, i - 1, e, q);
    }
}

/// Appending an entry for a path not yet recorded changes only its recorded time.
proof fn lemma_saved_mtime_push(c: Seq<(String, u64)>, e: (String, u64), q: Seq<char>)
    requires
        forall|j: int| 0 <= j < c.len() ==> c[j].0@ != e.0@,
    ensures
        saved_mtime(c.push(e), q) == if q == e.0@ {
            Some(e.1)
        } else {
            saved_mtime(c, q)
        },
    decreases c.len(),
{
    if c.len() > 0 {
        let t = c.drop_first();
        assert(c.push(e).drop_first() =~= t.push(e));
        assert forall|j: int| 0 <= j < t.len() implies t[j].0@ != e.0@ by {
            assert(t[j] == c[j + 1]);
        }
        lemma_saved_mtime_push(t, e, q);
    } else {
        assert(c.push(e).drop_first() =~= c);
    }
}

/// Resuming a batch: a file recorded as completed with some modification
/// time is recognised as done, however much later, as long as it has not
/// been modified (its modification time is within 5 seconds of the recorded
/// one, or cannot be read); a file never recorded is not.
pub proof fn lemma_unchanged_file_is_done(
    c: Seq<(String, u64)>,
    path: Seq<char>,
    mtime: u64,
    current: Option<u64>,
)
    ensures
        saved_mtime(c, path) == Some(mtime) ==> counts_as_done(saved_mtime(c, path), current) == match current {
            Some(t) => (if mtime >= t { mtime - t } else { t - mtime }) <= 5,
            None => true,
        },
        saved_mtime(c, path) is None ==> !counts_as_done(saved_mtime(c, path), current),
        saved_mtime(c, path) == Some(mtime) ==> counts_as_done(saved_mtime(c, path), Some(mtime)),
{
}

} // verus!
