//! Batch processing bookkeeping: the intermediate files a run must clean up,
//! the duration probe, and the summary printed after a batch.
use vstd::prelude::*;

use crate::text::{append_str, chars_eq, chars_of, decimal, pad_left, push_decimal, push_padded, string_from_chars};
use crate::trim::{chunk_bounds, chunk_count, chunk_ranges};

verus! {

/// The ffprobe-based probe for video durations.
pub struct FfmpegDurationGetter;

/// The intermediate files of one run, removed when the run ends.
///
/// The final output is never among them, and no file is listed twice.
pub struct TempFileGuard {
    temps: Vec<String>,
    output: String,
}

/// The paths of a list of files.
pub open spec fn path_views(v: Seq<String>) -> Seq<Seq<char>> {
    v.map_values(|s: String| s@)
}

impl TempFileGuard {
    #[verifier::type_invariant]
    spec fn inv(self) -> bool {
        &&& path_views(self.temps@).no_duplicates()
        &&& !path_views(self.temps@).contains(self.output@)
    }

    /// The files that will be removed.
    pub closed spec fn tracked_paths(self) -> Seq<Seq<char>> {
        path_views(self.temps@)
    }

    /// The final output, which is kept.
    pub closed spec fn output_path(self) -> Seq<char> {
        self.output@
    }

    /// A guard for a run that writes `output`, with no files to remove yet.
    pub fn new(output: String) -> (r: Self)
        ensures
            r.tracked_paths() == Seq::<Seq<char>>::empty(),
            r.output_path() == output@,
            keeps_output(r.tracked_paths(), r.output_path()),
    {
        let r = TempFileGuard { temps: Vec::new(), output };
        assert(path_views(r.temps@) =~= Seq::<Seq<char>>::empty());
        r
    }

    fn position(&self, path: &Vec<char>) -> (r: Option<usize>)
        ensures
            r matches Some(i) ==> i < self.temps@.len() && self.temps@[i as int]@ == path@,
            r is None ==> !path_views(self.temps@).contains(path@),
    {
        let mut i: usize = 0;
        while i < self.temps.len()
            invariant
                i <= self.temps@.len(),
                forall|j: int| 0 <= j < i ==> self.temps@[j]@ != path@,
            decreases self.temps.len() - i,
        {
            let k = chars_of(self.temps[i].as_str());
            if chars_eq(&k, path) {
                return Some(i);
            }
            i = i + 1;
        }
        proof {
            if path_views(self.temps@).contains(path@) {
                let j = choose|j: int|
                    0 <= j < path_views(self.temps@).len() && path_views(self.temps@)[j] == path@;
                assert(self.temps@[j]@ == path@);
            }
        }
        None
    }

    /// Add an intermediate file, unless it is the final output or already
    /// listed.
    pub fn track(&mut self, path: String)
        ensures
            final(self).output_path() == old(self).output_path(),
            final(self).tracked_paths() == tracked_after(
                old(self).tracked_paths(),
                old(self).output_path(),
                path@,
            ),
            keeps_output(final(self).tracked_paths(), final(self).output_path()),
    {
        proof {
            use_type_invariant(&*self);
        }
        let p = chars_of(path.as_str());
        let out = chars_of(self.output.as_str());
        if chars_eq(&p, &out) {
            return;
        }
        match self.position(&p) {
            Some(i) => {
                assert(path_views(self.temps@)[i as int] == path@);
                return;
            },
            None => {},
        }
        let ghost old_temps = self.temps@;
        let mut temps: Vec<String> = Vec::new();
        std::mem::swap(&mut temps, &mut self.temps);
        temps.push(path);
        proof {
            assert(path_views(temps@) =~= path_views(old_temps).push(p@));
            assert forall|a: int, b: int|
                0 <= a < b < path_views(temps@).len() implies path_views(temps@)[a]
                != path_views(temps@)[b] by {
                if b == path_views(temps@).len() - 1 {
                    assert(path_views(old_temps)[a] == path_views(temps@)[a]);
                }
            }
            if path_views(temps@).contains(self.output@) {
                let j = choose|j: int|
                    0 <= j < path_views(temps@).len() && path_views(temps@)[j] == self.output@;
                if j < old_temps.len() {
                    assert(path_views(old_temps)[j] == self.output@);
                }
            }
        }
        self.temps = temps;
        proof {
            use_type_invariant(&*self);
        }
    }

    /// Stop tracking a file (every entry for it), so it is kept.
    pub fn untrack(&mut self, path: &str)
        ensures
            final(self).output_path() == old(self).output_path(),
            final(self).tracked_paths() == old(self).tracked_paths().filter(
                other_than(path@),
            ),
            !final(self).tracked_paths().contains(path@),
            keeps_output(final(self).tracked_paths(), final(self).output_path()),
    {
        proof {
            use_type_invariant(&*self);
        }
        let p = chars_of(path);
        let ghost old_views = path_views(self.temps@);
        let mut kept: Vec<String> = Vec::new();
        let mut i: usize = 0;
        while i < self.temps.len()
            invariant
                i <= self.temps@.len(),
                old_views == path_views(self.temps@),
                p@ == path@,
                path_views(kept@) == old_views.take(i as int).filter(other_than(path@)),
            decreases self.temps.len() - i,
        {
            let k = chars_of(self.temps[i].as_str());
            proof {
                assert(old_views.take(i + 1).drop_last() =~= old_views.take(i as int));
                reveal(Seq::filter);
            }
            if !chars_eq(&k, &p) {
                kept.push(self.temps[i].clone());
                assert(path_views(kept@) =~= old_views.take(i + 1).filter(other_than(path@)));
            } else {
                assert(path_views(kept@) =~= old_views.take(i + 1).filter(other_than(path@)));
            }
            i = i + 1;
        }
        proof {
            assert(old_views.take(self.temps@.len() as int) =~= old_views);
            lemma_filter_no_duplicates(old_views, other_than(path@));
            if path_views(kept@).contains(path@) {
                let j = choose|j: int|
                    0 <= j < path_views(kept@).len() && path_views(kept@)[j] == path@;
                old_views.lemma_filter_pred(other_than(path@), j);
            }
            if path_views(kept@).contains(self.output@) {
                old_views.lemma_filter_contains_rev(other_than(path@), self.output@);
            }
        }
        self.temps = kept;
        proof {
            use_type_invariant(&*self);
        }
    }

    /// The final output of the run.
    pub fn output(&self) -> (r: &String)
        ensures
            r@ == self.output_path(),
    {
        &self.output
    }

    /// The files to remove when the run ends.
    pub fn temps(&self) -> (r: &Vec<String>)
        ensures
            path_views(r@) == self.tracked_paths(),
    {
        &self.temps
    }
}

/// Every path but `p`.
pub open spec fn other_than(p: Seq<char>) -> spec_fn(Seq<char>) -> bool {
    |q: Seq<char>| q != p
}

/// The bookkeeping that every guard keeps: its final output is not among
/// the files to remove, and no file is listed twice.
pub open spec fn keeps_output(tracked_paths: Seq<Seq<char>>, output: Seq<char>) -> bool {
    &&& !tracked_paths.contains(output)
    &&& tracked_paths.no_duplicates()
}

/// The files tracked after adding `p` to `ts` for a run whose output is
/// `out`: unchanged where `p` is the output or already there, else `p` last.
pub open spec fn tracked_after(ts: Seq<Seq<char>>, out: Seq<char>, p: Seq<char>) -> Seq<Seq<char>> {
    if p == out || ts.contains(p) {
        ts
    } else {
        ts.push(p)
    }
}

/// Keeping only some elements of a list without repeats gives a list
/// without repeats.
proof fn lemma_filter_no_duplicates(s: Seq<Seq<char>>, p: spec_fn(Seq<char>) -> bool)
    requires
        s.no_duplicates(),
    ensures
        s.filter(p).no_duplicates(),
    decreases s.len(),
{
    reveal(Seq::filter);
    if s.len() > 0 {
        let rest = s.drop_last();
        assert(rest.no_duplicates()) by {
            assert forall|a: int, b: int| 0 <= a < b < rest.len() implies rest[a] != rest[b] by {
                assert(rest[a] == s[a] && rest[b] == s[b]);
            }
        }
        lemma_filter_no_duplicates(rest, p);
        if p(s.last()) {
            let f = rest.filter(p);
            if f.contains(s.last()) {
                rest.lemma_filter_contains_rev(p, s.last());
                let j = choose|j: int| 0 <= j < rest.len() && rest[j] == s.last();
                assert(s[j] == s[s.len() - 1]);
            }
            let g = f.push(s.last());
            assert forall|a: int, b: int| 0 <= a < b < g.len() implies g[a] != g[b] by {
                if b == g.len() - 1 {
                    assert(f.contains(f[a]));
                }
            }
        }
    }
}

/// The summary printed after a batch: totals, with the share of successful
/// and failed files in whole percent (rounded down; 0 for an empty batch),
/// numbers right-aligned to the width of the total (at least 3).
pub open spec fn batch_summary_text(total: nat, successful: nat, failed: nat, skipped: nat) -> Seq<
    char,
> {
    let width = if decimal(total).len() > 3 {
        decimal(total).len()
    } else {
        3
    };
    let s_pct = if total > 0 {
        successful * 100 / total
    } else {
        0
    };
    let f_pct = if total > 0 {
        failed * 100 / total
    } else {
        0
    };
    "\n=== BATCH SUMMARY ===\n"@ + "  Total files:     "@ + pad_left(decimal(total), width)
        + "\n"@ + "  \x1b[32mSuccessful:\x1b[0m      "@ + pad_left(decimal(successful), width)
        + " ("@ + decimal(s_pct) + "%)\n"@ + "  \x1b[31mFailed:\x1b[0m          "@ + pad_left(
        decimal(failed),
        width,
    ) + " ("@ + decimal(f_pct) + "%)\n"@ + "  \x1b[33mSkipped (done):\x1b[0m  "@ + pad_left(
        decimal(skipped),
        width,
    ) + "\n"@ + "=====================\n\n"@
}

/// The batch summary (see [`batch_summary_text`]), ready to print.
pub fn batch_summary(total: usize, successful: usize, failed: usize, skipped: usize) -> (r: String)
    requires
        successful * 100 <= usize::MAX,
        failed * 100 <= usize::MAX,
    ensures
        r@ == batch_summary_text(total as nat, successful as nat, failed as nat, skipped as nat),
{
    let mut total_digits: Vec<char> = Vec::new();
    push_decimal(&mut total_digits, total as u64);
    let width = if total_digits.len() > 3 {
        total_digits.len()
    } else {
        3
    };
    let s_pct = if total > 0 {
        successful * 100 / total
    } else {
        0
    };
    let f_pct = if total > 0 {
        failed * 100 / total
    } else {
        0
    };
    let mut v: Vec<char> = Vec::new();
    append_str(&mut v, "\n=== BATCH SUMMARY ===\n");
    append_str(&mut v, "  Total files:     ");
    push_padded(&mut v, &total_digits, width);
    append_str(&mut v, "\n");
    append_str(&mut v, "  \x1b[32mSuccessful:\x1b[0m      ");
    let mut d: Vec<char> = Vec::new();
    push_decimal(&mut d, successful as u64);
    push_padded(&mut v, &d, width);
    append_str(&mut v, " (");
    push_decimal(&mut v, s_pct as u64);
    append_str(&mut v, "%)\n");
    append_str(&mut v, "  \x1b[31mFailed:\x1b[0m          ");
    let mut d: Vec<char> = Vec::new();
    push_decimal(&mut d, failed as u64);
    push_padded(&mut v, &d, width);
    append_str(&mut v, " (");
    push_decimal(&mut v, f_pct as u64);
    append_str(&mut v, "%)\n");
    append_str(&mut v, "  \x1b[33mSkipped (done):\x1b[0m  ");
    let mut d: Vec<char> = Vec::new();
    push_decimal(&mut d, skipped as u64);
    push_padded(&mut v, &d, width);
    append_str(&mut v, "\n");
    append_str(&mut v, "=====================\n\n");
    string_from_chars(&v)
}

/// The outcome counts of a batch run: every file of the batch is counted
/// once, as processed successfully, failed, or skipped because an earlier
/// run completed it.
pub struct BatchTally {
    total: usize,
    successful: usize,
    failed: usize,
    skipped: usize,
}

impl BatchTally {
    #[verifier::type_invariant]
    spec fn inv(self) -> bool {
        &&& self.successful + self.failed + self.skipped <= self.total
        &&& self.total * 100 <= usize::MAX
    }

    /// The number of files in the batch.
    pub closed spec fn total_files(self) -> nat {
        self.total as nat
    }

    /// The counts so far: (successful, failed, skipped).
    pub closed spec fn counts(self) -> (nat, nat, nat) {
        (self.successful as nat, self.failed as nat, self.skipped as nat)
    }

    /// How many files have been counted.
    pub open spec fn seen(self) -> nat {
        self.counts().0 + self.counts().1 + self.counts().2
    }

    /// A batch of `total` files, none counted yet.
    pub fn new(total: usize) -> (r: Self)
        requires
            total * 100 <= usize::MAX,
        ensures
            r.total_files() == total,
            r.counts() == (0nat, 0nat, 0nat),
    {
        BatchTally { total, successful: 0, failed: 0, skipped: 0 }
    }

    /// Whether every file of the batch has been counted.
    pub fn is_done(&self) -> (r: bool)
        ensures
            r == (self.seen() == self.total_files()),
            self.seen() <= self.total_files(),
    {
        proof {
            use_type_invariant(self);
        }
        self.successful + self.failed + self.skipped == self.total
    }

    /// Count the next file as skipped.
    pub fn skip(&mut self)
        requires
            old(self).seen() < old(self).total_files(),
        ensures
            final(self).total_files() == old(self).total_files(),
            final(self).counts() == (old(self).counts().0, old(self).counts().1, old(self).counts().2 + 1),
    {
        proof {
            use_type_invariant(&*self);
        }
        self.skipped = self.skipped + 1;
    }

    /// Count the next file as processed, successfully or not.
    pub fn record(&mut self, ok: bool)
        requires
            old(self).seen() < old(self).total_files(),
        ensures
            final(self).total_files() == old(self).total_files(),
            ok ==> final(self).counts() == (old(self).counts().0 + 1, old(self).counts().1, old(self).counts().2),
            !ok ==> final(self).counts() == (old(self).counts().0, old(self).counts().1 + 1, old(self).counts().2),
    {
        proof {
            use_type_invariant(&*self);
        }
        if ok {
            self.successful = self.successful + 1;
        } else {
            self.failed = self.failed + 1;
        }
    }

    /// The summary of the batch so far (see [`batch_summary_text`]).
    pub fn summary(&self) -> (r: String)
        ensures
            r@ == batch_summary_text(
                self.total_files(),
                self.counts().0,
                self.counts().1,
                self.counts().2,
            ),
    {
        proof {
            use_type_invariant(self);
        }
        batch_summary(self.total, self.successful, self.failed, self.skipped)
    }
}

/// The files each worker of a parallel batch takes: consecutive runs of
/// `n / workers` files, rounded up (at least one worker is used), as index
/// ranges `[start, end)`.
pub open spec fn worker_run(n: nat, workers: nat) -> nat {
    let w = if workers == 0 {
        1
    } else {
        workers
    };
    ((n + w - 1) / (w as int)) as nat
}

/// How a parallel batch of `n` files is shared among `workers` workers (see
/// [`worker_run`]); each range is processed by one worker, in order.
pub fn worker_chunks(n: usize, workers: usize) -> (r: Vec<(usize, usize)>)
    ensures
        n == 0 ==> r@.len() == 0,
        n > 0 ==> r@.len() == chunk_count(n as nat, worker_run(n as nat, workers as nat)),
        n > 0 ==> forall|i: int| 0 <= i < r@.len() ==> #[trigger] r@[i] == chunk_bounds(
            n as nat,
            worker_run(n as nat, workers as nat),
            i,
        ),
        n > 0 ==> r@.len() <= (if workers == 0 { 1 } else { workers as int }),
{
    if n == 0 {
        return Vec::new();
    }
    let w = if workers == 0 {
        1
    } else {
        workers
    };
    let q = n / w;
    let size = if n % w == 0 {
        q
    } else {
        assert(w >= 2);
        assert(q < n) by (nonlinear_arith)
            requires q == n / w, w >= 2, n > 0;
        q + 1
    };
    proof {
        lemma_div_ceil(n as int, w as int);
    }
    let r = chunk_ranges(n, size);
    proof {
        lemma_run_count(n as int, w as int, size as int);
    }
    r
}

proof fn lemma_div_ceil(n: int, w: int)
    requires
        n > 0,
        w > 0,
    ensures
        n / w + (if n % w == 0 { 0int } else { 1int }) == (n + w - 1) / w,
        (n + w - 1) / w >= 1,
{
    assert(n / w + (if n % w == 0 { 0int } else { 1int }) == (n + w - 1) / w) by (nonlinear_arith)
        requires n > 0, w > 0;
    assert((n + w - 1) / w >= 1) by (nonlinear_arith)
        requires n > 0, w > 0;
}

proof fn lemma_run_count(n: int, w: int, size: int)
    requires
        n > 0,
        w > 0,
        size == (n + w - 1) / w,
    ensures
        (n + size - 1) / size <= w,
{
    assert(size * w >= n) by (nonlinear_arith)
        requires n > 0, w > 0, size == (n + w - 1) / w;
    assert(size >= 1) by (nonlinear_arith)
        requires n > 0, w > 0, size == (n + w - 1) / w;
    assert((n + size - 1) / size <= w) by (nonlinear_arith)
        requires size * w >= n, size >= 1, w > 0;
}

} // verus!
