//! Character-level text helpers shared by the rest of the library.
//!
//! Text is handled as `Vec<char>` in executable code and as `Seq<char>` in
//! specifications; `str` and `String` views are `Seq<char>` as well.
use vstd::prelude::*;

verus! {

// ───────────────────────── conversions ─────────────────────────

/// The characters of `s`, in order.
pub fn chars_of(s: &str) -> (r: Vec<char>)
    ensures
        r@ == s@,
{
    let mut r: Vec<char> = Vec::new();
    for c in it: s.chars()
        invariant
            r@ == it.seq().take(it.index() as int),
    {
        r.push(c);
    }
    r
}

/// `String::push`: appends one character to the end of the string.
#[verifier::external_body]
pub(crate) fn push_char(s: &mut String, c: char)
    ensures
        final(s)@ == old(s)@.push(c),
{
    s.push(c);
}

/// A `String` holding exactly the characters of `v`.
pub fn string_from_chars(v: &Vec<char>) -> (r: String)
    ensures
        r@ == v@,
{
    let mut r = String::new();
    let mut i: usize = 0;
    while i < v.len()
        invariant
            i <= v.len(),
            r@ == v@.take(i as int),
        decreases v.len() - i,
    {
        push_char(&mut r, v[i]);
        i = i + 1;
        assert(r@ == v@.take(i as int));
    }
    assert(v@.take(v.len() as int) == v@);
    r
}

/// Appends all characters of `t` to `v`.
pub fn append_str(v: &mut Vec<char>, t: &str)
    ensures
        final(v)@ == old(v)@ + t@,
{
    let tc = chars_of(t);
    append_chars(v, &tc);
}

/// Appends all characters of `t` to `v`.
pub fn append_chars(v: &mut Vec<char>, t: &Vec<char>)
    ensures
        final(v)@ == old(v)@ + t@,
{
    let ghost start = v@;
    let mut i: usize = 0;
    while i < t.len()
        invariant
            i <= t.len(),
            v@ == start + t@.take(i as int),
        decreases t.len() - i,
    {
        v.push(t[i]);
        i = i + 1;
        assert(v@ == start + t@.take(i as int));
    }
    assert(t@.take(t.len() as int) == t@);
}

/// A copy of the characters in `v[from..to]`.
pub fn sub_chars(v: &Vec<char>, from: usize, to: usize) -> (r: Vec<char>)
    requires
        from <= to <= v.len(),
    ensures
        r@ == v@.subrange(from as int, to as int),
{
    let mut r: Vec<char> = Vec::new();
    let mut i = from;
    while i < to
        invariant
            from <= i <= to <= v.len(),
            r@ == v@.subrange(from as int, i as int),
        decreases to - i,
    {
        r.push(v[i]);
        i = i + 1;
        assert(r@ == v@.subrange(from as int, i as int));
    }
    r
}

/// Whether two character vectors are equal.
pub fn chars_eq(a: &Vec<char>, b: &Vec<char>) -> (r: bool)
    ensures
        r == (a@ == b@),
{
    if a.len() != b.len() {
        return false;
    }
    let mut i: usize = 0;
    while i < a.len()
        invariant
            a.len() == b.len(),
            i <= a.len(),
            forall|j: int| 0 <= j < i ==> a@[j] == b@[j],
        decreases a.len() - i,
    {
        if a[i] != b[i] {
            return false;
        }
        i = i + 1;
    }
    assert(a@ =~= b@);
    true
}

/// Whether the characters in `a` spell out the string `b`.
pub fn chars_eq_str(a: &Vec<char>, b: &str) -> (r: bool)
    ensures
        r == (a@ == b@),
{
    let bc = chars_of(b);
    chars_eq(a, &bc)
}

// ───────────────────────── searching ─────────────────────────

/// `pat` occurs in `s` starting at position `i`.
pub open spec fn occurs_at(s: Seq<char>, pat: Seq<char>, i: int) -> bool {
    0 <= i && i + pat.len() <= s.len() && s.subrange(i, i + pat.len()) == pat
}

/// `pat` occurs somewhere in `s`.
pub open spec fn occurs_in(s: Seq<char>, pat: Seq<char>) -> bool {
    exists|i: int| occurs_at(s, pat, i)
}

/// Whether `pat` occurs in `s` at position `i`.
pub fn matches_at(s: &Vec<char>, pat: &Vec<char>, i: usize) -> (r: bool)
    ensures
        r == occurs_at(s@, pat@, i as int),
{
    if i > s.len() || pat.len() > s.len() - i {
        return false;
    }
    let mut k: usize = 0;
    while k < pat.len()
        invariant
            i + pat.len() <= s.len(),
            k <= pat.len(),
            forall|j: int| 0 <= j < k ==> s@[i + j] == pat@[j],
        decreases pat.len() - k,
    {
        if s[i + k] != pat[k] {
            assert(s@.subrange(i as int, i + pat.len())[k as int] != pat@[k as int]);
            return false;
        }
        k = k + 1;
    }
    assert(s@.subrange(i as int, i + pat.len()) =~= pat@);
    true
}

/// The first position at or after `from` where `pat` occurs in `s`.
pub fn find_from(s: &Vec<char>, pat: &Vec<char>, from: usize) -> (r: Option<usize>)
    ensures
        r matches Some(i) ==> from <= i && occurs_at(s@, pat@, i as int) && forall|j: int|
            from <= j < i ==> !#[trigger] occurs_at(s@, pat@, j),
        r is None ==> forall|j: int| from <= j ==> !#[trigger] occurs_at(s@, pat@, j),
{
    if from > s.len() {
        return None;
    }
    let mut i = from;
    loop
        invariant
            from <= i <= s.len(),
            forall|j: int| from <= j < i ==> !#[trigger] occurs_at(s@, pat@, j),
        decreases s.len() - i,
    {
        if matches_at(s, pat, i) {
            return Some(i);
        }
        if i == s.len() {
            return None;
        }
        i = i + 1;
    }
}

/// The first position in `s` where `pat` occurs.
pub fn find(s: &Vec<char>, pat: &Vec<char>) -> (r: Option<usize>)
    ensures
        r matches Some(i) ==> occurs_at(s@, pat@, i as int) && forall|j: int|
            0 <= j < i ==> !#[trigger] occurs_at(s@, pat@, j),
        r is None ==> !occurs_in(s@, pat@),
{
    let r = find_from(s, pat, 0);
    if r.is_none() {
        assert forall|j: int| !occurs_at(s@, pat@, j) by {
            if 0 <= j {
                assert(!occurs_at(s@, pat@, j));
            }
        }
    }
    r
}

/// Whether `pat` occurs in `s`.
pub fn contains(s: &Vec<char>, pat: &Vec<char>) -> (r: bool)
    ensures
        r == occurs_in(s@, pat@),
{
    match find(s, pat) {
        Some(i) => {
            assert(occurs_at(s@, pat@, i as int));
            true
        },
        None => false,
    }
}

/// Whether the string `pat` occurs in `s`.
pub fn contains_str(s: &Vec<char>, pat: &str) -> (r: bool)
    ensures
        r == occurs_in(s@, pat@),
{
    let p = chars_of(pat);
    contains(s, &p)
}

/// The first position of `c` in `s`.
pub fn find_char(s: &Vec<char>, c: char) -> (r: Option<usize>)
    ensures
        r matches Some(i) ==> i < s.len() && s@[i as int] == c && forall|j: int|
            0 <= j < i ==> s@[j] != c,
        r is None ==> forall|j: int| 0 <= j < s.len() ==> s@[j] != c,
{
    let mut i: usize = 0;
    while i < s.len()
        invariant
            i <= s.len(),
            forall|j: int| 0 <= j < i ==> s@[j] != c,
        decreases s.len() - i,
    {
        if s[i] == c {
            return Some(i);
        }
        i = i + 1;
    }
    None
}

/// The last position of `c` in `s`.
pub fn rfind_char(s: &Vec<char>, c: char) -> (r: Option<usize>)
    ensures
        r matches Some(i) ==> i < s.len() && s@[i as int] == c && forall|j: int|
            i < j < s.len() ==> s@[j] != c,
        r is None ==> forall|j: int| 0 <= j < s.len() ==> s@[j] != c,
{
    let mut i: usize = s.len();
    while i > 0
        invariant
            i <= s.len(),
            forall|j: int| i <= j < s.len() ==> s@[j] != c,
        decreases i,
    {
        if s[i - 1] == c {
            return Some(i - 1);
        }
        i = i - 1;
    }
    None
}


/// The first position where `pat` occurs in `s`, if it occurs.
pub open spec fn first_index(s: Seq<char>, pat: Seq<char>) -> Option<int> {
    if exists|i: int|
        occurs_at(s, pat, i) && forall|j: int| 0 <= j < i ==> !#[trigger] occurs_at(s, pat, j) {
        Some(
            choose|i: int|
                occurs_at(s, pat, i) && forall|j: int| 0 <= j < i ==> !#[trigger] occurs_at(s, pat, j),
        )
    } else {
        None
    }
}

/// A first occurrence is the one that `first_index` reports.
pub proof fn lemma_first_index(s: Seq<char>, pat: Seq<char>, i: int)
    requires
        occurs_at(s, pat, i),
        forall|j: int| 0 <= j < i ==> !#[trigger] occurs_at(s, pat, j),
    ensures
        first_index(s, pat) == Some(i),
{
    let k = choose|k: int|
        occurs_at(s, pat, k) && forall|j: int| 0 <= j < k ==> !#[trigger] occurs_at(s, pat, j);
    if k < i {
        assert(!occurs_at(s, pat, k));
    }
    if i < k {
        assert(!occurs_at(s, pat, i));
    }
}

/// Without any occurrence there is no first one.
pub proof fn lemma_first_index_none(s: Seq<char>, pat: Seq<char>)
    requires
        !occurs_in(s, pat),
    ensures
        first_index(s, pat) is None,
{
    if exists|i: int|
        occurs_at(s, pat, i) && forall|j: int| 0 <= j < i ==> !#[trigger] occurs_at(s, pat, j) {
        let i = choose|i: int|
            occurs_at(s, pat, i) && forall|j: int| 0 <= j < i ==> !#[trigger] occurs_at(s, pat, j);
        assert(occurs_in(s, pat));
    }
}

/// The first position where `pat` occurs in `s`, as `first_index` names it.
pub fn first_position(s: &Vec<char>, pat: &Vec<char>) -> (r: Option<usize>)
    ensures
        match r {
            Some(i) => first_index(s@, pat@) == Some(i as int) && occurs_at(s@, pat@, i as int),
            None => first_index(s@, pat@) is None && !occurs_in(s@, pat@),
        },
{
    let r = find(s, pat);
    proof {
        match r {
            Some(i) => lemma_first_index(s@, pat@, i as int),
            None => lemma_first_index_none(s@, pat@),
        }
    }
    r
}

/// The last position of `c` in `s`, if `c` occurs.
pub open spec fn last_char_index(s: Seq<char>, c: char) -> Option<int> {
    if exists|i: int| 0 <= i < s.len() && s[i] == c {
        Some(
            choose|i: int|
                0 <= i < s.len() && s[i] == c && forall|j: int| i < j < s.len() ==> s[j] != c,
        )
    } else {
        None
    }
}

/// The last position of `c` in `s`, as `last_char_index` names it.
pub fn last_position_of(s: &Vec<char>, c: char) -> (r: Option<usize>)
    ensures
        match r {
            Some(i) => last_char_index(s@, c) == Some(i as int) && i < s@.len(),
            None => last_char_index(s@, c) is None,
        },
{
    let r = rfind_char(s, c);
    proof {
        match r {
            Some(i) => {
                let k = choose|k: int|
                    0 <= k < s@.len() && s@[k] == c && forall|j: int| k < j < s@.len() ==> s@[j] != c;
                assert(0 <= i < s@.len() && s@[i as int] == c && forall|j: int|
                    i < j < s@.len() ==> s@[j] != c);
                if k < i {
                    assert(s@[i as int] != c);
                }
                if i < k {
                    assert(s@[k] != c);
                }
            },
            None => {},
        }
    }
    r
}


// ───────────────────────── lines ─────────────────────────

/// `l` without one trailing carriage return.
pub open spec fn strip_cr(l: Seq<char>) -> Seq<char> {
    if l.len() > 0 && l.last() == '\r' {
        l.drop_last()
    } else {
        l
    }
}

/// The lines of `s`, as `str::lines` yields them: split after each `\n`,
/// with the `\n` and a `\r` just before it removed; a final line without
/// `\n` is kept as it is, and no empty line follows a final `\n`.
pub open spec fn lines(s: Seq<char>) -> Seq<Seq<char>>
    decreases s.len(),
{
    if s.len() == 0 {
        Seq::empty()
    } else {
        match first_index(s, seq!['\n']) {
            None => seq![s],
            Some(i) => if 0 <= i < s.len() {
                seq![strip_cr(s.take(i))] + lines(s.skip(i + 1))
            } else {
                Seq::empty()
            },
        }
    }
}

proof fn lemma_newline_found(s: Seq<char>, k: int)
    requires
        0 <= k < s.len(),
        s[k] == '\n',
    ensures
        first_index(s, seq!['\n']) is Some,
    decreases k,
{
    if exists|j: int| 0 <= j < k && s[j] == '\n' {
        let j = choose|j: int| 0 <= j < k && s[j] == '\n';
        lemma_newline_found(s, j);
    } else {
        assert(s.subrange(k, k + 1) =~= seq!['\n']);
        assert forall|j: int| 0 <= j < k implies !#[trigger] occurs_at(s, seq!['\n'], j) by {
            if occurs_at(s, seq!['\n'], j) {
                assert(s.subrange(j, j + 1)[0] == s[j]);
            }
        }
        lemma_first_index(s, seq!['\n'], k);
    }
}

proof fn lemma_first_newline(s: Seq<char>)
    ensures
        match first_index(s, seq!['\n']) {
            None => !s.contains('\n'),
            Some(i) => 0 <= i < s.len() && s[i] == '\n' && forall|j: int| 0 <= j < i ==> s[j] != '\n',
        },
{
    match first_index(s, seq!['\n']) {
        None => {
            if s.contains('\n') {
                let k = choose|k: int| 0 <= k < s.len() && s[k] == '\n';
                lemma_newline_found(s, k);
            }
        },
        Some(i) => {
            assert(occurs_at(s, seq!['\n'], i));
            assert(s.subrange(i, i + 1)[0] == s[i]);
            assert forall|j: int| 0 <= j < i implies s[j] != '\n' by {
                if s[j] == '\n' {
                    assert(s.subrange(j, j + 1) =~= seq!['\n']);
                    assert(occurs_at(s, seq!['\n'], j));
                }
            }
        },
    }
}

/// Lines put back together, each followed by a line break.
pub open spec fn terminated_lines(ls: Seq<Seq<char>>) -> Seq<char>
    decreases ls.len(),
{
    if ls.len() == 0 {
        Seq::empty()
    } else {
        ls[0] + seq!['\n'] + terminated_lines(ls.drop_first())
    }
}

/// Splitting into lines loses no text: text without a line break is one
/// line, as it is; no line holds a line break; and, for text without
/// carriage returns, the lines each followed by a line break give the text
/// back, with a line break added at the end where it had none.
pub proof fn lemma_lines_lose_nothing(s: Seq<char>)
    ensures
        (s.len() > 0 && !s.contains('\n')) ==> lines(s) == seq![s],
        forall|k: int| 0 <= k < lines(s).len() ==> !(#[trigger] lines(s)[k]).contains('\n'),
        !s.contains('\r') ==> terminated_lines(lines(s)) == if s.len() == 0 || s.last() == '\n' {
            s
        } else {
            s + seq!['\n']
        },
    decreases s.len(),
{
    if s.len() == 0 {
        assert(lines(s) =~= Seq::<Seq<char>>::empty());
    } else {
        lemma_first_newline(s);
        match first_index(s, seq!['\n']) {
            None => {
                assert(lines(s) == seq![s]);
                let ls = lines(s);
                assert(ls.drop_first() =~= Seq::<Seq<char>>::empty());
                assert(terminated_lines(ls.drop_first()) =~= Seq::<char>::empty());
                assert(s.last() != '\n') by {
                    assert(s[s.len() - 1] == s.last());
                }
                assert(terminated_lines(ls) =~= s + seq!['\n']);
            },
            Some(i) => {
                let line = strip_cr(s.take(i));
                let rest = s.skip(i + 1);
                lemma_lines_lose_nothing(rest);
                let ls = lines(s);
                assert(ls =~= seq![line] + lines(rest));
                assert(!s.take(i).contains('\n')) by {
                    if s.take(i).contains('\n') {
                        let j = choose|j: int| 0 <= j < s.take(i).len() && s.take(i)[j] == '\n';
                        assert(s[j] == '\n');
                    }
                }
                assert(!line.contains('\n')) by {
                    if line.contains('\n') {
                        let j = choose|j: int| 0 <= j < line.len() && line[j] == '\n';
                        assert(s.take(i)[j] == '\n');
                    }
                }
                assert forall|k: int| 0 <= k < ls.len() implies !(#[trigger] ls[k]).contains('\n') by {
                    if k > 0 {
                        assert(ls[k] == lines(rest)[k - 1]);
                    }
                }
                if !s.contains('\r') {
                    assert(line == s.take(i)) by {
                        if i > 0 {
                            assert(s.take(i).last() == s[i - 1]);
                            if s[i - 1] == '\r' {
                                assert(s.contains('\r'));
                            }
                        }
                    }
                    assert(!rest.contains('\r')) by {
                        if rest.contains('\r') {
                            let j = choose|j: int| 0 <= j < rest.len() && rest[j] == '\r';
                            assert(s[i + 1 + j] == '\r');
                        }
                    }
                    assert(ls.drop_first() =~= lines(rest));
                    assert(terminated_lines(ls) == line + seq!['\n'] + terminated_lines(lines(rest)));
                    assert(s =~= s.take(i) + seq!['\n'] + rest);
                    if rest.len() == 0 {
                        assert(s.last() == '\n');
                        assert(terminated_lines(lines(rest)) =~= Seq::<char>::empty());
                        assert(terminated_lines(ls) =~= s);
                    } else {
                        assert(rest.last() == s.last());
                        if s.last() == '\n' {
                            assert(terminated_lines(ls) =~= s);
                        } else {
                            assert(terminated_lines(ls) =~= s + seq!['\n']);
                        }
                    }
                }
            },
        }
    }
}

/// The character views of a list of lines.
pub open spec fn line_views(v: Seq<Vec<char>>) -> Seq<Seq<char>> {
    v.map_values(|l: Vec<char>| l@)
}

/// The first position at or after `from` where `c` occurs in `v`.
pub fn find_char_from(v: &Vec<char>, c: char, from: usize) -> (r: Option<usize>)
    requires
        from <= v.len(),
    ensures
        r matches Some(i) ==> from <= i < v.len() && v@[i as int] == c && forall|j: int|
            from <= j < i ==> v@[j] != c,
        r is None ==> forall|j: int| from <= j < v.len() ==> v@[j] != c,
{
    let mut i = from;
    while i < v.len()
        invariant
            from <= i <= v.len(),
            forall|j: int| from <= j < i ==> v@[j] != c,
        decreases v.len() - i,
    {
        if v[i] == c {
            return Some(i);
        }
        i = i + 1;
    }
    None
}

/// The lines of `s` (see [`lines`]).
pub fn split_lines(s: &Vec<char>) -> (r: Vec<Vec<char>>)
    ensures
        line_views(r@) == lines(s@),
{
    let mut out: Vec<Vec<char>> = Vec::new();
    let mut p: usize = 0;
    assert(s@.skip(0) == s@);
    while p < s.len()
        invariant
            p <= s@.len(),
            lines(s@) == line_views(out@) + lines(s@.skip(p as int)),
        decreases s.len() - p,
    {
        let ghost rest = s@.skip(p as int);
        match find_char_from(s, '\n', p) {
            None => {
                proof {
                    assert forall|k: int| !occurs_at(rest, seq!['\n'], k) by {
                        if occurs_at(rest, seq!['\n'], k) {
                            assert(rest.subrange(k, k + 1)[0] == rest[k]);
                            assert(s@[p + k] == '\n');
                        }
                    }
                    lemma_first_index_none(rest, seq!['\n']);
                }
                let line = sub_chars(s, p, s.len());
                let ghost before = line_views(out@);
                out.push(line);
                proof {
                    assert(line_views(out@) =~= before.push(rest));
                    assert(line_views(out@) + lines(s@.skip(s@.len() as int)) =~= line_views(out@));
                    assert(lines(s@) =~= line_views(out@));
                }
                p = s.len();
            },
            Some(i) => {
                proof {
                    let k = i - p;
                    assert(rest.subrange(k, k + 1) =~= seq!['\n']);
                    assert forall|j: int| 0 <= j < k implies !#[trigger] occurs_at(rest, seq!['\n'], j) by {
                        if occurs_at(rest, seq!['\n'], j) {
                            assert(rest.subrange(j, j + 1)[0] == rest[j]);
                            assert(s@[p + j] == '\n');
                        }
                    }
                    lemma_first_index(rest, seq!['\n'], k);
                    assert(rest.skip(k + 1) =~= s@.skip(i + 1));
                }
                let mut end = i;
                if end > p && s[end - 1] == '\r' {
                    end = end - 1;
                }
                let line = sub_chars(s, p, end);
                let ghost before = line_views(out@);
                out.push(line);
                proof {
                    let k = i - p;
                    assert(line@ =~= strip_cr(rest.take(k)));
                    assert(line_views(out@) =~= before.push(line@));
                    assert(lines(rest) =~= seq![line@] + lines(s@.skip(i + 1)));
                    assert(lines(s@) =~= line_views(out@) + lines(s@.skip(i + 1)));
                }
                p = i + 1;
            },
        }
    }
    proof {
        assert(s@.skip(p as int) =~= Seq::<char>::empty());
        assert(line_views(out@) + lines(s@.skip(p as int)) =~= line_views(out@));
    }
    out
}

/// Lines joined with `\n` between them.
pub open spec fn joined_lines(ls: Seq<Seq<char>>) -> Seq<char>
    decreases ls.len(),
{
    if ls.len() == 0 {
        Seq::empty()
    } else if ls.len() == 1 {
        ls[0]
    } else {
        joined_lines(ls.drop_last()) + seq!['\n'] + ls.last()
    }
}

/// The last `k` lines of `s` (all of them where there are fewer), last line
/// first, joined with `\n`.
pub open spec fn last_lines_reversed(s: Seq<char>, k: nat) -> Seq<char> {
    let ls = lines(s).reverse();
    joined_lines(if ls.len() <= k { ls } else { ls.take(k as int) })
}

/// The last `k` lines of `s`, last line first (see [`last_lines_reversed`]).
pub fn tail_lines_reversed(s: &str, k: usize) -> (r: String)
    ensures
        r@ == last_lines_reversed(s@, k as nat),
{
    let v = chars_of(s);
    let ls = split_lines(&v);
    let ghost rev = line_views(ls@).reverse();
    let n = ls.len();
    let take = if n <= k { n } else { k };
    let mut out: Vec<char> = Vec::new();
    let mut j: usize = 0;
    while j < take
        invariant
            j <= take,
            take <= n,
            n == ls@.len(),
            rev == line_views(ls@).reverse(),
            out@ == joined_lines(rev.take(j as int)),
        decreases take - j,
    {
        let ghost before = out@;
        if j > 0 {
            out.push('\n');
        }
        append_chars(&mut out, &ls[n - 1 - j]);
        proof {
            let t = rev.take(j + 1);
            assert(t.drop_last() =~= rev.take(j as int));
            assert(rev[j as int] == ls@[n - 1 - j]@);
            assert(t.last() == rev[j as int]);
            if j == 0 {
                assert(out@ =~= joined_lines(t));
            } else {
                assert(out@ =~= joined_lines(rev.take(j as int)) + seq!['\n'] + t.last());
            }
        }
        j = j + 1;
    }
    proof {
        assert(lines(s@) == line_views(ls@));
        if n <= k {
            assert(rev.take(take as int) =~= rev);
        }
    }
    string_from_chars(&out)
}

// ───────────────────────── ordering ─────────────────────────

/// `a` sorts strictly before `b`: the order of `str` (bytewise on UTF-8,
/// which is the order of the characters' code points, a proper prefix
/// first).
pub open spec fn lex_lt(a: Seq<char>, b: Seq<char>) -> bool
    decreases a.len(),
{
    if a.len() == 0 {
        b.len() > 0
    } else if b.len() == 0 {
        false
    } else if a[0] == b[0] {
        lex_lt(a.drop_first(), b.drop_first())
    } else {
        a[0] < b[0]
    }
}

/// `a` sorts before `b` or equals it.
pub open spec fn lex_le(a: Seq<char>, b: Seq<char>) -> bool {
    !lex_lt(b, a)
}

/// The order is transitive.
pub proof fn lemma_lex_lt_transitive(a: Seq<char>, b: Seq<char>, c: Seq<char>)
    requires
        lex_lt(a, b),
        lex_lt(b, c),
    ensures
        lex_lt(a, c),
    decreases a.len(),
{
    if a.len() > 0 && b.len() > 0 && c.len() > 0 {
        if a[0] == b[0] && b[0] == c[0] {
            lemma_lex_lt_transitive(a.drop_first(), b.drop_first(), c.drop_first());
        }
    }
}

/// Of two different texts, one sorts before the other.
pub proof fn lemma_lex_trichotomy(a: Seq<char>, b: Seq<char>)
    ensures
        lex_lt(a, b) || lex_lt(b, a) || a == b,
    decreases a.len(),
{
    if a.len() == 0 && b.len() == 0 {
        assert(a =~= b);
    } else if a.len() > 0 && b.len() > 0 && a[0] == b[0] {
        lemma_lex_trichotomy(a.drop_first(), b.drop_first());
        if a.drop_first() == b.drop_first() {
            assert(a =~= seq![a[0]] + a.drop_first());
            assert(b =~= seq![b[0]] + b.drop_first());
        }
    }
}

/// Sorting before-or-equal is transitive.
pub proof fn lemma_lex_le_transitive(a: Seq<char>, b: Seq<char>, c: Seq<char>)
    requires
        lex_le(a, b),
        lex_le(b, c),
    ensures
        lex_le(a, c),
{
    if lex_lt(c, a) {
        lemma_lex_trichotomy(a, b);
        if lex_lt(a, b) {
            lemma_lex_lt_transitive(c, a, b);
        }
    }
}

/// Whether `a` sorts strictly before `b` (see [`lex_lt`]).
pub fn lex_less(a: &Vec<char>, b: &Vec<char>) -> (r: bool)
    ensures
        r == lex_lt(a@, b@),
{
    let mut i: usize = 0;
    assert(a@.skip(0) =~= a@);
    assert(b@.skip(0) =~= b@);
    while i < a.len() && i < b.len() && a[i] == b[i]
        invariant
            i <= a@.len(),
            i <= b@.len(),
            lex_lt(a@, b@) == lex_lt(a@.skip(i as int), b@.skip(i as int)),
        decreases a.len() - i,
    {
        let ghost sa = a@.skip(i as int);
        let ghost sb = b@.skip(i as int);
        assert(sa.drop_first() =~= a@.skip(i + 1));
        assert(sb.drop_first() =~= b@.skip(i + 1));
        i = i + 1;
    }
    let ghost sa = a@.skip(i as int);
    let ghost sb = b@.skip(i as int);
    if i == a.len() {
        assert(sa.len() == 0);
        i < b.len()
    } else if i == b.len() {
        false
    } else {
        assert(sa[0] == a@[i as int] && sb[0] == b@[i as int]);
        a[i] < b[i]
    }
}

/// A list of texts in order.
pub open spec fn sorted_texts(s: Seq<Seq<char>>) -> bool {
    forall|i: int, j: int| 0 <= i < j < s.len() ==> lex_le(#[trigger] s[i], #[trigger] s[j])
}

/// The texts of a list of strings.
pub open spec fn text_views(v: Seq<String>) -> Seq<Seq<char>> {
    v.map_values(|s: String| s@)
}

proof fn lemma_insert_multiset(s: Seq<Seq<char>>, i: int, x: Seq<char>)
    requires
        0 <= i <= s.len(),
    ensures
        s.insert(i, x).to_multiset() =~= s.to_multiset().insert(x),
{
    broadcast use vstd::seq_lib::group_to_multiset_ensures;
    let t = s.insert(i, x);
    assert(t.remove(i) =~= s);
    assert(t[i] == x);
    assert(t.contains(x));
}

/// The strings of `v` in order (see [`lex_lt`]).
pub fn sort_strings(v: Vec<String>) -> (r: Vec<String>)
    ensures
        sorted_texts(text_views(r@)),
        text_views(r@).to_multiset() == text_views(v@).to_multiset(),
{
    let mut out: Vec<String> = Vec::new();
    let mut i: usize = 0;
    proof {
        broadcast use vstd::seq_lib::group_to_multiset_ensures;
        assert(text_views(out@) =~= Seq::<Seq<char>>::empty());
        assert(text_views(v@).take(0) =~= Seq::<Seq<char>>::empty());
    }
    while i < v.len()
        invariant
            i <= v@.len(),
            sorted_texts(text_views(out@)),
            text_views(out@).to_multiset() == text_views(v@).take(i as int).to_multiset(),
        decreases v.len() - i,
    {
        let x = v[i].clone();
        let xc = chars_of(v[i].as_str());
        let mut j: usize = out.len();
        while j > 0 && lex_less(&xc, &chars_of(out[j - 1].as_str()))
            invariant
                j <= out@.len(),
                xc@ == v@[i as int]@,
                forall|k: int| j <= k < out@.len() ==> lex_lt(xc@, #[trigger] out@[k]@),
            decreases j,
        {
            j = j - 1;
        }
        let ghost before = text_views(out@);
        let ghost xv = v@[i as int]@;
        proof {
            assert(x@ == xv);
        }
        out.insert(j, x);
        proof {
            broadcast use vstd::seq_lib::group_to_multiset_ensures;
            assert(text_views(out@) =~= before.insert(j as int, xv));
            lemma_insert_multiset(before, j as int, xv);
            let t = text_views(v@).take(i + 1);
            assert(t =~= text_views(v@).take(i as int).push(xv));
            let now = text_views(out@);
            assert forall|a: int, b: int| 0 <= a < b < now.len() implies lex_le(
                #[trigger] now[a],
                #[trigger] now[b],
            ) by {
                if b < j {
                    assert(now[a] == before[a] && now[b] == before[b]);
                } else if a > j {
                    assert(now[a] == before[a - 1] && now[b] == before[b - 1]);
                } else if a == j {
                    assert(now[b] == before[b - 1]);
                    assert(lex_lt(xv, before[b - 1]));
                    lemma_lex_trichotomy(xv, before[b - 1]);
                    if lex_lt(before[b - 1], xv) {
                        lemma_lex_lt_transitive(xv, before[b - 1], xv);
                        lemma_lex_irreflexive(xv);
                    }
                } else if b > j {
                    assert(now[a] == before[a] && now[b] == before[b - 1]);
                } else {
                    // a < j == b: before[a] <= before[j - 1] <= x
                    assert(b == j);
                    assert(now[a] == before[a]);
                    assert(lex_le(before[j - 1], xv));
                    if a < j - 1 {
                        assert(lex_le(before[a], before[j - 1]));
                        lemma_lex_le_transitive(before[a], before[j - 1], xv);
                    }
                }
            }
        }
        i = i + 1;
    }
    proof {
        assert(text_views(v@).take(v@.len() as int) =~= text_views(v@));
    }
    out
}

/// Nothing sorts strictly before itself.
pub proof fn lemma_lex_irreflexive(a: Seq<char>)
    ensures
        !lex_lt(a, a),
    decreases a.len(),
{
    if a.len() > 0 {
        lemma_lex_irreflexive(a.drop_first());
    }
}

// ───────────────────────── whitespace ─────────────────────────

/// `c` has the Unicode `White_Space` property (what `char::is_whitespace` tests).
pub open spec fn is_ws(c: char) -> bool {
    ||| ('\t' <= c && c <= '\r')
    ||| c == ' '
    ||| c == '\u{85}'
    ||| c == '\u{a0}'
    ||| c == '\u{1680}'
    ||| ('\u{2000}' <= c && c <= '\u{200a}')
    ||| c == '\u{2028}'
    ||| c == '\u{2029}'
    ||| c == '\u{202f}'
    ||| c == '\u{205f}'
    ||| c == '\u{3000}'
}

/// Whether `c` is white space.
pub fn is_whitespace(c: char) -> (r: bool)
    ensures
        r == is_ws(c),
{
    ('\t' <= c && c <= '\r') || c == ' ' || c == '\u{85}' || c == '\u{a0}' || c == '\u{1680}' || (
    '\u{2000}' <= c && c <= '\u{200a}') || c == '\u{2028}' || c == '\u{2029}' || c == '\u{202f}'
        || c == '\u{205f}' || c == '\u{3000}'
}

/// Number of white-space characters at the start of `s`.
pub open spec fn lead_ws(s: Seq<char>) -> nat
    decreases s.len(),
{
    if s.len() > 0 && is_ws(s[0]) {
        1 + lead_ws(s.drop_first())
    } else {
        0
    }
}

/// Number of white-space characters at the end of `s`.
pub open spec fn trail_ws(s: Seq<char>) -> nat
    decreases s.len(),
{
    if s.len() > 0 && is_ws(s.last()) {
        1 + trail_ws(s.drop_last())
    } else {
        0
    }
}

/// `s` without leading white space (`str::trim_start`).
pub open spec fn trim_start(s: Seq<char>) -> Seq<char> {
    s.skip(lead_ws(s) as int)
}

/// `s` without trailing white space (`str::trim_end`).
pub open spec fn trim_end(s: Seq<char>) -> Seq<char> {
    s.take(s.len() - trail_ws(s))
}

/// `s` without leading and trailing white space (`str::trim`).
pub open spec fn trim(s: Seq<char>) -> Seq<char> {
    trim_end(trim_start(s))
}

/// `n` leading characters are white space and the next one (if any) is not:
/// then `n` is the length of the leading white space.
pub proof fn lemma_lead_ws(s: Seq<char>, n: int)
    requires
        0 <= n <= s.len(),
        forall|j: int| 0 <= j < n ==> is_ws(#[trigger] s[j]),
        n < s.len() ==> !is_ws(s[n]),
    ensures
        lead_ws(s) == n,
    decreases n,
{
    if n > 0 {
        let t = s.drop_first();
        assert forall|j: int| 0 <= j < n - 1 implies is_ws(#[trigger] t[j]) by {
            assert(t[j] == s[j + 1]);
        }
        if n - 1 < t.len() {
            assert(t[n - 1] == s[n]);
        }
        lemma_lead_ws(t, n - 1);
    }
}

/// `n` trailing characters are white space and the one before them (if any)
/// is not: then `n` is the length of the trailing white space.
pub proof fn lemma_trail_ws(s: Seq<char>, n: int)
    requires
        0 <= n <= s.len(),
        forall|j: int| s.len() - n <= j < s.len() ==> is_ws(#[trigger] s[j]),
        n < s.len() ==> !is_ws(s[s.len() - n - 1]),
    ensures
        trail_ws(s) == n,
    decreases n,
{
    if n > 0 {
        let t = s.drop_last();
        assert forall|j: int| t.len() - (n - 1) <= j < t.len() implies is_ws(#[trigger] t[j]) by {
            assert(t[j] == s[j]);
        }
        if n - 1 < t.len() {
            assert(t[t.len() - (n - 1) - 1] == s[s.len() - n - 1]);
        }
        lemma_trail_ws(t, n - 1);
    }
}

/// The number of leading white-space characters in `v[from..]`.
pub fn count_lead_ws(v: &Vec<char>, from: usize) -> (r: usize)
    requires
        from <= v.len(),
    ensures
        from + r <= v.len(),
        r == lead_ws(v@.skip(from as int)),
{
    let mut i = from;
    while i < v.len() && is_whitespace(v[i])
        invariant
            from <= i <= v.len(),
            forall|j: int| from <= j < i ==> is_ws(#[trigger] v@[j]),
        decreases v.len() - i,
    {
        i = i + 1;
    }
    proof {
        let t = v@.skip(from as int);
        assert forall|j: int| 0 <= j < i - from implies is_ws(#[trigger] t[j]) by {
            assert(t[j] == v@[from + j]);
        }
        if i - from < t.len() {
            assert(t[i - from] == v@[i as int]);
        }
        lemma_lead_ws(t, i - from);
    }
    i - from
}

/// The number of trailing white-space characters in `v[..to]`.
pub fn count_trail_ws(v: &Vec<char>, to: usize) -> (r: usize)
    requires
        to <= v.len(),
    ensures
        r <= to,
        r == trail_ws(v@.take(to as int)),
{
    let mut i = to;
    while i > 0 && is_whitespace(v[i - 1])
        invariant
            i <= to <= v.len(),
            forall|j: int| i <= j < to ==> is_ws(#[trigger] v@[j]),
        decreases i,
    {
        i = i - 1;
    }
    proof {
        let t = v@.take(to as int);
        assert forall|j: int| t.len() - (to - i) <= j < t.len() implies is_ws(#[trigger] t[j]) by {
            assert(t[j] == v@[j]);
        }
        if to - i < t.len() {
            assert(t[t.len() - (to - i) - 1] == v@[i - 1]);
        }
        lemma_trail_ws(t, to - i);
    }
    to - i
}

/// `v` without leading and trailing white space.
pub fn trimmed(v: &Vec<char>) -> (r: Vec<char>)
    ensures
        r@ == trim(v@),
{
    let a = count_lead_ws(v, 0);
    assert(v@.skip(0) == v@);
    let rest = sub_chars(v, a, v.len());
    assert(rest@ == trim_start(v@));
    let b = count_trail_ws(&rest, rest.len());
    assert(rest@.take(rest.len() as int) == rest@);
    sub_chars(&rest, 0, rest.len() - b)
}

// ───────────────────────── case ─────────────────────────

/// What `str::to_lowercase` returns for a string with characters `s`.
pub uninterp spec fn lowercase_of(s: Seq<char>) -> Seq<char>;

/// `c` with `A`–`Z` mapped to `a`–`z`.
pub open spec fn ascii_lower_char(c: char) -> char {
    if 'A' <= c && c <= 'Z' {
        ((c as u32) + 32) as char
    } else {
        c
    }
}

/// `s` with `A`–`Z` mapped to `a`–`z`.
pub open spec fn ascii_lower(s: Seq<char>) -> Seq<char> {
    s.map_values(|c: char| ascii_lower_char(c))
}

/// Lower-casing ASCII text gives ASCII text, and lower-casing it again
/// changes nothing.
pub proof fn lemma_ascii_lower_idempotent(s: Seq<char>)
    requires
        vstd::utf8::is_ascii_chars(s),
    ensures
        vstd::utf8::is_ascii_chars(ascii_lower(s)),
        ascii_lower(ascii_lower(s)) == ascii_lower(s),
{
    assert forall|i: int| 0 <= i < ascii_lower(s).len() implies '\0' <= #[trigger] ascii_lower(s)[i]
        <= '\u{7f}' by {
        let c = s[i];
        if 'A' <= c && c <= 'Z' {
            assert((c as u32) + 32 <= 0x7f);
        }
    }
    assert forall|i: int| 0 <= i < s.len() implies #[trigger] ascii_lower(ascii_lower(s))[i] == ascii_lower(s)[i] by {
        let c = s[i];
        if 'A' <= c && c <= 'Z' {
            assert((c as u32) + 32 >= 'a' as u32);
        }
    }
    assert(ascii_lower(ascii_lower(s)) =~= ascii_lower(s));
}

/// `str::to_lowercase`: the Unicode lowercase mapping of `s`. The result is
/// named by `lowercase_of`; the one further fact claimed is the documented
/// one for ASCII text, where `A`–`Z` become `a`–`z` and every other character
/// is kept.
#[verifier::external_body]
pub(crate) fn to_lowercase(s: &str) -> (r: String)
    ensures
        r@ == lowercase_of(s@),
        vstd::utf8::is_ascii_chars(s@) ==> r@ == ascii_lower(s@),
{
    s.to_lowercase()
}

// ───────────────────────── numbers ─────────────────────────

/// The decimal digit for `d` (`d < 10`).
pub open spec fn digit_char(d: nat) -> char {
    if d == 0 {
        '0'
    } else if d == 1 {
        '1'
    } else if d == 2 {
        '2'
    } else if d == 3 {
        '3'
    } else if d == 4 {
        '4'
    } else if d == 5 {
        '5'
    } else if d == 6 {
        '6'
    } else if d == 7 {
        '7'
    } else if d == 8 {
        '8'
    } else {
        '9'
    }
}

/// The decimal representation of `n`, without leading zeros.
pub open spec fn decimal(n: nat) -> Seq<char>
    decreases n,
{
    if n < 10 {
        seq![digit_char(n)]
    } else {
        decimal(n / 10).push(digit_char(n % 10))
    }
}

/// The character of the decimal digit `d`.
pub fn digit_of(d: u64) -> (r: char)
    requires
        d < 10,
    ensures
        r == digit_char(d as nat),
{
    if d == 0 {
        '0'
    } else if d == 1 {
        '1'
    } else if d == 2 {
        '2'
    } else if d == 3 {
        '3'
    } else if d == 4 {
        '4'
    } else if d == 5 {
        '5'
    } else if d == 6 {
        '6'
    } else if d == 7 {
        '7'
    } else if d == 8 {
        '8'
    } else {
        '9'
    }
}

/// Appends the decimal representation of `n` to `v`.
pub fn push_decimal(v: &mut Vec<char>, n: u64)
    ensures
        final(v)@ == old(v)@ + decimal(n as nat),
{
    let mut m = n;
    let mut suffix: Vec<char> = Vec::new();
    while m >= 10
        invariant
            decimal(n as nat) == decimal(m as nat) + suffix@,
        decreases m,
    {
        let d = digit_of(m % 10);
        suffix.insert(0, d);
        assert(decimal(m as nat) == decimal((m / 10) as nat).push(d));
        m = m / 10;
    }
    let ghost before = v@;
    v.push(digit_of(m));
    append_chars(v, &suffix);
    assert(v@ == before + decimal(n as nat));
}

/// `s` right-aligned in a field of `width` characters, padded with `fill`.
pub open spec fn pad_with(s: Seq<char>, width: nat, fill: char) -> Seq<char> {
    if s.len() >= width {
        s
    } else {
        Seq::new((width - s.len()) as nat, |_i: int| fill) + s
    }
}

/// `s` right-aligned in a field of `width` characters (padded with spaces).
pub open spec fn pad_left(s: Seq<char>, width: nat) -> Seq<char> {
    pad_with(s, width, ' ')
}

/// Appends `s` right-aligned in a field of `width` characters, padded with
/// `fill`.
pub fn push_padded_with(v: &mut Vec<char>, s: &Vec<char>, width: usize, fill: char)
    ensures
        final(v)@ == old(v)@ + pad_with(s@, width as nat, fill),
{
    let ghost before = v@;
    if s.len() < width {
        let pad = width - s.len();
        let mut k: usize = 0;
        while k < pad
            invariant
                k <= pad,
                v@ == before + Seq::new(k as nat, |_i: int| fill),
            decreases pad - k,
        {
            v.push(fill);
            k = k + 1;
            assert(v@ =~= before + Seq::new(k as nat, |_i: int| fill));
        }
    }
    append_chars(v, s);
    assert(v@ =~= before + pad_with(s@, width as nat, fill));
}

/// Appends `s` right-aligned in a field of `width` characters.
pub fn push_padded(v: &mut Vec<char>, s: &Vec<char>, width: usize)
    ensures
        final(v)@ == old(v)@ + pad_left(s@, width as nat),
{
    push_padded_with(v, s, width, ' ');
}

/// The lowercase hexadecimal digit for `d` (`d < 16`).
pub open spec fn hex_digit_char(d: nat) -> char {
    if d < 10 {
        digit_char(d)
    } else if d == 10 {
        'a'
    } else if d == 11 {
        'b'
    } else if d == 12 {
        'c'
    } else if d == 13 {
        'd'
    } else if d == 14 {
        'e'
    } else {
        'f'
    }
}

/// The lowercase hexadecimal representation of `n`, without leading zeros.
pub open spec fn hex(n: nat) -> Seq<char>
    decreases n,
{
    if n < 16 {
        seq![hex_digit_char(n)]
    } else {
        hex(n / 16).push(hex_digit_char(n % 16))
    }
}

fn hex_digit_of(d: u128) -> (r: char)
    requires
        d < 16,
    ensures
        r == hex_digit_char(d as nat),
{
    if d < 10 {
        digit_of(d as u64)
    } else if d == 10 {
        'a'
    } else if d == 11 {
        'b'
    } else if d == 12 {
        'c'
    } else if d == 13 {
        'd'
    } else if d == 14 {
        'e'
    } else {
        'f'
    }
}

/// The lowercase hexadecimal digits of `n`.
pub fn hex_chars(n: u128) -> (r: Vec<char>)
    ensures
        r@ == hex(n as nat),
{
    let mut m = n;
    let mut suffix: Vec<char> = Vec::new();
    while m >= 16
        invariant
            hex(n as nat) == hex(m as nat) + suffix@,
        decreases m,
    {
        let d = hex_digit_of(m % 16);
        suffix.insert(0, d);
        assert(hex(m as nat) == hex((m / 16) as nat).push(d));
        m = m / 16;
    }
    let mut v: Vec<char> = Vec::new();
    v.push(hex_digit_of(m));
    append_chars(&mut v, &suffix);
    assert(v@ =~= hex(n as nat));
    v
}

/// The decimal digits of `n`.
pub fn decimal_chars(n: u64) -> (r: Vec<char>)
    ensures
        r@ == decimal(n as nat),
{
    let mut v: Vec<char> = Vec::new();
    push_decimal(&mut v, n);
    assert(v@ =~= decimal(n as nat));
    v
}

} // verus!
