//! File lists for ffmpeg's concat demuxer.
//!
//! Each file is one line `file '<path>'`. Inside the quotes a single quote
//! is written as `'\''`; the lists of trimmed chunks also write line breaks
//! in a path as `\n` and `\r`, so that every path stays on its own line.
use vstd::prelude::*;

use crate::text::{append_str, chars_of, last_lines_reversed, string_from_chars, tail_lines_reversed};

verus! {

/// The list text for one character of a path in the intro/outro list.
pub open spec fn quote_char(c: char) -> Seq<char> {
    if c == '\'' {
        "'\\''"@
    } else {
        seq![c]
    }
}

/// The list text for one character of a chunk path.
pub open spec fn chunk_char(c: char) -> Seq<char> {
    if c == '\'' {
        "'\\''"@
    } else if c == '\n' {
        "\\n"@
    } else if c == '\r' {
        "\\r"@
    } else {
        seq![c]
    }
}

/// A path with its single quotes escaped.
pub open spec fn quote_escaped(s: Seq<char>) -> Seq<char>
    decreases s.len(),
{
    if s.len() == 0 {
        Seq::empty()
    } else {
        quote_escaped(s.drop_last()) + quote_char(s.last())
    }
}

/// A chunk path with its single quotes and line breaks escaped.
pub open spec fn chunk_escaped(s: Seq<char>) -> Seq<char>
    decreases s.len(),
{
    if s.len() == 0 {
        Seq::empty()
    } else {
        chunk_escaped(s.drop_last()) + chunk_char(s.last())
    }
}

/// One line of a list.
pub open spec fn file_line(escaped: Seq<char>) -> Seq<char> {
    "file '"@ + escaped + "'\n"@
}

/// The intro/outro list: one line per path, in order.
pub open spec fn quote_list(paths: Seq<Seq<char>>) -> Seq<char>
    decreases paths.len(),
{
    if paths.len() == 0 {
        Seq::empty()
    } else {
        quote_list(paths.drop_last()) + file_line(quote_escaped(paths.last()))
    }
}

/// The chunk list: one line per path, in order.
pub open spec fn chunk_list(paths: Seq<Seq<char>>) -> Seq<char>
    decreases paths.len(),
{
    if paths.len() == 0 {
        Seq::empty()
    } else {
        chunk_list(paths.drop_last()) + file_line(chunk_escaped(paths.last()))
    }
}

/// The views of a list of paths.
pub open spec fn path_list_views(v: Seq<String>) -> Seq<Seq<char>> {
    v.map_values(|s: String| s@)
}

/// A line break is written as two characters, so an escaped chunk path
/// holds no line break.
pub proof fn lemma_chunk_escaped_single_line(s: Seq<char>)
    ensures
        !chunk_escaped(s).contains('\n'),
        !chunk_escaped(s).contains('\r'),
    decreases s.len(),
{
    if s.len() > 0 {
        lemma_chunk_escaped_single_line(s.drop_last());
        reveal_strlit("'\\''");
        reveal_strlit("\\n");
        reveal_strlit("\\r");
        let a = chunk_escaped(s.drop_last());
        let b = chunk_char(s.last());
        assert(chunk_escaped(s) == a + b);
        if (a + b).contains('\n') {
            let i = choose|i: int| 0 <= i < (a + b).len() && (a + b)[i] == '\n';
            if i < a.len() {
                assert(a[i] == '\n');
            }
        }
        if (a + b).contains('\r') {
            let i = choose|i: int| 0 <= i < (a + b).len() && (a + b)[i] == '\r';
            if i < a.len() {
                assert(a[i] == '\r');
            }
        }
    }
}

fn push_escaped(out: &mut Vec<char>, path: &str, chunk: bool)
    ensures
        chunk ==> final(out)@ == old(out)@ + chunk_escaped(path@),
        !chunk ==> final(out)@ == old(out)@ + quote_escaped(path@),
{
    let v = chars_of(path);
    let ghost start = out@;
    let mut i: usize = 0;
    while i < v.len()
        invariant
            i <= v@.len(),
            v@ == path@,
            chunk ==> out@ == start + chunk_escaped(path@.take(i as int)),
            !chunk ==> out@ == start + quote_escaped(path@.take(i as int)),
        decreases v.len() - i,
    {
        let c = v[i];
        let ghost before = out@;
        if c == '\'' {
            append_str(out, "'\\''");
        } else if chunk && c == '\n' {
            append_str(out, "\\n");
        } else if chunk && c == '\r' {
            append_str(out, "\\r");
        } else {
            out.push(c);
        }
        proof {
            assert(path@.take(i + 1).drop_last() =~= path@.take(i as int));
            assert(path@.take(i + 1).last() == c);
            if chunk {
                assert(out@ == before + chunk_char(c));
                assert(out@ =~= start + chunk_escaped(path@.take(i + 1)));
            } else {
                assert(out@ == before + quote_char(c));
                assert(out@ =~= start + quote_escaped(path@.take(i + 1)));
            }
        }
        i = i + 1;
    }
    assert(path@.take(v.len() as int) =~= path@);
}

fn list_text(paths: &[String], chunk: bool) -> (r: String)
    ensures
        chunk ==> r@ == chunk_list(path_list_views(paths@)),
        !chunk ==> r@ == quote_list(path_list_views(paths@)),
{
    let ghost views = path_list_views(paths@);
    let mut out: Vec<char> = Vec::new();
    let mut i: usize = 0;
    while i < paths.len()
        invariant
            i <= paths@.len(),
            views == path_list_views(paths@),
            chunk ==> out@ == chunk_list(views.take(i as int)),
            !chunk ==> out@ == quote_list(views.take(i as int)),
        decreases paths.len() - i,
    {
        let ghost before = out@;
        append_str(&mut out, "file '");
        push_escaped(&mut out, paths[i].as_str(), chunk);
        append_str(&mut out, "'\n");
        proof {
            assert(views.take(i + 1).drop_last() =~= views.take(i as int));
            assert(views.take(i + 1).last() == paths@[i as int]@);
            if chunk {
                assert(out@ =~= before + file_line(chunk_escaped(paths@[i as int]@)));
            } else {
                assert(out@ =~= before + file_line(quote_escaped(paths@[i as int]@)));
            }
        }
        i = i + 1;
    }
    assert(views.take(paths@.len() as int) =~= views);
    string_from_chars(&out)
}

/// The concat list that puts an intro and an outro around a video.
pub fn concat_list(paths: &[String]) -> (r: String)
    ensures
        r@ == quote_list(path_list_views(paths@)),
{
    list_text(paths, false)
}

/// The concat list that joins trimmed chunks back together.
pub fn chunk_concat_list(paths: &[String]) -> (r: String)
    ensures
        r@ == chunk_list(path_list_views(paths@)),
{
    list_text(paths, true)
}

/// The files to join for the intro and outro: the intro (if any), the
/// video, and the outro (if any).
pub open spec fn intro_outro_paths(intro: Option<Seq<char>>, main: Seq<char>, outro: Option<Seq<char>>) -> Seq<Seq<char>> {
    let head = match intro {
        Some(p) => seq![p],
        None => Seq::empty(),
    };
    let tail = match outro {
        Some(p) => seq![p],
        None => Seq::empty(),
    };
    head + seq![main] + tail
}

/// The list line for an optional file: `file '<path>'` with its quotes
/// escaped, or nothing.
pub open spec fn optional_line(p: Option<Seq<char>>) -> Seq<char> {
    match p {
        Some(q) => "file '"@ + quote_escaped(q) + "'\n"@,
        None => Seq::empty(),
    }
}

proof fn lemma_quote_list_push(ps: Seq<Seq<char>>, q: Seq<char>)
    ensures
        quote_list(ps.push(q)) == quote_list(ps) + ("file '"@ + quote_escaped(q) + "'\n"@),
{
    assert(ps.push(q).drop_last() =~= ps);
}

/// The intro and outro list holds every given file, one line each, in
/// order: the intro (where there is one) first, then the video, then the
/// outro (where there is one).
pub proof fn lemma_intro_outro_lines(intro: Option<Seq<char>>, main: Seq<char>, outro: Option<Seq<char>>)
    ensures
        quote_list(intro_outro_paths(intro, main, outro)) == optional_line(intro) + ("file '"@ + quote_escaped(main)
            + "'\n"@) + optional_line(outro),
{
    let head: Seq<Seq<char>> = match intro {
        Some(p) => seq![p],
        None => Seq::empty(),
    };
    assert(quote_list(Seq::<Seq<char>>::empty()) == Seq::<char>::empty());
    assert(quote_list(head) == optional_line(intro)) by {
        if let Some(p) = intro {
            assert(head =~= Seq::<Seq<char>>::empty().push(p));
            lemma_quote_list_push(Seq::<Seq<char>>::empty(), p);
            assert(Seq::<char>::empty() + ("file '"@ + quote_escaped(p) + "'\n"@) =~= optional_line(intro));
        }
    }
    let mid = head.push(main);
    assert(head + seq![main] =~= mid);
    lemma_quote_list_push(head, main);
    match outro {
        Some(p) => {
            assert(intro_outro_paths(intro, main, outro) =~= mid.push(p));
            lemma_quote_list_push(mid, p);
        },
        None => {
            assert(intro_outro_paths(intro, main, outro) =~= mid);
            assert(optional_line(outro) =~= Seq::<char>::empty());
        },
    }
    assert(quote_list(intro_outro_paths(intro, main, outro)) =~= optional_line(intro) + ("file '"@ + quote_escaped(main)
            + "'\n"@) + optional_line(outro));
}

/// The view of an optional path.
pub open spec fn opt_view(p: Option<&str>) -> Option<Seq<char>> {
    match p {
        Some(s) => Some(s@),
        None => None,
    }
}

/// The concat list for an intro and an outro around `main`; none where
/// there is neither, in which case the video is copied as it is.
pub fn intro_outro_list(intro: Option<&str>, main: &str, outro: Option<&str>) -> (r: Option<String>)
    ensures
        (intro is None && outro is None) ==> r is None,
        !(intro is None && outro is None) ==> (r matches Some(s) && s@ == quote_list(
            intro_outro_paths(opt_view(intro), main@, opt_view(outro)),
        )),
        !(intro is None && outro is None) ==> (r matches Some(s) && s@ == optional_line(opt_view(intro)) + (
        "file '"@ + quote_escaped(main@) + "'\n"@) + optional_line(opt_view(outro))),
{
    proof {
        lemma_intro_outro_lines(opt_view(intro), main@, opt_view(outro));
    }
    if intro.is_none() && outro.is_none() {
        return None;
    }
    let mut paths: Vec<String> = Vec::new();
    if let Some(p) = intro {
        paths.push(p.to_string());
    }
    paths.push(main.to_string());
    if let Some(p) = outro {
        paths.push(p.to_string());
    }
    assert(path_list_views(paths@) =~= intro_outro_paths(opt_view(intro), main@, opt_view(outro)));
    Some(concat_list(paths.as_slice()))
}

/// How trimmed chunks become the output.
#[derive(Debug, Clone)]
pub enum ChunkJoin {
    /// There is nothing to join: an error
    NoChunks,
    /// One chunk: it is copied to the output
    Single,
    /// Several chunks: joined with this concat list
    List(String),
}

/// How `chunks` become the output: an error for none, a copy for one, a
/// concat list for several.
pub fn plan_chunk_join(chunks: &[String]) -> (r: ChunkJoin)
    ensures
        chunks@.len() == 0 <==> r is NoChunks,
        chunks@.len() == 1 <==> r is Single,
        r matches ChunkJoin::List(s) ==> s@ == chunk_list(path_list_views(chunks@)),
{
    if chunks.len() == 0 {
        ChunkJoin::NoChunks
    } else if chunks.len() == 1 {
        ChunkJoin::Single
    } else {
        ChunkJoin::List(chunk_concat_list(chunks))
    }
}

/// What is reported of ffmpeg's error output when joining chunks fails:
/// its last five lines, last line first.
pub fn concat_failure_detail(stderr: &str) -> (r: String)
    ensures
        r@ == last_lines_reversed(stderr@, 5),
{
    tail_lines_reversed(stderr, 5)
}

} // verus!
