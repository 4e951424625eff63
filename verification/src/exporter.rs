//! Text escaping for the timeline files the editor exports.
use vstd::prelude::*;

use crate::text::{
    occurs_at, append_chars, append_str, chars_of, decimal, push_decimal, string_from_chars, sub_chars, trim,
    trimmed,
};

verus! {

/// The XML text for one character: the five markup characters become
/// entities, every other character stands for itself.
pub open spec fn xml_char(c: char) -> Seq<char> {
    if c == '&' {
        "&amp;"@
    } else if c == '<' {
        "&lt;"@
    } else if c == '>' {
        "&gt;"@
    } else if c == '"' {
        "&quot;"@
    } else if c == '\'' {
        "&apos;"@
    } else {
        seq![c]
    }
}

/// `s` with each character replaced by its XML text.
pub open spec fn xml_escaped(s: Seq<char>) -> Seq<char>
    decreases s.len(),
{
    if s.len() == 0 {
        Seq::empty()
    } else {
        xml_escaped(s.drop_last()) + xml_char(s.last())
    }
}

/// `c` may stand unescaped in XML text and attribute values.
pub open spec fn xml_safe(c: char) -> bool {
    c != '<' && c != '>' && c != '"' && c != '\''
}

proof fn lemma_xml_char_safe(c: char)
    ensures
        forall|i: int| 0 <= i < xml_char(c).len() ==> xml_safe(#[trigger] xml_char(c)[i]),
{
    reveal_strlit("&amp;");
    reveal_strlit("&lt;");
    reveal_strlit("&gt;");
    reveal_strlit("&quot;");
    reveal_strlit("&apos;");
}

/// Text without markup characters is left as it is.
pub proof fn lemma_xml_escape_plain(s: Seq<char>)
    requires
        forall|i: int| 0 <= i < s.len() ==> xml_safe(#[trigger] s[i]) && s[i] != '&',
    ensures
        xml_escaped(s) == s,
    decreases s.len(),
{
    if s.len() > 0 {
        lemma_xml_escape_plain(s.drop_last());
        assert(s.drop_last() + seq![s.last()] =~= s);
    }
}

/// The character an XML entity at the start of `t` stands for, with the
/// entity's length; none where `t` does not start with one of the five.
pub open spec fn entity_at_start(t: Seq<char>) -> Option<(char, nat)> {
    if occurs_at(t, "&amp;"@, 0) {
        Some(('&', 5))
    } else if occurs_at(t, "&lt;"@, 0) {
        Some(('<', 4))
    } else if occurs_at(t, "&gt;"@, 0) {
        Some(('>', 4))
    } else if occurs_at(t, "&quot;"@, 0) {
        Some(('"', 6))
    } else if occurs_at(t, "&apos;"@, 0) {
        Some(('\'', 6))
    } else {
        None
    }
}

/// XML text decoded from left to right: each of the five entities becomes
/// the character it stands for, every other character stands for itself.
pub open spec fn xml_decoded(t: Seq<char>) -> Seq<char>
    decreases t.len(),
{
    if t.len() == 0 {
        Seq::empty()
    } else {
        match entity_at_start(t) {
            Some((c, n)) => if 0 < n <= t.len() {
                seq![c] + xml_decoded(t.skip(n as int))
            } else {
                Seq::empty()
            },
            None => seq![t[0]] + xml_decoded(t.skip(1)),
        }
    }
}

/// Every `&` of `t` begins one of the five entities.
pub open spec fn ampersands_begin_entities(t: Seq<char>) -> bool {
    forall|i: int|
        0 <= i < t.len() && #[trigger] t[i] == '&' ==> entity_at_start(t.skip(i)) is Some
}

proof fn lemma_xml_escaped_front(s: Seq<char>)
    requires
        s.len() > 0,
    ensures
        xml_escaped(s) == xml_char(s[0]) + xml_escaped(s.drop_first()),
    decreases s.len(),
{
    if s.len() == 1 {
        assert(s.drop_last() =~= Seq::<char>::empty());
        assert(s.drop_first() =~= Seq::<char>::empty());
        assert(xml_escaped(s.drop_last()) =~= Seq::<char>::empty());
        assert(s.last() == s[0]);
        assert(xml_escaped(s) =~= xml_char(s[0]));
        assert(xml_char(s[0]) + Seq::<char>::empty() =~= xml_char(s[0]));
    } else {
        lemma_xml_escaped_front(s.drop_last());
        assert(s.drop_last().drop_first() =~= s.drop_first().drop_last());
        assert(s.drop_first().last() == s.last());
        assert(s.drop_last()[0] == s[0]);
        assert(xml_escaped(s) =~= xml_char(s[0]) + xml_escaped(s.drop_first()));
    }
}

proof fn lemma_entity_of_char(c: char, rest: Seq<char>)
    ensures
        entity_at_start(xml_char(c) + rest) == if c == '&' || c == '<' || c == '>' || c == '"'
            || c == '\'' {
            Some((c, xml_char(c).len()))
        } else {
            None::<(char, nat)>
        },
{
    reveal_strlit("&amp;");
    reveal_strlit("&lt;");
    reveal_strlit("&gt;");
    reveal_strlit("&quot;");
    reveal_strlit("&apos;");
    let t = xml_char(c) + rest;
    if c == '&' {
        assert(t.subrange(0, 5) =~= "&amp;"@);
    } else if c == '<' {
        assert(t.subrange(0, 4) =~= "&lt;"@);
        assert(t[1] != "&amp;"@[1]);
    } else if c == '>' {
        assert(t.subrange(0, 4) =~= "&gt;"@);
        assert(t[1] != "&amp;"@[1]);
        assert(t[1] != "&lt;"@[1]);
    } else if c == '"' {
        assert(t.subrange(0, 6) =~= "&quot;"@);
        assert(t[1] != "&amp;"@[1]);
        assert(t[1] != "&lt;"@[1]);
        assert(t[1] != "&gt;"@[1]);
    } else if c == '\'' {
        assert(t.subrange(0, 6) =~= "&apos;"@);
        assert(t[2] != "&amp;"@[2]);
        assert(t[1] != "&lt;"@[1]);
        assert(t[1] != "&gt;"@[1]);
        assert(t[1] != "&quot;"@[1]);
    } else {
        assert(t[0] == c);
        assert(t.subrange(0, 1)[0] == c);
        assert(!occurs_at(t, "&amp;"@, 0) && !occurs_at(t, "&lt;"@, 0) && !occurs_at(t, "&gt;"@, 0));
        assert(!occurs_at(t, "&quot;"@, 0) && !occurs_at(t, "&apos;"@, 0)) by {
            if occurs_at(t, "&quot;"@, 0) {
                assert(t.subrange(0, 6)[0] == t[0]);
            }
            if occurs_at(t, "&apos;"@, 0) {
                assert(t.subrange(0, 6)[0] == t[0]);
            }
        }
    }
}

/// Decoding escaped text gives the text back, and in escaped text every
/// `&` begins an entity.
pub proof fn lemma_xml_escape_roundtrip(s: Seq<char>)
    ensures
        xml_decoded(xml_escaped(s)) == s,
        ampersands_begin_entities(xml_escaped(s)),
    decreases s.len(),
{
    reveal_strlit("&amp;");
    reveal_strlit("&lt;");
    reveal_strlit("&gt;");
    reveal_strlit("&quot;");
    reveal_strlit("&apos;");
    if s.len() == 0 {
        assert(xml_escaped(s) =~= Seq::<char>::empty());
    } else {
        let c = s[0];
        let rest = xml_escaped(s.drop_first());
        lemma_xml_escaped_front(s);
        lemma_xml_escape_roundtrip(s.drop_first());
        lemma_entity_of_char(c, rest);
        let t = xml_char(c) + rest;
        let k = xml_char(c).len();
        assert(t.skip(k as int) =~= rest);
        assert(t.len() > 0);
        assert(xml_decoded(t) =~= seq![c] + s.drop_first());
        assert(seq![c] + s.drop_first() =~= s);
        assert forall|i: int| 0 <= i < t.len() && #[trigger] t[i] == '&' implies entity_at_start(
            t.skip(i),
        ) is Some by {
            if i < k {
                if c == '&' {
                    assert(i == 0);
                } else if c == '<' || c == '>' || c == '"' || c == '\'' {
                    assert(i == 0);
                } else {
                    assert(t[0] == c);
                }
                assert(t.skip(0) =~= t);
            } else {
                assert(rest[i - k] == '&');
                assert(t.skip(i) =~= rest.skip(i - k));
            }
        }
    }
}

/// `t` with every occurrence of `pat` replaced by `rep`, the occurrences
/// taken from left to right without overlapping (as `str::replace` does).
pub open spec fn replaced(t: Seq<char>, pat: Seq<char>, rep: Seq<char>) -> Seq<char>
    decreases t.len(),
{
    if t.len() == 0 || pat.len() == 0 {
        t
    } else if occurs_at(t, pat, 0) {
        rep + replaced(t.skip(pat.len() as int), pat, rep)
    } else {
        seq![t[0]] + replaced(t.skip(1), pat, rep)
    }
}

/// XML text decoded by successive replacements: `&quot;`, `&apos;`, `&lt;`,
/// `&gt;` and finally `&amp;` become the characters they stand for.
pub open spec fn xml_decoded_by_replacements(t: Seq<char>) -> Seq<char> {
    replaced(
        replaced(
            replaced(replaced(replaced(t, "&quot;"@, "\""@), "&apos;"@, "'"@), "&lt;"@, "<"@),
            "&gt;"@,
            ">"@,
        ),
        "&amp;"@,
        "&"@,
    )
}

/// The entity replaced in step `k` of [`xml_decoded_by_replacements`].
spec fn entity_pattern(k: nat) -> Seq<char> {
    if k == 0 {
        "&quot;"@
    } else if k == 1 {
        "&apos;"@
    } else if k == 2 {
        "&lt;"@
    } else if k == 3 {
        "&gt;"@
    } else {
        "&amp;"@
    }
}

/// The character that step `k` puts in place of its entity.
spec fn entity_char(k: nat) -> char {
    if k == 0 {
        '"'
    } else if k == 1 {
        '\''
    } else if k == 2 {
        '<'
    } else if k == 3 {
        '>'
    } else {
        '&'
    }
}

/// Whether the entity of `c` has been replaced by the first `k` steps.
spec fn decoded_by(k: nat, c: char) -> bool {
    ||| k >= 1 && c == '"'
    ||| k >= 2 && c == '\''
    ||| k >= 3 && c == '<'
    ||| k >= 4 && c == '>'
    ||| k >= 5 && c == '&'
}

/// The text standing for `c` after the first `k` steps.
spec fn partial_chunk(k: nat, c: char) -> Seq<char> {
    if decoded_by(k, c) {
        seq![c]
    } else {
        xml_char(c)
    }
}

/// The text standing for `s` after the first `k` steps.
spec fn partial_text(k: nat, s: Seq<char>) -> Seq<char>
    decreases s.len(),
{
    if s.len() == 0 {
        Seq::empty()
    } else {
        partial_chunk(k, s[0]) + partial_text(k, s.drop_first())
    }
}

/// Replacing an entity leaves text without `&` in front as it is.
proof fn lemma_replaced_plain_front(x: Seq<char>, rest: Seq<char>, pat: Seq<char>, rep: Seq<char>)
    requires
        pat.len() > 0,
        pat[0] == '&',
        forall|i: int| 0 <= i < x.len() ==> x[i] != '&',
    ensures
        replaced(x + rest, pat, rep) == x + replaced(rest, pat, rep),
    decreases x.len(),
{
    let t = x + rest;
    if x.len() == 0 {
        assert(t =~= rest);
    } else {
        assert(t[0] == x[0]);
        if occurs_at(t, pat, 0) {
            assert(t.subrange(0, pat.len() as int)[0] == t[0]);
        }
        assert(t.skip(1) =~= x.skip(1) + rest);
        lemma_replaced_plain_front(x.skip(1), rest, pat, rep);
        assert(seq![x[0]] + (x.skip(1) + replaced(rest, pat, rep)) =~= x + replaced(rest, pat, rep));
    }
}

proof fn lemma_entity_literals()
    ensures
        "&amp;"@ =~= seq!['&', 'a', 'm', 'p', ';'],
        "&lt;"@ =~= seq!['&', 'l', 't', ';'],
        "&gt;"@ =~= seq!['&', 'g', 't', ';'],
        "&quot;"@ =~= seq!['&', 'q', 'u', 'o', 't', ';'],
        "&apos;"@ =~= seq!['&', 'a', 'p', 'o', 's', ';'],
        "\""@ =~= seq!['"'],
        "'"@ =~= seq!['\''],
        "<"@ =~= seq!['<'],
        ">"@ =~= seq!['>'],
        "&"@ =~= seq!['&'],
{
    reveal_strlit("&amp;");
    reveal_strlit("&lt;");
    reveal_strlit("&gt;");
    reveal_strlit("&quot;");
    reveal_strlit("&apos;");
    reveal_strlit("\"");
    reveal_strlit("'");
    reveal_strlit("<");
    reveal_strlit(">");
    reveal_strlit("&");
}

/// Step `k` turns the text of one character into its text after the step,
/// and goes on with what follows.
#[verifier::rlimit(40)]
proof fn lemma_step_chunk(k: nat, c: char, rest: Seq<char>)
    requires
        k < 5,
    ensures
        replaced(partial_chunk(k, c) + rest, entity_pattern(k), seq![entity_char(k)]) == partial_chunk(k + 1, c)
            + replaced(rest, entity_pattern(k), seq![entity_char(k)]),
{
    lemma_entity_literals();
    let x = partial_chunk(k, c);
    let pat = entity_pattern(k);
    let rep = seq![entity_char(k)];
    let t = x + rest;
    if c == entity_char(k) {
        assert(x == pat);
        assert(t.subrange(0, pat.len() as int) =~= pat);
        assert(t.skip(pat.len() as int) =~= rest);
        assert(partial_chunk(k + 1, c) == rep);
    } else {
        assert(partial_chunk(k + 1, c) == x);
        if forall|i: int| 0 <= i < x.len() ==> x[i] != '&' {
            lemma_replaced_plain_front(x, rest, pat, rep);
        } else {
            assert(x == xml_char(c));
            assert(x.len() >= 4 && x[0] == '&');
            assert(t[0] == '&' && t[1] == x[1] && t[2] == x[2]);
            if occurs_at(t, pat, 0) {
                assert(t.subrange(0, pat.len() as int)[1] == pat[1]);
                assert(t.subrange(0, pat.len() as int)[2] == pat[2]);
            }
            assert(t.skip(1) =~= x.skip(1) + rest);
            lemma_replaced_plain_front(x.skip(1), rest, pat, rep);
            assert(seq![x[0]] + (x.skip(1) + replaced(rest, pat, rep)) =~= x + replaced(rest, pat, rep));
        }
    }
}

/// Step `k` turns the text of `s` after the first `k` steps into its text
/// after the first `k + 1`.
proof fn lemma_step_text(k: nat, s: Seq<char>)
    requires
        k < 5,
    ensures
        replaced(partial_text(k, s), entity_pattern(k), seq![entity_char(k)]) == partial_text(k + 1, s),
    decreases s.len(),
{
    if s.len() == 0 {
    } else {
        lemma_step_text(k, s.drop_first());
        lemma_step_chunk(k, s[0], partial_text(k, s.drop_first()));
    }
}

proof fn lemma_partial_text_ends(s: Seq<char>)
    ensures
        partial_text(0, s) == xml_escaped(s),
        partial_text(5, s) == s,
    decreases s.len(),
{
    if s.len() == 0 {
        assert(xml_escaped(s) =~= Seq::<char>::empty());
    } else {
        lemma_partial_text_ends(s.drop_first());
        lemma_xml_escaped_front(s);
        assert(seq![s[0]] + s.drop_first() =~= s);
    }
}

/// Escaped text decoded by successive replacements (`&quot;`, `&apos;`,
/// `&lt;`, `&gt;`, then `&amp;`) gives the text back.
pub proof fn lemma_xml_escape_replacements_roundtrip(s: Seq<char>)
    ensures
        xml_decoded_by_replacements(xml_escaped(s)) == s,
{
    lemma_entity_literals();
    lemma_partial_text_ends(s);
    lemma_step_text(0, s);
    lemma_step_text(1, s);
    lemma_step_text(2, s);
    lemma_step_text(3, s);
    lemma_step_text(4, s);
    assert(entity_pattern(0) == "&quot;"@ && seq![entity_char(0)] == "\""@);
    assert(entity_pattern(1) == "&apos;"@ && seq![entity_char(1)] == "'"@);
    assert(entity_pattern(2) == "&lt;"@ && seq![entity_char(2)] == "<"@);
    assert(entity_pattern(3) == "&gt;"@ && seq![entity_char(3)] == ">"@);
    assert(entity_pattern(4) == "&amp;"@ && seq![entity_char(4)] == "&"@);
}

/// Escape special XML characters in a string: `&`, `<`, `>`, `"` and `'`
/// become `&amp;`, `&lt;`, `&gt;`, `&quot;` and `&apos;`.
///
/// The result holds no `<`, `>`, `"` or `'`, so it can stand inside an
/// element or a quoted attribute.
pub fn xml_escape(s: &str) -> (r: String)
    ensures
        r@ == xml_escaped(s@),
        forall|i: int| 0 <= i < r@.len() ==> xml_safe(#[trigger] r@[i]),
{
    let v = chars_of(s);
    let mut out: Vec<char> = Vec::new();
    let mut i: usize = 0;
    while i < v.len()
        invariant
            i <= v@.len(),
            v@ == s@,
            out@ == xml_escaped(s@.take(i as int)),
            forall|k: int| 0 <= k < out@.len() ==> xml_safe(#[trigger] out@[k]),
        decreases v.len() - i,
    {
        let c = v[i];
        let ghost before = out@;
        if c == '&' {
            append_str(&mut out, "&amp;");
        } else if c == '<' {
            append_str(&mut out, "&lt;");
        } else if c == '>' {
            append_str(&mut out, "&gt;");
        } else if c == '"' {
            append_str(&mut out, "&quot;");
        } else if c == '\'' {
            append_str(&mut out, "&apos;");
        } else {
            out.push(c);
        }
        proof {
            assert(out@ == before + xml_char(c));
            assert(s@.take(i + 1).drop_last() =~= s@.take(i as int));
            lemma_xml_char_safe(c);
            assert forall|k: int| 0 <= k < out@.len() implies xml_safe(#[trigger] out@[k]) by {
                if k >= before.len() {
                    assert(out@[k] == xml_char(c)[k - before.len()]);
                }
            }
        }
        i = i + 1;
    }
    assert(s@.take(v.len() as int) =~= s@);
    string_from_chars(&out)
}

/// One subtitle of an SRT file: its number, the time range, the trimmed
/// text, and a blank line.
pub open spec fn srt_entry_text(number: nat, start: Seq<char>, end: Seq<char>, text: Seq<char>) -> Seq<char> {
    decimal(number) + "\n"@ + start + " --> "@ + end + "\n"@ + trim(text) + "\n\n"@
}

/// One subtitle of an SRT file (see [`srt_entry_text`]).
pub fn srt_entry(number: u64, start: &str, end: &str, text: &str) -> (r: String)
    ensures
        r@ == srt_entry_text(number as nat, start@, end@, text@),
{
    let mut v: Vec<char> = Vec::new();
    push_decimal(&mut v, number);
    append_str(&mut v, "\n");
    append_str(&mut v, start);
    append_str(&mut v, " --> ");
    append_str(&mut v, end);
    append_str(&mut v, "\n");
    let t = trimmed(&chars_of(text));
    append_chars(&mut v, &t);
    append_str(&mut v, "\n\n");
    string_from_chars(&v)
}

/// Texts joined with single spaces.
pub open spec fn joined_words(ts: Seq<Seq<char>>) -> Seq<char>
    decreases ts.len(),
{
    if ts.len() == 0 {
        Seq::empty()
    } else if ts.len() == 1 {
        ts[0]
    } else {
        joined_words(ts.drop_last()) + seq![' '] + ts.last()
    }
}

/// A chapter title keeps line breaks out: a line feed becomes a space and
/// a carriage return is dropped.
pub open spec fn title_char(c: char) -> Seq<char> {
    if c == '\n' {
        seq![' ']
    } else if c == '\r' {
        Seq::empty()
    } else {
        seq![c]
    }
}

/// `s` with each character replaced as in a title.
pub open spec fn title_mapped(s: Seq<char>) -> Seq<char>
    decreases s.len(),
{
    if s.len() == 0 {
        Seq::empty()
    } else {
        title_mapped(s.drop_last()) + title_char(s.last())
    }
}

/// How many characters of the texts a chapter title keeps.
pub open spec fn title_length() -> nat {
    50
}

/// The title of a chapter: its texts joined with spaces and trimmed, cut to
/// the first 50 characters, on one line.
pub open spec fn chapter_title_text(ts: Seq<Seq<char>>) -> Seq<char> {
    let t = trim(joined_words(ts));
    title_mapped(if t.len() <= title_length() { t } else { t.take(title_length() as int) })
}

/// The views of a list of texts.
pub open spec fn texts_of(v: Seq<String>) -> Seq<Seq<char>> {
    v.map_values(|s: String| s@)
}

/// The title of a chapter made of `texts` (see [`chapter_title_text`]).
pub fn chapter_title(texts: &[String]) -> (r: String)
    ensures
        r@ == chapter_title_text(texts_of(texts@)),
{
    let ghost ts = texts_of(texts@);
    let mut joined: Vec<char> = Vec::new();
    let mut i: usize = 0;
    while i < texts.len()
        invariant
            i <= texts@.len(),
            ts == texts_of(texts@),
            joined@ == joined_words(ts.take(i as int)),
        decreases texts.len() - i,
    {
        if i > 0 {
            joined.push(' ');
        }
        append_str(&mut joined, texts[i].as_str());
        proof {
            let t = ts.take(i + 1);
            assert(t.drop_last() =~= ts.take(i as int));
            assert(t.last() == texts@[i as int]@);
            if i == 0 {
                assert(joined@ =~= joined_words(t));
            }
        }
        i = i + 1;
    }
    assert(ts.take(texts@.len() as int) =~= ts);
    let t = trimmed(&joined);
    let cut = if t.len() <= 50 {
        t
    } else {
        let c = sub_chars(&t, 0, 50);
        assert(c@ =~= t@.take(50));
        c
    };
    let mut out: Vec<char> = Vec::new();
    let mut k: usize = 0;
    while k < cut.len()
        invariant
            k <= cut@.len(),
            out@ == title_mapped(cut@.take(k as int)),
        decreases cut.len() - k,
    {
        let c = cut[k];
        let ghost before = out@;
        if c == '\n' {
            out.push(' ');
        } else if c != '\r' {
            out.push(c);
        }
        proof {
            assert(cut@.take(k + 1).drop_last() =~= cut@.take(k as int));
            assert(cut@.take(k + 1).last() == c);
            assert(out@ =~= before + title_char(c));
        }
        k = k + 1;
    }
    assert(cut@.take(cut@.len() as int) =~= cut@);
    string_from_chars(&out)
}

} // verus!
