//! Text operations of the standard library that the analyses lean on, each
//! with the contract that its documentation gives, and a few small verified
//! helpers built on them.

use vstd::prelude::*;
use vstd::string::StringExecFns;

verus! {

/// Whether `pattern` occurs in `text` at offset `at`.
pub open spec fn occurs_at(text: Seq<char>, pattern: Seq<char>, at: int) -> bool {
    0 <= at && at + pattern.len() <= text.len() && text.subrange(at, at + pattern.len())
        == pattern
}

/// Whether `pattern` occurs somewhere in `text`.
pub open spec fn occurs_in(text: Seq<char>, pattern: Seq<char>) -> bool {
    exists|at: int| occurs_at(text, pattern, at)
}

/// Whether `at` is the place of the first line feed of a text.
pub open spec fn first_feed(text: Seq<char>, at: int) -> bool {
    &&& 0 <= at < text.len()
    &&& text[at] == '\n'
    &&& forall|j: int| 0 <= j < at ==> text[j] != '\n'
}

/// A line without the carriage return at its end, where it ends in one.
pub open spec fn without_return(line: Seq<char>) -> Seq<char> {
    if line.len() > 0 && line.last() == '\r' {
        line.drop_last()
    } else {
        line
    }
}

/// The lines of a text as `str::lines` cuts them: at every line feed, with a
/// carriage return before the line feed dropped, and no empty last line after
/// a final line feed. What stands behind the last line feed is a line as it
/// is.
pub open spec fn text_lines(text: Seq<char>) -> Seq<Seq<char>>
    decreases text.len(),
{
    if text.len() == 0 {
        Seq::empty()
    } else if text.contains('\n') {
        let at = choose|at: int| first_feed(text, at);
        if first_feed(text, at) {
            seq![without_return(text.take(at))] + text_lines(text.skip(at + 1))
        } else {
            Seq::empty()
        }
    } else {
        seq![text]
    }
}

/// The lower-case form of a text as `str::to_lowercase` gives it.
pub uninterp spec fn lowercase(text: Seq<char>) -> Seq<char>;

/// `str`'s `==`: two texts are equal when they hold the same characters.
#[verifier::external_body]
pub(crate) fn same_text(a: &str, b: &str) -> (r: bool)
    ensures
        r == (a@ == b@),
{
    a == b
}

/// `str::starts_with` with a text pattern: the text begins with the pattern.
#[verifier::external_body]
pub(crate) fn starts_with(text: &str, prefix: &str) -> (r: bool)
    ensures
        r == occurs_at(text@, prefix@, 0),
{
    text.starts_with(prefix)
}

/// `str::ends_with` with a text pattern: the text ends with the pattern.
#[verifier::external_body]
pub(crate) fn ends_with(text: &str, suffix: &str) -> (r: bool)
    ensures
        r == occurs_at(text@, suffix@, text@.len() - suffix@.len()),
{
    text.ends_with(suffix)
}

/// `str::contains` with a text pattern: the pattern occurs in the text.
#[verifier::external_body]
pub(crate) fn contains(text: &str, pattern: &str) -> (r: bool)
    ensures
        r == occurs_in(text@, pattern@),
{
    text.contains(pattern)
}

/// `str::lines`, each line copied out: the text cut at its line feeds, a
/// carriage return before a line feed dropped with it, and what stands
/// behind the last line feed, if anything, as the last line.
#[verifier::external_body]
pub(crate) fn lines_of(text: &str) -> (lines: Vec<String>)
    ensures
        lines@.map_values(|line: String| line@) == text_lines(text@),
{
    text.lines().map(|line| line.to_string()).collect()
}

/// `str::to_lowercase`.
#[verifier::external_body]
pub(crate) fn to_lowercase(text: &str) -> (lower: String)
    ensures
        lower@ == lowercase(text@),
{
    text.to_lowercase()
}

/// `str::split_once` at a character: the parts before and after the first
/// occurrence of `separator`, or nothing when it does not occur.
#[verifier::external_body]
pub(crate) fn split_once(text: &str, separator: char) -> (parts: Option<(String, String)>)
    ensures
        match parts {
            Some((before, after)) => before@ + seq![separator] + after@ == text@
                && !before@.contains(separator),
            None => !text@.contains(separator),
        },
{
    text.split_once(separator).map(|(before, after)| (before.to_string(), after.to_string()))
}

/// Whether some line of `lines` starts with `prefix`.
pub open spec fn some_line_starts_with(lines: Seq<Seq<char>>, prefix: Seq<char>) -> bool {
    exists|i: int| 0 <= i < lines.len() && occurs_at(#[trigger] lines[i], prefix, 0)
}

/// Whether `pattern` occurs in some line of `lines`.
pub open spec fn some_line_contains(lines: Seq<Seq<char>>, pattern: Seq<char>) -> bool {
    exists|i: int| 0 <= i < lines.len() && occurs_in(#[trigger] lines[i], pattern)
}

/// Tells whether some line of `text` starts with `prefix`.
pub fn any_line_starts_with(text: &str, prefix: &str) -> (r: bool)
    ensures
        r == some_line_starts_with(text_lines(text@), prefix@),
{
    let lines = lines_of(text);
    let ghost views = lines@.map_values(|line: String| line@);
    let mut i: usize = 0;
    while i < lines.len()
        invariant
            i <= lines.len(),
            views == lines@.map_values(|line: String| line@),
            views == text_lines(text@),
            forall|j: int| 0 <= j < i ==> !occurs_at(#[trigger] views[j], prefix@, 0),
        decreases lines.len() - i,
    {
        assert(views[i as int] == lines@[i as int]@);
        if starts_with(lines[i].as_str(), prefix) {
            return true;
        }
        i += 1;
    }
    false
}

/// Tells whether `pattern` occurs in some line of `text`.
pub fn any_line_contains(text: &str, pattern: &str) -> (r: bool)
    ensures
        r == some_line_contains(text_lines(text@), pattern@),
{
    let lines = lines_of(text);
    let ghost views = lines@.map_values(|line: String| line@);
    let mut i: usize = 0;
    while i < lines.len()
        invariant
            i <= lines.len(),
            views == lines@.map_values(|line: String| line@),
            views == text_lines(text@),
            forall|j: int| 0 <= j < i ==> !occurs_in(#[trigger] views[j], pattern@),
        decreases lines.len() - i,
    {
        assert(views[i as int] == lines@[i as int]@);
        if contains(lines[i].as_str(), pattern) {
            return true;
        }
        i += 1;
    }
    false
}

/// The texts of `parts` in a row, with `separator` between neighbours.
pub open spec fn joined(parts: Seq<Seq<char>>, separator: Seq<char>) -> Seq<char>
    decreases parts.len(),
{
    if parts.len() == 0 {
        Seq::empty()
    } else if parts.len() == 1 {
        parts[0]
    } else {
        joined(parts.drop_last(), separator) + separator + parts.last()
    }
}

/// The views of a list of texts.
pub open spec fn texts_view(parts: Seq<String>) -> Seq<Seq<char>> {
    parts.map_values(|part: String| part@)
}

/// Joins `parts` with `separator` between neighbours.
pub fn join(parts: &Vec<String>, separator: &str) -> (text: String)
    ensures
        text@ == joined(texts_view(parts@), separator@),
{
    let mut text = String::new();
    let ghost views = texts_view(parts@);
    let mut i: usize = 0;
    while i < parts.len()
        invariant
            i <= parts.len(),
            views == texts_view(parts@),
            text@ == joined(views.take(i as int), separator@),
        decreases parts.len() - i,
    {
        proof {
            let next = views.take(i as int + 1);
            assert(next.drop_last() == views.take(i as int));
            assert(next.last() == parts@[i as int]@);
            if i == 0 {
                assert(joined(views.take(0), separator@) == Seq::<char>::empty());
                assert(Seq::<char>::empty() + parts@[0]@ == parts@[0]@);
            }
        }
        if i > 0 {
            text.append(separator);
        }
        text.append(parts[i].as_str());
        i += 1;
    }
    assert(views.take(parts.len() as int) == views);
    text
}

/// The text of `count` spaces.
pub open spec fn spaces(count: nat) -> Seq<char> {
    Seq::new(count, |i: int| ' ')
}

/// A text of `count` spaces.
pub fn indent(count: usize) -> (text: String)
    ensures
        text@ == spaces(count as nat),
{
    let mut text = String::new();
    let mut i: usize = 0;
    proof {
        reveal_strlit(" ");
    }
    while i < count
        invariant
            i <= count,
            text@ == spaces(i as nat),
            " "@ == seq![' '],
        decreases count - i,
    {
        text.append(" ");
        i += 1;
        assert(text@ == spaces(i as nat));
    }
    text
}

/// The texts of `parts` from last to first.
pub fn reversed(parts: Vec<String>) -> (out: Vec<String>)
    ensures
        texts_view(out@) == texts_view(parts@).reverse(),
{
    let ghost whole = texts_view(parts@);
    let mut parts = parts;
    let mut out: Vec<String> = Vec::new();
    while parts.len() > 0
        invariant
            parts.len() + out.len() == whole.len(),
            texts_view(parts@) == whole.take(parts.len() as int),
            forall|i: int|
                0 <= i < out.len() ==> (#[trigger] out@[i])@ == whole[whole.len() - 1 - i],
        decreases parts.len(),
    {
        let ghost before = parts@;
        let last = parts.pop().unwrap();
        assert(last@ == texts_view(before)[before.len() - 1]);
        assert(texts_view(parts@) == whole.take(parts.len() as int));
        out.push(last);
    }
    assert(texts_view(out@) =~= whole.reverse());
    out
}

/// A text with every occurrence of the character `from` replaced by the
/// text `to`.
pub open spec fn with_replaced(text: Seq<char>, from: char, to: Seq<char>) -> Seq<char>
    decreases text.len(),
{
    if text.len() == 0 {
        Seq::empty()
    } else if text.last() == from {
        with_replaced(text.drop_last(), from, to) + to
    } else {
        with_replaced(text.drop_last(), from, to).push(text.last())
    }
}

/// `str::replace` of a character by a text.
#[verifier::external_body]
pub(crate) fn replace_char(text: &str, from: char, to: &str) -> (replaced: String)
    ensures
        replaced@ == with_replaced(text@, from, to@),
{
    text.replace(from, to)
}

/// `str::strip_suffix` with a text pattern: the text without the suffix, or
/// nothing when it does not end with it.
#[verifier::external_body]
pub(crate) fn strip_suffix(text: &str, suffix: &str) -> (stem: Option<String>)
    ensures
        match stem {
            Some(s) => s@ + suffix@ == text@,
            None => !occurs_at(text@, suffix@, text@.len() - suffix@.len()),
        },
{
    text.strip_suffix(suffix).map(|stem| stem.to_string())
}

} // verus!
