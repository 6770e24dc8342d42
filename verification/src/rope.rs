//! The boundary to the crop rope, the buffer in which a source is rewritten,
//! and the edits that a rewriting is made of.

use vstd::prelude::*;
use vstd::utf8::{
    encode_scalar, encode_utf8, encode_utf8_valid_utf8, is_char_boundary,
    is_char_boundary_start_end_of_seq, length_of_first_scalar, pop_first_scalar,
    valid_first_scalar, valid_utf8, valid_utf8_concat, valid_utf8_split,
};

verus! {

/// `crop::Rope`, a text buffer. What is known of a rope is the bytes that
/// it holds.
#[verifier::external_type_specification]
#[verifier::external_body]
pub struct ExRope(crop::Rope);

/// The bytes that a rope holds.
pub uninterp spec fn rope_bytes(rope: crop::Rope) -> Seq<u8>;

/// The byte that ends a line.
pub const LINE_FEED: u8 = 10u8;

/// The number of line feeds in a text.
pub open spec fn line_breaks(text: Seq<u8>) -> nat
    decreases text.len(),
{
    if text.len() == 0 {
        0
    } else if text.last() == LINE_FEED {
        line_breaks(text.drop_last()) + 1
    } else {
        line_breaks(text.drop_last())
    }
}

/// The number of lines of a text. A line feed at the very end opens no
/// further line, and the empty text has no line.
pub open spec fn line_count(text: Seq<u8>) -> nat {
    if text.len() == 0 {
        0
    } else if text.last() == LINE_FEED {
        line_breaks(text)
    } else {
        line_breaks(text) + 1
    }
}

/// The offset of the first byte of a line of a text, the lines counted from
/// zero: the offset behind as many line feeds as the number of the line, or
/// the length of the text when it has fewer.
pub open spec fn line_start(text: Seq<u8>, line: nat) -> int
    decreases text.len(),
{
    if line == 0 || text.len() == 0 {
        0
    } else if text[0] == LINE_FEED {
        1 + line_start(text.skip(1), (line - 1) as nat)
    } else {
        1 + line_start(text.skip(1), line)
    }
}

/// A text with another put in at an offset.
pub open spec fn spliced(text: Seq<u8>, at: int, more: Seq<u8>) -> Seq<u8> {
    text.subrange(0, at) + more + text.subrange(at, text.len() as int)
}

/// A text with the bytes from `start` to `end` replaced by another text.
pub open spec fn replaced(text: Seq<u8>, start: int, end: int, more: Seq<u8>) -> Seq<u8> {
    text.subrange(0, start) + more + text.subrange(end, text.len() as int)
}

/// `Rope::from` a text: the rope holds the bytes of the text.
#[verifier::external_body]
pub(crate) fn rope_from(text: &str) -> (rope: crop::Rope)
    ensures
        rope_bytes(rope) == encode_utf8(text@),
{
    crop::Rope::from(text)
}

/// `Rope::byte_len`.
#[verifier::external_body]
pub(crate) fn rope_byte_len(rope: &crop::Rope) -> (len: usize)
    ensures
        len == rope_bytes(*rope).len(),
{
    rope.byte_len()
}

/// `Rope::line_len`: the number of lines, a final line feed opening none.
#[verifier::external_body]
pub(crate) fn rope_line_len(rope: &crop::Rope) -> (lines: usize)
    ensures
        lines == line_count(rope_bytes(*rope)),
{
    rope.line_len()
}

/// `Rope::byte_of_line`: the offset of the start of a line. The call panics
/// for a line beyond the number of lines.
#[verifier::external_body]
pub(crate) fn rope_byte_of_line(rope: &crop::Rope, line: usize) -> (offset: usize)
    requires
        line <= line_count(rope_bytes(*rope)),
    ensures
        offset == line_start(rope_bytes(*rope), line as nat),
{
    rope.byte_of_line(line)
}

/// `Rope::is_char_boundary`. The call panics for an offset beyond the end.
#[verifier::external_body]
pub(crate) fn rope_is_char_boundary(rope: &crop::Rope, offset: usize) -> (r: bool)
    requires
        offset <= rope_bytes(*rope).len(),
    ensures
        r == is_char_boundary(rope_bytes(*rope), offset as int),
{
    rope.is_char_boundary(offset)
}

/// `Rope::insert`: the text goes in at the offset. The call panics for an
/// offset beyond the end or inside a character.
#[verifier::external_body]
pub(crate) fn rope_insert(rope: &mut crop::Rope, offset: usize, text: &str)
    requires
        offset <= rope_bytes(*old(rope)).len(),
        is_char_boundary(rope_bytes(*old(rope)), offset as int),
    ensures
        rope_bytes(*final(rope)) == spliced(
            rope_bytes(*old(rope)),
            offset as int,
            encode_utf8(text@),
        ),
{
    rope.insert(offset, text)
}

/// `Rope::replace` with a range from `start` to `end`: the text takes the
/// place of the bytes in the range. The call panics for a range that is
/// reversed, reaches beyond the end, or starts or ends inside a character.
#[verifier::external_body]
pub(crate) fn rope_replace(rope: &mut crop::Rope, start: usize, end: usize, text: &str)
    requires
        start <= end <= rope_bytes(*old(rope)).len(),
        is_char_boundary(rope_bytes(*old(rope)), start as int),
        is_char_boundary(rope_bytes(*old(rope)), end as int),
    ensures
        rope_bytes(*final(rope)) == replaced(
            rope_bytes(*old(rope)),
            start as int,
            end as int,
            encode_utf8(text@),
        ),
{
    rope.replace(start..end, text)
}

/// `Rope`'s `to_string`: the text that the rope holds.
#[verifier::external_body]
pub(crate) fn rope_to_string(rope: &crop::Rope) -> (text: String)
    ensures
        encode_utf8(text@) == rope_bytes(*rope),
{
    rope.to_string()
}

/// One insertion into a source that is being rewritten. Its place is given
/// as it was before the rewriting began: the line, and the column in bytes.
#[derive(Debug, PartialEq, Eq)]
pub struct Edit {
    pub line: usize,
    pub column: usize,
    pub text: String,
    /// Whether the text is a whole line, so that what stood on later lines
    /// stands one line lower afterwards.
    pub adds_line: bool,
}

/// What an [`Edit`] is to a contract.
pub struct EditView {
    pub line: usize,
    pub column: usize,
    pub text: Seq<char>,
    pub adds_line: bool,
}

impl View for Edit {
    type V = EditView;

    open spec fn view(&self) -> EditView {
        EditView {
            line: self.line,
            column: self.column,
            text: self.text@,
            adds_line: self.adds_line,
        }
    }
}

/// The views of a list of edits.
pub open spec fn edits_view(plan: Seq<Edit>) -> Seq<EditView> {
    plan.map_values(|edit: Edit| edit@)
}

/// The offset at which an edit goes in, when `inserted` whole lines have
/// gone in before it.
pub open spec fn edit_offset(text: Seq<u8>, edit: EditView, inserted: nat) -> int {
    line_start(text, inserted + edit.line as nat) + edit.column
}

/// Whether an edit can go in: its line exists, and its offset lies in the
/// text and between two characters.
pub open spec fn edit_fits(text: Seq<u8>, edit: EditView, inserted: nat) -> bool {
    &&& inserted + edit.line <= line_count(text)
    &&& edit_offset(text, edit, inserted) <= text.len()
    &&& is_char_boundary(text, edit_offset(text, edit, inserted))
}

/// The number of whole lines that have gone in after an edit.
pub open spec fn lines_after(edit: EditView, inserted: nat) -> nat {
    if edit.adds_line {
        inserted + 1
    } else {
        inserted
    }
}

/// Whether the edits of a plan can go in one after the other.
pub open spec fn edits_fit(text: Seq<u8>, plan: Seq<EditView>, inserted: nat) -> bool
    decreases plan.len(),
{
    if plan.len() == 0 {
        true
    } else {
        edit_fits(text, plan[0], inserted) && edits_fit(
            spliced(text, edit_offset(text, plan[0], inserted), encode_utf8(plan[0].text)),
            plan.skip(1),
            lines_after(plan[0], inserted),
        )
    }
}

/// The text after the edits of a plan have gone in one after the other,
/// each at its line moved down by the whole lines that went in before it.
pub open spec fn with_edits(text: Seq<u8>, plan: Seq<EditView>, inserted: nat) -> Seq<u8>
    decreases plan.len(),
{
    if plan.len() == 0 {
        text
    } else {
        with_edits(
            spliced(text, edit_offset(text, plan[0], inserted), encode_utf8(plan[0].text)),
            plan.skip(1),
            lines_after(plan[0], inserted),
        )
    }
}

/// The number of whole lines that have gone in after the edits of a plan.
pub open spec fn lines_after_all(plan: Seq<EditView>, inserted: nat) -> nat
    decreases plan.len(),
{
    if plan.len() == 0 {
        inserted
    } else {
        lines_after_all(plan.skip(1), lines_after(plan[0], inserted))
    }
}

/// Puts the edits of a plan into a rope one after the other, and stops at
/// the first that cannot go in.
pub fn apply_edits(rope: &mut crop::Rope, plan: &Vec<Edit>) -> (done: bool)
    ensures
        done == edits_fit(rope_bytes(*old(rope)), edits_view(plan@), 0),
        done ==> rope_bytes(*final(rope)) == with_edits(
            rope_bytes(*old(rope)),
            edits_view(plan@),
            0,
        ),
{
    let ghost start = rope_bytes(*rope);
    let ghost all = edits_view(plan@);
    let mut inserted: usize = 0;
    let mut i: usize = 0;
    assert(all.skip(0) == all);
    while i < plan.len()
        invariant
            i <= plan.len(),
            inserted <= i,
            start == rope_bytes(*old(rope)),
            all == edits_view(plan@),
            edits_fit(start, all, 0) == edits_fit(
                rope_bytes(*rope),
                all.skip(i as int),
                inserted as nat,
            ),
            with_edits(start, all, 0) == with_edits(
                rope_bytes(*rope),
                all.skip(i as int),
                inserted as nat,
            ),
        decreases plan.len() - i,
    {
        let edit = &plan[i];
        let ghost text = rope_bytes(*rope);
        proof {
            assert(all.skip(i as int)[0] == edit@);
            assert(all.skip(i as int).skip(1) == all.skip(i as int + 1));
            assert(edits_fit(text, all.skip(i as int), inserted as nat) == (edit_fits(
                text,
                edit@,
                inserted as nat,
            ) && edits_fit(
                spliced(
                    text,
                    edit_offset(text, edit@, inserted as nat),
                    encode_utf8(edit@.text),
                ),
                all.skip(i as int + 1),
                lines_after(edit@, inserted as nat),
            )));
        }
        let lines = rope_line_len(rope);
        if edit.line > lines || inserted > lines - edit.line {
            return false;
        }
        let line_offset = rope_byte_of_line(rope, inserted + edit.line);
        let len = rope_byte_len(rope);
        if line_offset > len || edit.column > len - line_offset {
            return false;
        }
        let offset = line_offset + edit.column;
        if !rope_is_char_boundary(rope, offset) {
            return false;
        }
        rope_insert(rope, offset, edit.text.as_str());
        if edit.adds_line {
            inserted += 1;
        }
        i += 1;
    }
    true
}

/// A text has at most as many lines as bytes.
pub proof fn line_count_below_len(text: Seq<u8>)
    ensures
        line_breaks(text) <= text.len(),
        line_count(text) <= text.len(),
    decreases text.len(),
{
    if text.len() > 0 {
        line_count_below_len(text.drop_last());
    }
}

/// Whether `more` is one whole line: bytes without a line feed, and a line
/// feed behind them.
pub open spec fn is_line(more: Seq<u8>) -> bool {
    &&& more.len() > 0
    &&& more.last() == LINE_FEED
    &&& forall|i: int| 0 <= i < more.len() - 1 ==> more[i] != LINE_FEED
}

/// The line feeds of a text are that of its first byte and those of the
/// rest.
proof fn line_breaks_from_front(text: Seq<u8>)
    requires
        text.len() > 0,
    ensures
        line_breaks(text) == line_breaks(text.skip(1)) + if text[0] == LINE_FEED {
            1nat
        } else {
            0nat
        },
    decreases text.len(),
{
    if text.len() == 1 {
        assert(text.drop_last().len() == 0);
        assert(text.skip(1).len() == 0);
        assert(line_breaks(text.drop_last()) == 0);
        assert(line_breaks(text.skip(1)) == 0);
        assert(text.last() == text[0]);
    } else {
        line_breaks_from_front(text.drop_last());
        assert(text.drop_last().skip(1) == text.skip(1).drop_last());
        assert(text.skip(1).last() == text.last());
        assert(text.drop_last()[0] == text[0]);
        assert(line_breaks(text.skip(1)) == line_breaks(text.skip(1).drop_last()) + if text.last()
            == LINE_FEED {
            1nat
        } else {
            0nat
        });
    }
}

/// A line starts in its text.
pub proof fn line_start_in_text(text: Seq<u8>, line: nat)
    ensures
        0 <= line_start(text, line) <= text.len(),
    decreases text.len(),
{
    if line != 0 && text.len() != 0 {
        if text[0] == LINE_FEED {
            line_start_in_text(text.skip(1), (line - 1) as nat);
        } else {
            line_start_in_text(text.skip(1), line);
        }
    }
}

/// Behind a whole line at the head of a text, the lines of the text start
/// one line lower and as many bytes further as the line has.
proof fn line_start_behind(more: Seq<u8>, text: Seq<u8>, line: nat)
    requires
        is_line(more),
    ensures
        line_start(more + text, line + 1) == more.len() + line_start(text, line),
    decreases more.len(),
{
    let whole = more + text;
    assert(whole[0] == more[0]);
    if more.len() == 1 {
        assert(whole.skip(1) == text);
    } else {
        let rest = more.skip(1);
        assert(whole.skip(1) == rest + text);
        assert(rest.last() == more.last());
        assert forall|i: int| 0 <= i < rest.len() - 1 implies rest[i] != LINE_FEED by {
            assert(rest[i] == more[i + 1]);
        }
        line_start_behind(rest, text, line);
    }
}

/// A whole line that goes in at the start of a line moves the lines from
/// there on one line down and leaves the lines before where they were: a
/// line up to `line` starts where it did, and a line from `line` on starts
/// one line lower, as many bytes further as the line that went in has. So a
/// place that was found in the text before is found again by counting the
/// lines that have gone in above it.
pub proof fn line_goes_in(text: Seq<u8>, line: nat, more: Seq<u8>, other: nat)
    requires
        is_line(more),
        line <= line_breaks(text),
    ensures
        other <= line ==> line_start(spliced(text, line_start(text, line), more), other)
            == line_start(text, other),
        other >= line ==> line_start(spliced(text, line_start(text, line), more), other + 1)
            == line_start(text, other) + more.len(),
    decreases text.len(),
{
    let at = line_start(text, line);
    let after = spliced(text, at, more);
    if line == 0 {
        assert(text.subrange(0, 0) + more + text.subrange(0, text.len() as int) == more + text);
        line_start_behind(more, text, other);
    } else {
        line_breaks_from_front(text);
        let rest = text.skip(1);
        let inner = if text[0] == LINE_FEED {
            (line - 1) as nat
        } else {
            line
        };
        line_start_in_text(rest, inner);
        let at_rest = line_start(rest, inner);
        assert(after.skip(1) == spliced(rest, at_rest, more));
        assert(after[0] == text[0]);
        if other > 0 {
            let other_inner = if text[0] == LINE_FEED {
                (other - 1) as nat
            } else {
                other
            };
            line_goes_in(rest, inner, more, other_inner);
        }
    }
}

/// A text without a line feed has no line break.
proof fn no_line_break(text: Seq<u8>)
    requires
        forall|i: int| 0 <= i < text.len() ==> text[i] != LINE_FEED,
    ensures
        line_breaks(text) == 0,
    decreases text.len(),
{
    if text.len() > 0 {
        no_line_break(text.drop_last());
    }
}

/// The line breaks of two texts joined are those of the one and those of
/// the other.
proof fn line_breaks_joined(head: Seq<u8>, tail: Seq<u8>)
    ensures
        line_breaks(head + tail) == line_breaks(head) + line_breaks(tail),
    decreases tail.len(),
{
    if tail.len() == 0 {
        assert(head + tail == head);
    } else {
        line_breaks_joined(head, tail.drop_last());
        assert((head + tail).drop_last() == head + tail.drop_last());
    }
}

/// A whole line that goes into a text adds one line break.
proof fn line_adds_a_break(text: Seq<u8>, at: int, more: Seq<u8>)
    requires
        0 <= at <= text.len(),
        is_line(more),
    ensures
        line_breaks(spliced(text, at, more)) == line_breaks(text) + 1,
{
    let head = text.subrange(0, at);
    let tail = text.subrange(at, text.len() as int);
    assert(text == head + tail);
    line_breaks_joined(head, tail);
    line_breaks_joined(head, more);
    line_breaks_joined(head + more, tail);
    no_line_break(more.drop_last());
}

/// A later line does not start before an earlier one.
proof fn line_starts_rise(text: Seq<u8>, earlier: nat, later: nat)
    requires
        earlier <= later,
    ensures
        line_start(text, earlier) <= line_start(text, later),
    decreases text.len(),
{
    line_start_in_text(text, later);
    if earlier != 0 && text.len() != 0 {
        if text[0] == LINE_FEED {
            line_starts_rise(text.skip(1), (earlier - 1) as nat, (later - 1) as nat);
        } else {
            line_starts_rise(text.skip(1), earlier, later);
        }
    }
}

/// Whether each edit of a plan puts in one whole line at the start of a
/// line of the text as it was, no edit higher up than the one before it, and
/// the text has the lines that the edits name.
pub open spec fn is_line_plan(text: Seq<u8>, plan: Seq<EditView>, inserted: nat) -> bool {
    &&& forall|i: int|
        0 <= i < plan.len() ==> {
            &&& (#[trigger] plan[i]).column == 0
            &&& plan[i].adds_line
            &&& is_line(encode_utf8(plan[i].text))
            &&& inserted + plan[i].line <= line_breaks(text)
        }
    &&& forall|i: int, j: int|
        0 <= i <= j < plan.len() ==> (#[trigger] plan[i]).line <= (#[trigger] plan[j]).line
}

/// The number of bytes that the first `count` edits of a plan put in.
pub open spec fn bytes_before(plan: Seq<EditView>, count: nat) -> nat
    decreases count,
{
    if count == 0 || plan.len() == 0 {
        0
    } else {
        encode_utf8(plan[0].text).len() + bytes_before(plan.skip(1), (count - 1) as nat)
    }
}

/// After the first edit of a plan of lines has gone in, the rest is a
/// plan of lines for the text as it then is.
proof fn line_plan_goes_on(text: Seq<u8>, plan: Seq<EditView>, inserted: nat)
    requires
        is_line_plan(text, plan, inserted),
        plan.len() > 0,
    ensures
        is_line_plan(
            spliced(
                text,
                line_start(text, inserted + plan[0].line as nat),
                encode_utf8(plan[0].text),
            ),
            plan.skip(1),
            inserted + 1,
        ),
{
    let at = line_start(text, inserted + plan[0].line as nat);
    line_start_in_text(text, inserted + plan[0].line as nat);
    line_adds_a_break(text, at, encode_utf8(plan[0].text));
    let rest = plan.skip(1);
    assert forall|i: int| 0 <= i < rest.len() implies (#[trigger] rest[i]) == plan[i + 1] by {}
}

/// The lines above the first edit of a plan of lines stay as they are: a
/// line up to that of the first edit starts where it did, and the text
/// before it is the same.
pub proof fn lines_above_stay(text: Seq<u8>, plan: Seq<EditView>, inserted: nat, line: nat)
    requires
        is_line_plan(text, plan, inserted),
        plan.len() > 0 ==> line <= inserted + plan[0].line,
    ensures
        line_start(with_edits(text, plan, inserted), line) == line_start(text, line),
        with_edits(text, plan, inserted).subrange(0, line_start(text, line)) == text.subrange(
            0,
            line_start(text, line),
        ),
    decreases plan.len(),
{
    if plan.len() > 0 {
        let first = (inserted + plan[0].line) as nat;
        let at = line_start(text, first);
        let more = encode_utf8(plan[0].text);
        let next = spliced(text, at, more);
        let rest = plan.skip(1);
        line_goes_in(text, first, more, line);
        line_starts_rise(text, line, first);
        line_start_in_text(text, first);
        line_start_in_text(text, line);
        line_plan_goes_on(text, plan, inserted);
        if rest.len() > 0 {
            assert(rest[0] == plan[1]);
        }
        lines_above_stay(next, rest, inserted + 1, line);
        let start = line_start(text, line);
        assert(next.subrange(0, start) == text.subrange(0, start));
        assert(edit_offset(text, plan[0], inserted) == at);
        assert(lines_after(plan[0], inserted) == inserted + 1);
    }
}

/// Where the lines of a plan of lines land. The line of edit `k` goes in
/// at the line that the edit names, counted in the text as it was, moved
/// down by one line for each of the `k` edits before it and by the lines
/// that had gone in before the plan; it starts the bytes of those `k` edits
/// behind the start of the line that it names; and the line that goes in
/// stands there in the text as it is after all edits.
pub proof fn lines_land(text: Seq<u8>, plan: Seq<EditView>, inserted: nat, k: nat)
    requires
        is_line_plan(text, plan, inserted),
        k < plan.len(),
    ensures
        line_start(
            with_edits(text, plan, inserted),
            (inserted + plan[k as int].line + k) as nat,
        ) == line_start(text, inserted + plan[k as int].line as nat) + bytes_before(plan, k),
        with_edits(text, plan, inserted).subrange(
            line_start(text, inserted + plan[k as int].line as nat) + bytes_before(plan, k),
            line_start(text, inserted + plan[k as int].line as nat) + bytes_before(plan, k)
                + encode_utf8(plan[k as int].text).len(),
        ) == encode_utf8(plan[k as int].text),
    decreases plan.len(),
{
    let first = (inserted + plan[0].line) as nat;
    let at = line_start(text, first);
    let more = encode_utf8(plan[0].text);
    let next = spliced(text, at, more);
    let rest = plan.skip(1);
    let result = with_edits(text, plan, inserted);
    line_start_in_text(text, first);
    line_plan_goes_on(text, plan, inserted);
    assert(edit_offset(text, plan[0], inserted) == at);
    assert(lines_after(plan[0], inserted) == inserted + 1);
    assert(result == with_edits(next, rest, inserted + 1));
    if rest.len() > 0 {
        assert(rest[0] == plan[1]);
    }
    if k == 0 {
        line_goes_in(text, first, more, first);
        lines_above_stay(next, rest, inserted + 1, first);
        lines_above_stay(next, rest, inserted + 1, first + 1);
        line_start_in_text(result, first + 1);
        assert(line_start(next, first + 1) == at + more.len());
        assert(next.len() == text.len() + more.len());
        assert(result.subrange(at, at + more.len()) == result.subrange(0, at + more.len()).subrange(
            at,
            at + more.len(),
        ));
        assert(next.subrange(0, at + more.len()).subrange(at, at + more.len()) == more);
    } else {
        let line = (inserted + plan[k as int].line) as nat;
        assert(rest[k - 1] == plan[k as int]);
        line_goes_in(text, first, more, line);
        lines_land(next, rest, inserted + 1, (k - 1) as nat);
    }
}

/// Whether the first `count` edits of a plan, and no others, go in at or
/// above the line `line` of the text.
pub open spec fn edits_down_to(plan: Seq<EditView>, inserted: nat, line: nat, count: nat) -> bool {
    &&& count <= plan.len()
    &&& forall|j: int| 0 <= j < count ==> inserted + (#[trigger] plan[j]).line <= line
    &&& forall|j: int| count <= j < plan.len() ==> line < inserted + (#[trigger] plan[j]).line
}

/// Where a line of the text stands after a plan of lines has gone in. A
/// line with `count` edits at or above it stands `count` lines lower, the
/// bytes of those edits further, and holds what it held. So the line that an
/// edit names stands right below the line that the edit put in.
pub proof fn line_moves_down(
    text: Seq<u8>,
    plan: Seq<EditView>,
    inserted: nat,
    line: nat,
    count: nat,
)
    requires
        is_line_plan(text, plan, inserted),
        edits_down_to(plan, inserted, line, count),
    ensures
        line_start(with_edits(text, plan, inserted), line + count) == line_start(text, line)
            + bytes_before(plan, count),
        with_edits(text, plan, inserted).subrange(
            line_start(text, line) + bytes_before(plan, count),
            line_start(text, line + 1) + bytes_before(plan, count),
        ) == text.subrange(line_start(text, line), line_start(text, line + 1)),
    decreases plan.len(),
{
    let result = with_edits(text, plan, inserted);
    let start = line_start(text, line);
    let end = line_start(text, line + 1);
    line_start_in_text(text, line);
    line_start_in_text(text, line + 1);
    line_starts_rise(text, line, line + 1);
    if plan.len() == 0 {
    } else if count == 0 {
        lines_above_stay(text, plan, inserted, line);
        lines_above_stay(text, plan, inserted, line + 1);
        line_start_in_text(result, line + 1);
        assert(result.subrange(start, end) == result.subrange(0, end).subrange(start, end));
        assert(text.subrange(start, end) == text.subrange(0, end).subrange(start, end));
    } else {
        let first = (inserted + plan[0].line) as nat;
        let at = line_start(text, first);
        let more = encode_utf8(plan[0].text);
        let next = spliced(text, at, more);
        let rest = plan.skip(1);
        line_start_in_text(text, first);
        line_starts_rise(text, first, line);
        line_plan_goes_on(text, plan, inserted);
        assert(edit_offset(text, plan[0], inserted) == at);
        assert(lines_after(plan[0], inserted) == inserted + 1);
        assert(result == with_edits(next, rest, inserted + 1));
        line_goes_in(text, first, more, line);
        line_goes_in(text, first, more, line + 1);
        assert forall|j: int| 0 <= j < rest.len() implies (#[trigger] rest[j]) == plan[j + 1] by {}
        assert(edits_down_to(rest, inserted + 1, line + 1, (count - 1) as nat));
        line_moves_down(next, rest, inserted + 1, line + 1, (count - 1) as nat);
        assert(next.subrange(start + more.len(), end + more.len()) == text.subrange(start, end));
    }
}

/// Whether `chars` is one whole line: characters that are no line feed,
/// and a line feed behind them.
pub open spec fn is_text_line(chars: Seq<char>) -> bool {
    &&& chars.len() > 0
    &&& chars.last() == '\n'
    &&& forall|i: int| 0 <= i < chars.len() - 1 ==> chars[i] != '\n'
}

/// The bytes of a line feed are the byte of a line feed.
proof fn feed_is_one_byte(scalar: u32)
    by (bit_vector)
    requires
        scalar == 10,
    ensures
        (scalar & 0x7F) as u8 == 10u8,
{
}

/// A character of one byte that is no line feed has a byte that is none.
proof fn single_byte_is_no_feed(scalar: u32)
    by (bit_vector)
    requires
        scalar <= 0x7F,
        scalar != 10,
    ensures
        (scalar & 0x7F) as u8 != 10u8,
{
}

/// No byte of a character of several bytes is a line feed.
proof fn wide_bytes_are_no_feed(scalar: u32)
    by (bit_vector)
    ensures
        0xC0 | ((scalar >> 6) & 0x1F) as u8 != 10u8,
        0xE0 | ((scalar >> 12) & 0x0F) as u8 != 10u8,
        0xF0 | ((scalar >> 18) & 0x7) as u8 != 10u8,
        0x80 | (scalar & 0x3F) as u8 != 10u8,
        0x80 | ((scalar >> 6) & 0x3F) as u8 != 10u8,
        0x80 | ((scalar >> 12) & 0x3F) as u8 != 10u8,
{
}

/// Whether no byte of `bytes` is a line feed.
pub open spec fn without_feed(bytes: Seq<u8>) -> bool {
    forall|i: int| 0 <= i < bytes.len() ==> #[trigger] bytes[i] != LINE_FEED
}

/// The bytes of a character that is no line feed hold no line feed, and the
/// bytes of a line feed are the one byte of a line feed.
proof fn bytes_of_a_character(c: char)
    ensures
        c == '\n' ==> encode_scalar(c as u32) == seq![LINE_FEED],
        c != '\n' ==> without_feed(encode_scalar(c as u32)),
{
    let scalar = c as u32;
    if c == '\n' {
        feed_is_one_byte(scalar);
    } else {
        assert(scalar != 10) by {
            if scalar == 10 {
                vstd::utf8::char_u32_cast(c, scalar);
            }
        }
        if scalar <= 0x7F {
            single_byte_is_no_feed(scalar);
        }
        wide_bytes_are_no_feed(scalar);
    }
}

/// The bytes of one whole line of characters are one whole line of bytes.
pub proof fn line_of_text_is_line(chars: Seq<char>)
    requires
        is_text_line(chars),
    ensures
        is_line(encode_utf8(chars)),
    decreases chars.len(),
{
    let rest = chars.drop_first();
    let head = encode_scalar(chars[0] as u32);
    bytes_of_a_character(chars[0]);
    if chars.len() == 1 {
        assert(encode_utf8(rest) == Seq::<u8>::empty());
        assert(head + encode_utf8(rest) == head);
    } else {
        assert(rest.last() == chars.last());
        assert forall|i: int| 0 <= i < rest.len() - 1 implies rest[i] != '\n' by {
            assert(rest[i] == chars[i + 1]);
        }
        line_of_text_is_line(rest);
        let tail = encode_utf8(rest);
        let whole = head + tail;
        assert(whole.last() == tail.last());
        assert forall|i: int| 0 <= i < whole.len() - 1 implies whole[i] != LINE_FEED by {
            if i >= head.len() {
                assert(whole[i] == tail[i - head.len()]);
            }
        }
    }
}

/// In a well-formed text, the place behind a byte that is a character by
/// itself lies between two characters.
proof fn boundary_behind_single(bytes: Seq<u8>, index: int)
    requires
        valid_utf8(bytes),
        0 < index <= bytes.len(),
        bytes[index - 1] < 0x80,
    ensures
        is_char_boundary(bytes, index),
    decreases bytes.len(),
{
    let first = length_of_first_scalar(bytes);
    let rest = pop_first_scalar(bytes);
    assert(valid_first_scalar(bytes) && valid_utf8(rest));
    if index - 1 < first {
        assert(index == 1 && first == 1);
        is_char_boundary_start_end_of_seq(rest);
    } else {
        assert(rest[index - first - 1] == bytes[index - 1]);
        boundary_behind_single(rest, index - first);
    }
}

/// A line starts at the head of its text, at its end, or behind a line
/// feed.
proof fn line_starts_behind_a_feed(text: Seq<u8>, line: nat)
    ensures
        line == 0 ==> line_start(text, line) == 0,
        line > 0 ==> line_start(text, line) == text.len() || (0 < line_start(text, line)
            <= text.len() && text[line_start(text, line) - 1] == LINE_FEED),
    decreases text.len(),
{
    if line != 0 && text.len() != 0 {
        let rest = text.skip(1);
        if text[0] == LINE_FEED {
            line_starts_behind_a_feed(rest, (line - 1) as nat);
            let inner = line_start(rest, (line - 1) as nat);
            if inner > 0 && inner < rest.len() {
                assert(rest[inner - 1] == text[inner]);
            }
        } else {
            line_starts_behind_a_feed(rest, line);
            let inner = line_start(rest, line);
            if inner > 0 && inner < rest.len() {
                assert(rest[inner - 1] == text[inner]);
            }
        }
    }
}

/// In a well-formed text a line starts between two characters.
pub proof fn line_starts_between_characters(text: Seq<u8>, line: nat)
    requires
        valid_utf8(text),
    ensures
        is_char_boundary(text, line_start(text, line)),
{
    let at = line_start(text, line);
    line_starts_behind_a_feed(text, line);
    is_char_boundary_start_end_of_seq(text);
    if at != 0 && at != text.len() {
        boundary_behind_single(text, at);
    }
}

/// A plan of whole lines, at lines that the text has, fits: each of its
/// edits can go in.
pub proof fn line_plan_fits(text: Seq<u8>, plan: Seq<EditView>, inserted: nat)
    requires
        valid_utf8(text),
        is_line_plan(text, plan, inserted),
    ensures
        edits_fit(text, plan, inserted),
    decreases plan.len(),
{
    if plan.len() > 0 {
        let first = (inserted + plan[0].line) as nat;
        let at = line_start(text, first);
        let more = encode_utf8(plan[0].text);
        line_start_in_text(text, first);
        line_starts_between_characters(text, first);
        assert(edit_offset(text, plan[0], inserted) == at);
        assert(lines_after(plan[0], inserted) == inserted + 1);
        assert(edit_fits(text, plan[0], inserted));
        encode_utf8_valid_utf8(plan[0].text);
        valid_utf8_split(text, at);
        valid_utf8_concat(text.subrange(0, at), more);
        valid_utf8_concat(text.subrange(0, at) + more, text.subrange(at, text.len() as int));
        line_plan_goes_on(text, plan, inserted);
        line_plan_fits(spliced(text, at, more), plan.skip(1), inserted + 1);
    }
}

} // verus!
