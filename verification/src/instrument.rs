//! Rewriting a source so that every function it defines carries the marker.

use crate::model::{
    AmlError, FunctionIdView, FunctionInfo, FunctionInfoView, Language, Range, all_defined,
    all_instrumented, infos_view, line_of,
};
use crate::order::{Arrangement, arrange, arranged, arranged_is_in_order, in_order};
use crate::project::ListAmFunctions;
use crate::rope::{
    Edit, EditView, apply_edits, bytes_before, edits_down_to, edits_fit, edits_view, is_line,
    is_line_plan, is_text_line, line_breaks, line_moves_down, line_of_text_is_line, line_plan_fits,
    line_start, lines_land, replaced, rope_byte_len, rope_from, rope_is_char_boundary,
    rope_replace, rope_to_string, with_edits,
};
use crate::text::{
    any_line_contains, any_line_starts_with, indent, some_line_contains, some_line_starts_with,
    spaces, text_lines,
};
use crate::merge::merged;
use crate::syntax::{parses, tree_root};
use crate::typescript::{TypescriptFunctionInfo, valued_view};
use vstd::prelude::*;
use vstd::string::StringExecFns;
use vstd::utf8::{encode_utf8, is_char_boundary};

verus! {

/// The attribute line that marks a Rust function.
pub const RUST_MARKER: &'static str = "#[autometrics::autometrics]\n";

/// The comment line that marks a Go function.
pub const GO_MARKER: &'static str = "//autometrics:inst\n";

/// The start of the line that tells the Go generator to run.
pub const GO_DIRECTIVE: &'static str = "//go:generate autometrics";

/// The line that tells the Go generator to run.
pub const GO_HEADER: &'static str = "//go:generate autometrics --otel\n";

/// The decorator line that marks a Python function, without its indent.
pub const PYTHON_MARKER: &'static str = "@autometrics\n";

/// The import of the Python decorator.
pub const PYTHON_DIRECTIVE: &'static str = "from autometrics import autometrics";

/// The line that imports the Python decorator.
pub const PYTHON_HEADER: &'static str = "from autometrics import autometrics\n";

/// The decorator line that marks a TypeScript method.
pub const TYPESCRIPT_MARKER: &'static str = "@Autometrics()\n";

/// What opens the wrapper call around a TypeScript function.
pub const WRAPPER_OPEN: &'static str = "autometrics(";

/// What closes the wrapper call around a TypeScript function.
pub const WRAPPER_CLOSE: &'static str = ")";

/// The import line that is put in first, with a stand-in for the names.
pub const TYPESCRIPT_HEADER: &'static str =
    "import { placeholder } from '@autometrics/autometrics';\n";

/// The import of the wrapper alone.
pub const IMPORTS_WRAPPER: &'static str = "import { autometrics } from";

/// The import of the decorator alone.
pub const IMPORTS_DECORATOR: &'static str = "import { Autometrics } from";

/// The import of both.
pub const IMPORTS_BOTH: &'static str = "import { autometrics, Autometrics } from";

/// The names of the import when calls and decorators were put in.
pub const NAMES_BOTH: &'static str = "autometrics, Autometrics";

/// The name of the import when only calls were put in.
pub const NAME_WRAPPER: &'static str = "autometrics";

/// The name of the import when only decorators were put in.
pub const NAME_DECORATOR: &'static str = "Autometrics";

/// Where the stand-in for the names starts in the import line.
pub const PLACEHOLDER_START: usize = 9;

/// Where the stand-in for the names ends in the import line.
pub const PLACEHOLDER_END: usize = 20;

/// The number of bytes that open a wrapper call.
pub const WRAPPER_OPEN_LEN: usize = 12;

/// The number of bytes of `def ` before the name of a Python function.
pub const DEF_LEN: usize = 4;

/// Whether a function is to be marked: it is defined in the source and not
/// instrumented.
pub open spec fn needs_marker(info: FunctionInfoView) -> bool {
    info.definition is Some && info.instrumentation is None
}

/// The column at which the definition of a function starts.
pub open spec fn column_of(info: FunctionInfoView) -> usize {
    match info.definition {
        Some(l) => l.range.start.column,
        None => 0,
    }
}

/// Whether a source has the line that a language wants at its top.
pub open spec fn has_header(language: Language, lines: Seq<Seq<char>>) -> bool {
    match language {
        Language::Rust => true,
        Language::Go => some_line_starts_with(lines, GO_DIRECTIVE@),
        Language::Python => some_line_contains(lines, PYTHON_DIRECTIVE@),
        Language::Typescript => some_line_contains(lines, IMPORTS_WRAPPER@) || some_line_contains(
            lines,
            IMPORTS_DECORATOR@,
        ) || some_line_contains(lines, IMPORTS_BOTH@),
    }
}

/// The line that a language wants at the top of a source.
pub open spec fn header_text(language: Language) -> Seq<char> {
    match language {
        Language::Rust => Seq::empty(),
        Language::Go => GO_HEADER@,
        Language::Python => PYTHON_HEADER@,
        Language::Typescript => TYPESCRIPT_HEADER@,
    }
}

/// The edits that put in the line a language wants at the top of a source:
/// none when the source has it.
pub open spec fn header_plan(language: Language, lines: Seq<Seq<char>>) -> Seq<EditView> {
    if has_header(language, lines) {
        Seq::empty()
    } else {
        seq![EditView { line: 0, column: 0, text: header_text(language), adds_line: true }]
    }
}

/// The line that marks a function: for Python the decorator, indented as
/// far as the `def` of the function; for Rust the attribute; else the
/// directive comment.
pub open spec fn marker_line(language: Language, info: FunctionInfoView) -> Seq<char> {
    match language {
        Language::Rust => RUST_MARKER@,
        Language::Python => spaces(
            if column_of(info) >= DEF_LEN {
                (column_of(info) - DEF_LEN) as nat
            } else {
                0
            },
        ) + PYTHON_MARKER@,
        Language::Typescript => TYPESCRIPT_MARKER@,
        Language::Go => GO_MARKER@,
    }
}

/// The edit that puts the marker line above a function.
pub open spec fn marker_edit(language: Language, info: FunctionInfoView) -> EditView {
    EditView { line: line_of(info), column: 0, text: marker_line(language, info), adds_line: true }
}

/// The edits that mark the functions of a list by lines of their own: one
/// for each function that needs a marker, in the order of the list.
pub open spec fn marker_plan(language: Language, list: Seq<FunctionInfoView>) -> Seq<EditView>
    decreases list.len(),
{
    if list.len() == 0 {
        Seq::empty()
    } else if needs_marker(list.last()) {
        marker_plan(language, list.drop_last()).push(marker_edit(language, list.last()))
    } else {
        marker_plan(language, list.drop_last())
    }
}

/// The edits that rewrite a Go, Python or Rust source: the line at the top
/// where it is missing, then the markers of the functions, top to bottom.
pub open spec fn line_plan(language: Language, source: Seq<char>, list: Seq<FunctionInfoView>)
    -> Seq<EditView> {
    header_plan(language, text_lines(source)) + marker_plan(
        language,
        arranged(Arrangement::ByDefinitionLine, list),
    )
}

/// Tells whether a source has the line that a language wants at its top.
fn find_header(language: Language, source: &str) -> (r: bool)
    ensures
        r == has_header(language, text_lines(source@)),
{
    match language {
        Language::Rust => true,
        Language::Go => any_line_starts_with(source, GO_DIRECTIVE),
        Language::Python => any_line_contains(source, PYTHON_DIRECTIVE),
        Language::Typescript => any_line_contains(source, IMPORTS_WRAPPER) || any_line_contains(
            source,
            IMPORTS_DECORATOR,
        ) || any_line_contains(source, IMPORTS_BOTH),
    }
}

/// The header edits of a source.
fn plan_header(language: Language, source: &str) -> (plan: Vec<Edit>)
    ensures
        edits_view(plan@) == header_plan(language, text_lines(source@)),
{
    let mut plan: Vec<Edit> = Vec::new();
    if !find_header(language, source) {
        let text = match language {
            Language::Rust => String::new(),
            Language::Go => GO_HEADER.to_owned(),
            Language::Python => PYTHON_HEADER.to_owned(),
            Language::Typescript => TYPESCRIPT_HEADER.to_owned(),
        };
        plan.push(Edit { line: 0, column: 0, text, adds_line: true });
        assert(edits_view(plan@) == header_plan(language, text_lines(source@)));
    } else {
        assert(edits_view(plan@) == Seq::<EditView>::empty());
    }
    plan
}

/// Writes the line that marks a function.
fn write_marker(language: Language, info: &FunctionInfo) -> (edit: Edit)
    requires
        info.definition is Some,
    ensures
        edit@ == marker_edit(language, info@),
{
    let text = match language {
        Language::Rust => RUST_MARKER.to_owned(),
        Language::Go => GO_MARKER.to_owned(),
        Language::Typescript => TYPESCRIPT_MARKER.to_owned(),
        Language::Python => {
            let column = match &info.definition {
                Some(l) => l.range.start.column,
                None => 0,
            };
            let width = if column >= DEF_LEN {
                column - DEF_LEN
            } else {
                0
            };
            indent(width).concat(PYTHON_MARKER)
        },
    };
    Edit { line: info.start_line(), column: 0, text, adds_line: true }
}

/// Puts the edits that mark the functions of `list` behind `plan`.
fn plan_markers(language: Language, list: &Vec<FunctionInfo>, plan: &mut Vec<Edit>)
    ensures
        edits_view(final(plan)@) == edits_view(old(plan)@) + marker_plan(
            language,
            infos_view(list@),
        ),
{
    let ghost before = edits_view(plan@);
    let ghost all = infos_view(list@);
    let mut i: usize = 0;
    assert(all.take(0) == Seq::<FunctionInfoView>::empty());
    assert(before + Seq::<EditView>::empty() == before);
    while i < list.len()
        invariant
            i <= list.len(),
            all == infos_view(list@),
            edits_view(plan@) == before + marker_plan(language, all.take(i as int)),
        decreases list.len() - i,
    {
        let info = &list[i];
        proof {
            assert(all.take(i as int + 1).drop_last() == all.take(i as int));
            assert(all.take(i as int + 1).last() == info@);
        }
        if info.definition.is_some() && info.instrumentation.is_none() {
            let edit = write_marker(language, info);
            let ghost so_far = plan@;
            plan.push(edit);
            assert(edits_view(plan@) == edits_view(so_far).push(edit@));
            assert(edits_view(plan@) == before + marker_plan(language, all.take(i as int + 1)));
        }
        i += 1;
    }
    assert(all.take(list.len() as int) == all);
}

/// Whether nothing is left to instrument in a source of which `list` holds
/// the functions: it has the line that its language wants at the top, and
/// every function of the list is instrumented or not defined in it.
pub open spec fn fully_instrumented(
    language: Language,
    source: Seq<char>,
    list: Seq<FunctionInfoView>,
) -> bool {
    &&& has_header(language, text_lines(source))
    &&& forall|i: int| 0 <= i < list.len() ==> !needs_marker(#[trigger] list[i])
}

/// Functions that need no marker get no edit.
proof fn no_marker_no_edit(language: Language, list: Seq<FunctionInfoView>)
    requires
        forall|i: int| 0 <= i < list.len() ==> !needs_marker(#[trigger] list[i]),
    ensures
        marker_plan(language, list).len() == 0,
    decreases list.len(),
{
    if list.len() > 0 {
        assert(!needs_marker(list[list.len() - 1]));
        no_marker_no_edit(language, list.drop_last());
    }
}

/// Arranging functions that need no marker gives functions that need no
/// marker.
proof fn arranged_needs_no_marker(list: Seq<FunctionInfoView>)
    requires
        forall|i: int| 0 <= i < list.len() ==> !needs_marker(#[trigger] list[i]),
    ensures
        forall|i: int|
            0 <= i < arranged(Arrangement::ByDefinitionLine, list).len() ==> !needs_marker(
                #[trigger] arranged(Arrangement::ByDefinitionLine, list)[i],
            ),
{
    let sorted = arranged(Arrangement::ByDefinitionLine, list);
    crate::order::arranged_is_a_rearrangement(Arrangement::ByDefinitionLine, list);
    assert forall|i: int| 0 <= i < sorted.len() implies !needs_marker(#[trigger] sorted[i]) by {
        vstd::seq_lib::to_multiset_contains(sorted, sorted[i]);
        vstd::seq_lib::to_multiset_contains(list, sorted[i]);
        assert(sorted.contains(sorted[i]));
        let at = choose|at: int| 0 <= at < list.len() && list[at] == sorted[i];
        assert(!needs_marker(list[at]));
    }
}

/// A source in which nothing is left to instrument gets no edit: rewriting
/// it gives it back byte for byte.
pub proof fn fully_instrumented_needs_no_edit(
    language: Language,
    source: Seq<char>,
    list: Seq<FunctionInfoView>,
)
    requires
        fully_instrumented(language, source, list),
    ensures
        line_plan(language, source, list).len() == 0,
        with_edits(encode_utf8(source), line_plan(language, source, list), 0) == encode_utf8(
            source,
        ),
        edits_fit(encode_utf8(source), line_plan(language, source, list), 0),
{
    arranged_needs_no_marker(list);
    no_marker_no_edit(language, arranged(Arrangement::ByDefinitionLine, list));
}

/// Whether each edit of a plan goes in at the start of a line and adds a
/// line, no edit higher up than the one before it.
pub open spec fn goes_down(plan: Seq<EditView>) -> bool {
    &&& forall|i: int| 0 <= i < plan.len() ==> (#[trigger] plan[i]).column == 0 && plan[i].adds_line
    &&& forall|i: int, j: int|
        0 <= i <= j < plan.len() ==> (#[trigger] plan[i]).line <= (#[trigger] plan[j]).line
}

/// The markers of functions that are arranged by the line of their
/// definition go in from the top down, none below the last function.
proof fn markers_go_down(language: Language, list: Seq<FunctionInfoView>)
    requires
        in_order(Arrangement::ByDefinitionLine, list),
    ensures
        goes_down(marker_plan(language, list)),
        forall|i: int|
            0 <= i < marker_plan(language, list).len() ==> (#[trigger] marker_plan(
                language,
                list,
            )[i]).line <= line_of(list.last()),
    decreases list.len(),
{
    if list.len() > 0 {
        let front = list.drop_last();
        assert forall|i: int, j: int| 0 <= i < j < front.len() implies !crate::order::precedes(
            Arrangement::ByDefinitionLine,
            front[j],
            front[i],
        ) by {
            assert(front[i] == list[i] && front[j] == list[j]);
        }
        markers_go_down(language, front);
        if front.len() > 0 {
            assert(front.last() == list[list.len() - 2]);
            assert(!crate::order::precedes(
                Arrangement::ByDefinitionLine,
                list[list.len() - 1],
                list[list.len() - 2],
            ));
        }
    }
}

/// The edits that mark the functions of a source go in from the top down,
/// each at the start of a line.
pub proof fn line_plan_goes_down(
    language: Language,
    source: Seq<char>,
    list: Seq<FunctionInfoView>,
)
    ensures
        goes_down(line_plan(language, source, list)),
{
    let sorted = arranged(Arrangement::ByDefinitionLine, list);
    arranged_is_in_order(Arrangement::ByDefinitionLine, list);
    markers_go_down(language, sorted);
}

/// The line that marks a function is one whole line.
pub proof fn marker_is_a_line(language: Language, info: FunctionInfoView)
    ensures
        is_text_line(marker_line(language, info)),
{
    reveal_strlit("#[autometrics::autometrics]\n");
    reveal_strlit("//autometrics:inst\n");
    reveal_strlit("@autometrics\n");
    reveal_strlit("@Autometrics()\n");
    match language {
        Language::Rust => {
            assert(is_text_line(RUST_MARKER@));
        },
        Language::Go => {
            assert(is_text_line(GO_MARKER@));
        },
        Language::Typescript => {
            assert(is_text_line(TYPESCRIPT_MARKER@));
        },
        Language::Python => {
            assert(is_text_line(PYTHON_MARKER@));
            let line = marker_line(language, info);
            let indent = (line.len() - PYTHON_MARKER@.len()) as int;
            assert(line.last() == PYTHON_MARKER@.last());
            assert forall|i: int| 0 <= i < line.len() - 1 implies line[i] != '\n' by {
                if i >= indent {
                    assert(line[i] == PYTHON_MARKER@[i - indent]);
                }
            }
        },
    }
}

/// The line that a language wants at the top of a source is one whole line.
pub proof fn header_is_a_line(language: Language)
    requires
        language != Language::Rust,
    ensures
        is_text_line(header_text(language)),
{
    reveal_strlit("//go:generate autometrics --otel\n");
    reveal_strlit("from autometrics import autometrics\n");
    reveal_strlit("import { placeholder } from '@autometrics/autometrics';\n");
    match language {
        Language::Go => {
            assert(is_text_line(GO_HEADER@));
        },
        Language::Python => {
            assert(is_text_line(PYTHON_HEADER@));
        },
        _ => {
            assert(is_text_line(TYPESCRIPT_HEADER@));
        },
    }
}

/// Every edit that marks a function puts in one whole line.
proof fn markers_are_lines(language: Language, list: Seq<FunctionInfoView>)
    ensures
        forall|i: int|
            0 <= i < marker_plan(language, list).len() ==> is_text_line(
                (#[trigger] marker_plan(language, list)[i]).text,
            ),
    decreases list.len(),
{
    if list.len() > 0 {
        let front = marker_plan(language, list.drop_last());
        let plan = marker_plan(language, list);
        markers_are_lines(language, list.drop_last());
        marker_is_a_line(language, list.last());
        assert forall|i: int| 0 <= i < plan.len() implies is_text_line((#[trigger] plan[i]).text) by {
            if i < front.len() {
                assert(plan[i] == front[i]);
            } else {
                assert(plan[i] == marker_edit(language, list.last()));
            }
        }
    }
}

/// Every edit of the plan for a source puts in one whole line.
pub proof fn line_plan_is_of_lines(
    language: Language,
    source: Seq<char>,
    list: Seq<FunctionInfoView>,
)
    ensures
        forall|i: int|
            0 <= i < line_plan(language, source, list).len() ==> is_line(
                encode_utf8((#[trigger] line_plan(language, source, list)[i]).text),
            ),
{
    let header = header_plan(language, text_lines(source));
    let markers = marker_plan(language, arranged(Arrangement::ByDefinitionLine, list));
    let plan = line_plan(language, source, list);
    markers_are_lines(language, arranged(Arrangement::ByDefinitionLine, list));
    if header.len() > 0 {
        header_is_a_line(language);
    }
    assert forall|i: int| 0 <= i < plan.len() implies is_line(
        encode_utf8((#[trigger] plan[i]).text),
    ) by {
        if i < header.len() {
            assert(plan[i] == header[i]);
        } else {
            assert(plan[i] == markers[i - header.len()]);
        }
        line_of_text_is_line(plan[i].text);
    }
}

/// Whether the source has every line on which a function of the list that
/// needs a marker is said to be defined, the place behind its last line
/// feed counted as a line.
pub open spec fn has_the_lines(
    language: Language,
    source: Seq<char>,
    list: Seq<FunctionInfoView>,
) -> bool {
    forall|i: int|
        0 <= i < line_plan(language, source, list).len() ==> (#[trigger] line_plan(
            language,
            source,
            list,
        )[i]).line <= line_breaks(encode_utf8(source))
}

/// A source that has the lines on which its functions are said to be
/// defined can be rewritten: the edits that mark its functions fit.
pub proof fn markers_fit(language: Language, source: Seq<char>, list: Seq<FunctionInfoView>)
    requires
        has_the_lines(language, source, list),
    ensures
        is_line_plan(encode_utf8(source), line_plan(language, source, list), 0),
        edits_fit(encode_utf8(source), line_plan(language, source, list), 0),
{
    line_plan_goes_down(language, source, list);
    line_plan_is_of_lines(language, source, list);
    vstd::utf8::encode_utf8_valid_utf8(source);
    line_plan_fits(encode_utf8(source), line_plan(language, source, list), 0);
}

/// Where the markers stand in a rewritten source that has the lines on
/// which its functions are said to be defined. The line of edit `k` stands
/// in the rewritten source on the line that the edit names, moved down by
/// the `k` lines that went in before it, and a line of the source with
/// `count` edits at or above it stands `count` lines lower and holds what it
/// held: the line on which a function is defined stands right below its
/// marker.
pub proof fn markers_land(
    language: Language,
    source: Seq<char>,
    list: Seq<FunctionInfoView>,
    k: nat,
    line: nat,
    count: nat,
)
    requires
        has_the_lines(language, source, list),
        k < line_plan(language, source, list).len(),
        edits_down_to(line_plan(language, source, list), 0, line, count),
    ensures
        edits_fit(encode_utf8(source), line_plan(language, source, list), 0),
        ({
            let plan = line_plan(language, source, list);
            let text = encode_utf8(source);
            let after = with_edits(text, plan, 0);
            let place = line_start(text, plan[k as int].line as nat) + bytes_before(plan, k);
            &&& line_start(after, (plan[k as int].line + k) as nat) == place
            &&& after.subrange(place, place + encode_utf8(plan[k as int].text).len())
                == encode_utf8(plan[k as int].text)
            &&& line_start(after, line + count) == line_start(text, line) + bytes_before(
                plan,
                count,
            )
            &&& after.subrange(
                line_start(text, line) + bytes_before(plan, count),
                line_start(text, line + 1) + bytes_before(plan, count),
            ) == text.subrange(line_start(text, line), line_start(text, line + 1))
        }),
{
    let plan = line_plan(language, source, list);
    let text = encode_utf8(source);
    markers_fit(language, source, list);
    lines_land(text, plan, 0, k);
    line_moves_down(text, plan, 0, line, count);
}

/// Rewrites a Go, Python or Rust source so that the functions of
/// `functions` that it defines without the marker carry it. Nothing is
/// rewritten when an edit cannot go in, which is the case when a function is
/// said to be defined on a line that the source does not have; a source that
/// has those lines is rewritten.
///
/// With nothing to put in, the source comes back byte for byte.
pub fn mark_lines(language: Language, source: &str, functions: Vec<FunctionInfo>) -> (r: Option<
    String,
>)
    ensures
        match r {
            Some(text) => edits_fit(
                encode_utf8(source@),
                line_plan(language, source@, infos_view(functions@)),
                0,
            ) && encode_utf8(text@) == with_edits(
                encode_utf8(source@),
                line_plan(language, source@, infos_view(functions@)),
                0,
            ),
            None => !edits_fit(
                encode_utf8(source@),
                line_plan(language, source@, infos_view(functions@)),
                0,
            ),
        },
        line_plan(language, source@, infos_view(functions@)).len() == 0 ==> (r matches Some(text)
            && text@ == source@),
        fully_instrumented(language, source@, infos_view(functions@)) ==> (r matches Some(text)
            && text@ == source@),
        has_the_lines(language, source@, infos_view(functions@)) ==> r is Some,
{
    proof {
        if fully_instrumented(language, source@, infos_view(functions@)) {
            fully_instrumented_needs_no_edit(language, source@, infos_view(functions@));
        }
        if has_the_lines(language, source@, infos_view(functions@)) {
            markers_fit(language, source@, infos_view(functions@));
        }
    }
    let sorted = arrange(Arrangement::ByDefinitionLine, functions);
    let mut plan = plan_header(language, source);
    plan_markers(language, &sorted, &mut plan);
    let mut rope = rope_from(source);
    if apply_edits(&mut rope, &plan) {
        let text = rope_to_string(&rope);
        proof {
            if edits_view(plan@).len() == 0 {
                same_bytes_same_text(text@, source@);
            }
        }
        Some(text)
    } else {
        None
    }
}

/// Two texts with the same bytes are the same text.
pub proof fn same_bytes_same_text(a: Seq<char>, b: Seq<char>)
    requires
        encode_utf8(a) == encode_utf8(b),
    ensures
        a == b,
{
    vstd::utf8::encode_utf8_decode_utf8(a);
    vstd::utf8::encode_utf8_decode_utf8(b);
}

/// The definition listed under a key that starts on the earliest line, the
/// first of them where several start on that line.
pub open spec fn earliest(valued: Seq<(FunctionInfoView, Option<Range>)>, id: FunctionIdView)
    -> Option<(FunctionInfoView, Option<Range>)>
    decreases valued.len(),
{
    if valued.len() == 0 {
        None
    } else if valued.last().0.id == id {
        match earliest(valued.drop_last(), id) {
            Some(best) if line_of(best.0) <= line_of(valued.last().0) => Some(best),
            _ => Some(valued.last()),
        }
    } else {
        earliest(valued.drop_last(), id)
    }
}

/// The stretch of the expression that is the value of the function under a
/// key, if the function is listed with one.
pub open spec fn value_range(valued: Seq<(FunctionInfoView, Option<Range>)>, id: FunctionIdView)
    -> Option<Range> {
    match earliest(valued, id) {
        Some(entry) => entry.1,
        None => None,
    }
}

/// The column behind the value of a function once the call has been opened
/// before it: further right by the opening when the value ends on the line
/// on which it starts.
pub open spec fn closing_column(range: Range) -> usize {
    if range.end.line != range.start.line {
        range.end.column
    } else if range.end.column + WRAPPER_OPEN_LEN <= usize::MAX {
        (range.end.column + WRAPPER_OPEN_LEN) as usize
    } else {
        usize::MAX
    }
}

/// The edits that mark one TypeScript function: a wrapper call around its
/// value where it has one, and a decorator line above it otherwise.
pub open spec fn wrapping_edits(
    info: FunctionInfoView,
    valued: Seq<(FunctionInfoView, Option<Range>)>,
) -> Seq<EditView> {
    match value_range(valued, info.id) {
        Some(range) => seq![
            EditView {
                line: range.start.line,
                column: range.start.column,
                text: WRAPPER_OPEN@,
                adds_line: false,
            },
            EditView {
                line: range.end.line,
                column: closing_column(range),
                text: WRAPPER_CLOSE@,
                adds_line: false,
            },
        ],
        None => seq![marker_edit(Language::Typescript, info)],
    }
}

/// The edits that mark the TypeScript functions of a list, in the order of
/// the list.
pub open spec fn wrapping_plan(
    list: Seq<FunctionInfoView>,
    valued: Seq<(FunctionInfoView, Option<Range>)>,
) -> Seq<EditView>
    decreases list.len(),
{
    if list.len() == 0 {
        Seq::empty()
    } else if needs_marker(list.last()) {
        wrapping_plan(list.drop_last(), valued) + wrapping_edits(list.last(), valued)
    } else {
        wrapping_plan(list.drop_last(), valued)
    }
}

/// Whether marking the functions of a list puts in a wrapper call.
pub open spec fn wraps(list: Seq<FunctionInfoView>, valued: Seq<(FunctionInfoView, Option<Range>)>)
    -> bool
    decreases list.len(),
{
    list.len() > 0 && (wraps(list.drop_last(), valued) || (needs_marker(list.last())
        && value_range(valued, list.last().id) is Some))
}

/// Whether marking the functions of a list puts in a decorator line.
pub open spec fn decorates(
    list: Seq<FunctionInfoView>,
    valued: Seq<(FunctionInfoView, Option<Range>)>,
) -> bool
    decreases list.len(),
{
    list.len() > 0 && (decorates(list.drop_last(), valued) || (needs_marker(list.last())
        && value_range(valued, list.last().id) is None))
}

/// The names that the import line asks for.
pub open spec fn import_names(wrapper: bool, decorator: bool) -> Seq<char> {
    if wrapper && decorator {
        NAMES_BOTH@
    } else if wrapper {
        NAME_WRAPPER@
    } else if decorator {
        NAME_DECORATOR@
    } else {
        Seq::empty()
    }
}

/// The edits that rewrite a TypeScript source: the import line where it is
/// missing, then the marks of the functions, top to bottom.
pub open spec fn wrapped_plan(
    source: Seq<char>,
    list: Seq<FunctionInfoView>,
    valued: Seq<(FunctionInfoView, Option<Range>)>,
) -> Seq<EditView> {
    header_plan(Language::Typescript, text_lines(source)) + wrapping_plan(
        arranged(Arrangement::ByDefinitionLine, list),
        valued,
    )
}

/// Whether the stand-in for the names can be replaced in a text.
pub open spec fn names_fit(text: Seq<u8>) -> bool {
    &&& PLACEHOLDER_END <= text.len()
    &&& is_char_boundary(text, PLACEHOLDER_START as int)
    &&& is_char_boundary(text, PLACEHOLDER_END as int)
}

/// Whether a TypeScript source can be rewritten: the edits can go in, and
/// where the import line went in, its stand-in can be replaced.
pub open spec fn wrapping_fits(
    source: Seq<char>,
    list: Seq<FunctionInfoView>,
    valued: Seq<(FunctionInfoView, Option<Range>)>,
) -> bool {
    &&& edits_fit(encode_utf8(source), wrapped_plan(source, list, valued), 0)
    &&& !has_header(Language::Typescript, text_lines(source)) ==> names_fit(
        with_edits(encode_utf8(source), wrapped_plan(source, list, valued), 0),
    )
}

/// The bytes of a rewritten TypeScript source: the source with the edits
/// put in and, where the import line went in, with the names that the marks
/// need in place of the stand-in.
pub open spec fn wrapped_bytes(
    source: Seq<char>,
    list: Seq<FunctionInfoView>,
    valued: Seq<(FunctionInfoView, Option<Range>)>,
) -> Seq<u8> {
    let edited = with_edits(encode_utf8(source), wrapped_plan(source, list, valued), 0);
    let sorted = arranged(Arrangement::ByDefinitionLine, list);
    if has_header(Language::Typescript, text_lines(source)) {
        edited
    } else {
        replaced(
            edited,
            PLACEHOLDER_START as int,
            PLACEHOLDER_END as int,
            encode_utf8(import_names(wraps(sorted, valued), decorates(sorted, valued))),
        )
    }
}

/// Functions that need no mark get no edit.
proof fn no_mark_no_edit(
    list: Seq<FunctionInfoView>,
    valued: Seq<(FunctionInfoView, Option<Range>)>,
)
    requires
        forall|i: int| 0 <= i < list.len() ==> !needs_marker(#[trigger] list[i]),
    ensures
        wrapping_plan(list, valued).len() == 0,
    decreases list.len(),
{
    if list.len() > 0 {
        assert(!needs_marker(list[list.len() - 1]));
        no_mark_no_edit(list.drop_last(), valued);
    }
}

/// A TypeScript source in which nothing is left to instrument gets no
/// edit: rewriting it gives it back byte for byte.
pub proof fn fully_wrapped_needs_no_edit(
    source: Seq<char>,
    list: Seq<FunctionInfoView>,
    valued: Seq<(FunctionInfoView, Option<Range>)>,
)
    requires
        fully_instrumented(Language::Typescript, source, list),
    ensures
        wrapped_plan(source, list, valued).len() == 0,
        wrapping_fits(source, list, valued),
        wrapped_bytes(source, list, valued) == encode_utf8(source),
{
    arranged_needs_no_marker(list);
    no_mark_no_edit(arranged(Arrangement::ByDefinitionLine, list), valued);
}

/// Finds the stretch of the value of the function under the key of `info`.
fn find_value(definitions: &Vec<TypescriptFunctionInfo>, info: &FunctionInfo) -> (range: Option<
    Range,
>)
    ensures
        range == value_range(valued_view(definitions@), info@.id),
{
    let ghost valued = valued_view(definitions@);
    let mut best: Option<usize> = None;
    let mut i: usize = 0;
    assert(valued.take(0) == Seq::<(FunctionInfoView, Option<Range>)>::empty());
    while i < definitions.len()
        invariant
            i <= definitions.len(),
            valued == valued_view(definitions@),
            match best {
                Some(at) => at < i && earliest(valued.take(i as int), info@.id) == Some(
                    valued[at as int],
                ),
                None => earliest(valued.take(i as int), info@.id) is None,
            },
        decreases definitions.len() - i,
    {
        proof {
            assert(valued.take(i as int + 1).drop_last() == valued.take(i as int));
            assert(valued.take(i as int + 1).last() == definitions@[i as int]@);
        }
        if definitions[i].inner_info.id.same_as(&info.id) {
            match best {
                Some(at) => {
                    assert(valued[at as int] == definitions@[at as int]@);
                    if definitions[at].inner_info.start_line()
                        > definitions[i].inner_info.start_line() {
                        best = Some(i);
                    }
                },
                None => {
                    best = Some(i);
                },
            }
        }
        i += 1;
    }
    assert(valued.take(definitions.len() as int) == valued);
    match best {
        Some(at) => {
            assert(valued[at as int] == definitions@[at as int]@);
            definitions[at].function_rvalue_range
        },
        None => None,
    }
}

/// Rewrites a TypeScript source so that the functions of `functions` that
/// it defines without a mark carry one: a wrapper call around a function
/// that `definitions` lists with the stretch of its value, a decorator line
/// above any other. Nothing is rewritten when an edit cannot go in.
///
/// With nothing to put in, the source comes back byte for byte.
pub fn wrap_functions(
    source: &str,
    functions: Vec<FunctionInfo>,
    definitions: &Vec<TypescriptFunctionInfo>,
) -> (r: Option<String>)
    ensures
        match r {
            Some(text) => wrapping_fits(
                source@,
                infos_view(functions@),
                valued_view(definitions@),
            ) && encode_utf8(text@) == wrapped_bytes(
                source@,
                infos_view(functions@),
                valued_view(definitions@),
            ),
            None => !wrapping_fits(source@, infos_view(functions@), valued_view(definitions@)),
        },
        wrapped_plan(source@, infos_view(functions@), valued_view(definitions@)).len() == 0 ==> (
        r matches Some(text) && text@ == source@),
        fully_instrumented(Language::Typescript, source@, infos_view(functions@)) ==> (
        r matches Some(text) && text@ == source@),
{
    let ghost valued = valued_view(definitions@);
    proof {
        if fully_instrumented(Language::Typescript, source@, infos_view(functions@)) {
            fully_wrapped_needs_no_edit(source@, infos_view(functions@), valued);
        }
    }
    let sorted = arrange(Arrangement::ByDefinitionLine, functions);
    let ghost list = infos_view(sorted@);
    let mut plan = plan_header(Language::Typescript, source);
    let has_directive = plan.len() == 0;
    let ghost head = edits_view(plan@);
    let mut needs_wrapper_import = false;
    let mut needs_decorator_import = false;
    let mut i: usize = 0;
    assert(list.take(0) == Seq::<FunctionInfoView>::empty());
    assert(head + Seq::<EditView>::empty() == head);
    while i < sorted.len()
        invariant
            i <= sorted.len(),
            list == infos_view(sorted@),
            valued == valued_view(definitions@),
            edits_view(plan@) == head + wrapping_plan(list.take(i as int), valued),
            needs_wrapper_import == wraps(list.take(i as int), valued),
            needs_decorator_import == decorates(list.take(i as int), valued),
        decreases sorted.len() - i,
    {
        let info = &sorted[i];
        proof {
            assert(list.take(i as int + 1).drop_last() == list.take(i as int));
            assert(list.take(i as int + 1).last() == info@);
        }
        if info.definition.is_some() && info.instrumentation.is_none() {
            let ghost so_far = edits_view(plan@);
            match find_value(definitions, info) {
                Some(range) => {
                    let close = if range.end.line != range.start.line {
                        range.end.column
                    } else if range.end.column <= usize::MAX - WRAPPER_OPEN_LEN {
                        range.end.column + WRAPPER_OPEN_LEN
                    } else {
                        usize::MAX
                    };
                    let open_edit = Edit {
                        line: range.start.line,
                        column: range.start.column,
                        text: WRAPPER_OPEN.to_owned(),
                        adds_line: false,
                    };
                    let close_edit = Edit {
                        line: range.end.line,
                        column: close,
                        text: WRAPPER_CLOSE.to_owned(),
                        adds_line: false,
                    };
                    let ghost two = seq![open_edit@, close_edit@];
                    plan.push(open_edit);
                    plan.push(close_edit);
                    assert(edits_view(plan@) == so_far + two);
                    assert(two == wrapping_edits(info@, valued));
                    needs_wrapper_import = true;
                },
                None => {
                    let edit = write_marker(Language::Typescript, info);
                    plan.push(edit);
                    assert(edits_view(plan@) == so_far + seq![edit@]);
                    needs_decorator_import = true;
                },
            }
            assert(edits_view(plan@) == head + wrapping_plan(list.take(i as int + 1), valued)) by {
                let before = wrapping_plan(list.take(i as int), valued);
                let added = wrapping_edits(info@, valued);
                assert((head + before) + added == head + (before + added));
            }
        }
        i += 1;
    }
    assert(list.take(sorted.len() as int) == list);
    let mut rope = rope_from(source);
    if !apply_edits(&mut rope, &plan) {
        return None;
    }
    if !has_directive {
        let len = rope_byte_len(&rope);
        if PLACEHOLDER_END > len || !rope_is_char_boundary(&rope, PLACEHOLDER_START)
            || !rope_is_char_boundary(&rope, PLACEHOLDER_END) {
            return None;
        }
        let imports = if needs_wrapper_import && needs_decorator_import {
            NAMES_BOTH
        } else if needs_wrapper_import {
            NAME_WRAPPER
        } else if needs_decorator_import {
            NAME_DECORATOR
        } else {
            ""
        };
        proof {
            reveal_strlit("");
            assert(""@ == Seq::<char>::empty());
        }
        rope_replace(&mut rope, PLACEHOLDER_START, PLACEHOLDER_END, imports);
    }
    let text = rope_to_string(&rope);
    proof {
        if edits_view(plan@).len() == 0 {
            same_bytes_same_text(text@, source@);
        }
    }
    Some(text)
}

/// Whether `text` is a rewriting of `source` as a source of `language`: the
/// source with the edits that mark the functions of a listing of it by the
/// analysis of the language, the instrumented functions reconciled with all
/// that it defines.
pub open spec fn is_rewriting(language: Language, source: Seq<char>, text: Seq<char>) -> bool {
    match language {
        Language::Rust => rewritten_by::<crate::rust::Impl>(language, source, text),
        Language::Go => rewritten_by::<crate::go::Impl>(language, source, text),
        Language::Typescript => rewritten_by::<crate::typescript::Impl>(language, source, text),
        Language::Python => rewritten_by::<crate::python::Impl>(language, source, text),
    }
}

/// Whether `text` is `source` with the edits that mark the functions of a
/// listing of it by an analysis.
pub open spec fn rewritten_by<T: ListAmFunctions>(
    language: Language,
    source: Seq<char>,
    text: Seq<char>,
) -> bool {
    exists|am: Seq<FunctionInfoView>, all: Seq<FunctionInfoView>|
        {
            &&& #[trigger] T::instrumented_in_source(source, am)
            &&& #[trigger] T::defined_in_source(source, all)
            &&& all_instrumented(am)
            &&& all_defined(all)
            &&& rewrites(language, source, merged(am, all), text)
        }
}

/// Whether `text` is `source` with the edits that mark the functions of
/// `list`. The functions of a TypeScript source are marked according to a
/// listing of its definitions with the stretches of their values.
pub open spec fn rewrites(
    language: Language,
    source: Seq<char>,
    list: Seq<FunctionInfoView>,
    text: Seq<char>,
) -> bool {
    if language == Language::Typescript {
        exists|query: crate::typescript::AllFunctionsQuery, tree: &tree_sitter::Tree|
            {
                &&& query.reads()
                &&& parses(tree, Language::Typescript, source)
                &&& #[trigger] wrapping_fits(
                    source,
                    list,
                    query.listed(crate::typescript::SINGLE_FILE@, ""@, tree_root(tree), source),
                )
                &&& encode_utf8(text) == wrapped_bytes(
                    source,
                    list,
                    query.listed(crate::typescript::SINGLE_FILE@, ""@, tree_root(tree), source),
                )
            }
    } else {
        &&& edits_fit(encode_utf8(source), line_plan(language, source, list), 0)
        &&& encode_utf8(text) == with_edits(
            encode_utf8(source),
            line_plan(language, source, list),
            0,
        )
    }
}

/// Whether the edits that mark the functions of `list` cannot go into
/// `source`: a function is said to be defined, or a value to lie, where the
/// source has no line or no place between two characters.
pub open spec fn misfits(language: Language, source: Seq<char>, list: Seq<FunctionInfoView>)
    -> bool {
    if language == Language::Typescript {
        exists|query: crate::typescript::AllFunctionsQuery, tree: &tree_sitter::Tree|
            {
                &&& query.reads()
                &&& parses(tree, Language::Typescript, source)
                &&& !wrapping_fits(
                    source,
                    list,
                    #[trigger] query.listed(
                        crate::typescript::SINGLE_FILE@,
                        ""@,
                        tree_root(tree),
                        source,
                    ),
                )
            }
    } else {
        !edits_fit(encode_utf8(source), line_plan(language, source, list), 0)
    }
}

/// Whether `error` is what rewriting `source` by an analysis fails with:
/// what its listing of the instrumented functions of the source fails with,
/// what its listing of the definitions fails with after the first has
/// succeeded, or `InvalidText` where both have succeeded and the edits that
/// mark the functions of the listings cannot go in.
pub open spec fn fails_by<T: ListAmFunctions>(
    language: Language,
    source: Seq<char>,
    error: AmlError,
) -> bool {
    ||| T::instrumented_failure(source, error)
    ||| (exists|am: Seq<FunctionInfoView>|
        #[trigger] T::instrumented_in_source(source, am) && all_instrumented(am))
        && T::defined_failure(source, error)
    ||| error == AmlError::InvalidText && exists|
        am: Seq<FunctionInfoView>,
        all: Seq<FunctionInfoView>,
    |
        {
            &&& #[trigger] T::instrumented_in_source(source, am)
            &&& #[trigger] T::defined_in_source(source, all)
            &&& all_instrumented(am)
            &&& all_defined(all)
            &&& misfits(language, source, merged(am, all))
        }
}

/// Whether `error` is what rewriting `source` as a source of `language`
/// fails with.
pub open spec fn is_rewriting_failure(language: Language, source: Seq<char>, error: AmlError)
    -> bool {
    match language {
        Language::Rust => fails_by::<crate::rust::Impl>(language, source, error),
        Language::Go => fails_by::<crate::go::Impl>(language, source, error),
        Language::Typescript => fails_by::<crate::typescript::Impl>(language, source, error),
        Language::Python => fails_by::<crate::python::Impl>(language, source, error),
    }
}

/// Whether an error ends a batch of rewritings: a grammar or a query cannot
/// be made, which no other file would mend. Any other failure is that of
/// one file, and the batch goes on behind it.
pub open spec fn is_fatal(error: AmlError) -> bool {
    error is CreateParser || error is CreateQuery || error is MissingNamedCapture
}

/// Tells whether an error ends a batch of rewritings.
pub fn ends_batch(error: &AmlError) -> (r: bool)
    ensures
        r == is_fatal(*error),
{
    match error {
        AmlError::CreateParser => true,
        AmlError::CreateQuery => true,
        AmlError::MissingNamedCapture(_) => true,
        _ => false,
    }
}

/// What every language offers to rewrite a source.
pub trait InstrumentFile {
    /// The language whose sources are rewritten.
    spec fn language() -> Language;

    /// Rewrites a source so that every function it defines is instrumented:
    /// lists the functions of the source, instrumented ones reconciled with
    /// all that it defines, and marks those that need it. The rewriting
    /// fails with what a listing fails with, or with `InvalidText` when an
    /// edit cannot go in.
    fn instrument_source_code(&mut self, source: &str) -> (r: Result<String, AmlError>)
        ensures
            match r {
                Ok(text) => is_rewriting(Self::language(), source@, text@),
                Err(e) => is_rewriting_failure(Self::language(), source@, e),
            },
    ;
}

impl InstrumentFile for crate::rust::Impl {
    open spec fn language() -> Language {
        Language::Rust
    }

    fn instrument_source_code(&mut self, source: &str) -> (r: Result<String, AmlError>) {
        let locations = self.list_all_functions_in_single_file(source)?;
        let ghost list = infos_view(locations@);
        match mark_lines(Language::Rust, source, locations) {
            Some(text) => {
                assert(rewrites(Language::Rust, source@, list, text@));
                Ok(text)
            },
            None => {
                assert(misfits(Language::Rust, source@, list));
                Err(AmlError::InvalidText)
            },
        }
    }
}

impl InstrumentFile for crate::go::Impl {
    open spec fn language() -> Language {
        Language::Go
    }

    fn instrument_source_code(&mut self, source: &str) -> (r: Result<String, AmlError>) {
        let locations = self.list_all_functions_in_single_file(source)?;
        let ghost list = infos_view(locations@);
        match mark_lines(Language::Go, source, locations) {
            Some(text) => {
                assert(rewrites(Language::Go, source@, list, text@));
                Ok(text)
            },
            None => {
                assert(misfits(Language::Go, source@, list));
                Err(AmlError::InvalidText)
            },
        }
    }
}

impl InstrumentFile for crate::python::Impl {
    open spec fn language() -> Language {
        Language::Python
    }

    fn instrument_source_code(&mut self, source: &str) -> (r: Result<String, AmlError>) {
        let locations = self.list_all_functions_in_single_file(source)?;
        let ghost list = infos_view(locations@);
        match mark_lines(Language::Python, source, locations) {
            Some(text) => {
                assert(rewrites(Language::Python, source@, list, text@));
                Ok(text)
            },
            None => {
                assert(misfits(Language::Python, source@, list));
                Err(AmlError::InvalidText)
            },
        }
    }
}

impl InstrumentFile for crate::typescript::Impl {
    open spec fn language() -> Language {
        Language::Typescript
    }

    fn instrument_source_code(&mut self, source: &str) -> (r: Result<String, AmlError>) {
        let locations = self.list_all_functions_in_single_file(source)?;
        let definitions = self.ts_function_definitions_in_single_file(source)?;
        let ghost list = infos_view(locations@);
        match wrap_functions(source, locations, &definitions) {
            Some(text) => {
                assert(wrapping_fits(source@, list, valued_view(definitions@)));
                assert(rewrites(Language::Typescript, source@, list, text@));
                Ok(text)
            },
            None => {
                assert(!wrapping_fits(source@, list, valued_view(definitions@)));
                assert(misfits(Language::Typescript, source@, list));
                Err(AmlError::InvalidText)
            },
        }
    }
}

/// Rewrites a source of the language `language` so that every function it
/// defines is instrumented. The rewriting fails with what a listing of the
/// source fails with, or with `InvalidText` when an edit cannot go in.
pub fn instrument_source(language: Language, source: &str) -> (r: Result<String, AmlError>)
    ensures
        match r {
            Ok(text) => is_rewriting(language, source@, text@),
            Err(e) => is_rewriting_failure(language, source@, e),
        },
{
    match language {
        Language::Rust => {
            let mut implementor = crate::rust::Impl {  };
            implementor.instrument_source_code(source)
        },
        Language::Go => {
            let mut implementor = crate::go::Impl {  };
            implementor.instrument_source_code(source)
        },
        Language::Typescript => {
            let mut implementor = crate::typescript::Impl {  };
            implementor.instrument_source_code(source)
        },
        Language::Python => {
            let mut implementor = crate::python::Impl {  };
            implementor.instrument_source_code(source)
        },
    }
}

} // verus!
