//! The two orders in which lists of functions are arranged, and the stable
//! sort that arranges them.

use crate::model::{
    FunctionInfo, FunctionInfoView, Location, LocationView, Position, Range, infos_view, line_of,
};
use vstd::prelude::*;

verus! {

/// Whether `a` comes before `b` the way texts are ordered: at the first place
/// where they differ the character of `a` has the lower code, or `a` ends
/// first.
pub open spec fn text_before(a: Seq<char>, b: Seq<char>) -> bool
    decreases a.len(),
{
    if b.len() == 0 {
        false
    } else if a.len() == 0 {
        true
    } else if a[0] != b[0] {
        (a[0] as u32) < (b[0] as u32)
    } else {
        text_before(a.skip(1), b.skip(1))
    }
}

/// `str`'s `<`: texts are ordered by their bytes, which orders them by the
/// codes of their characters.
#[verifier::external_body]
pub(crate) fn is_text_before(a: &str, b: &str) -> (r: bool)
    ensures
        r == text_before(a@, b@),
{
    a < b
}

/// Whether `a` comes before `b`: by line, then by column.
pub open spec fn position_before(a: Position, b: Position) -> bool {
    a.line < b.line || (a.line == b.line && a.column < b.column)
}

/// Whether `a` comes before `b`: by start, then by end.
pub open spec fn range_before(a: Range, b: Range) -> bool {
    if a.start != b.start {
        position_before(a.start, b.start)
    } else {
        position_before(a.end, b.end)
    }
}

/// Whether `a` comes before `b`: by file, then by range.
pub open spec fn location_before(a: LocationView, b: LocationView) -> bool {
    if a.file != b.file {
        text_before(a.file, b.file)
    } else {
        range_before(a.range, b.range)
    }
}

/// Whether `a` comes before `b`, an absent location coming before any
/// location.
pub open spec fn place_before(a: Option<LocationView>, b: Option<LocationView>) -> bool {
    match (a, b) {
        (None, Some(_)) => true,
        (Some(x), Some(y)) => location_before(x, y),
        _ => false,
    }
}

/// Whether `a` comes before `b`: by module, then by function, then by
/// definition, then by instrumentation.
pub open spec fn info_before(a: FunctionInfoView, b: FunctionInfoView) -> bool {
    if a.id.module != b.id.module {
        text_before(a.id.module, b.id.module)
    } else if a.id.function != b.id.function {
        text_before(a.id.function, b.id.function)
    } else if a.definition != b.definition {
        place_before(a.definition, b.definition)
    } else {
        place_before(a.instrumentation, b.instrumentation)
    }
}

/// An order in which functions are arranged.
#[derive(Clone, Copy, Debug, PartialEq, Eq, Structural)]
pub enum Arrangement {
    /// By the line on which the definition starts, a function without a
    /// known definition counting as line zero.
    ByDefinitionLine,
    /// By module, function, definition and instrumentation.
    Natural,
}

/// Whether `a` comes strictly before `b` in the order `by`.
pub open spec fn precedes(by: Arrangement, a: FunctionInfoView, b: FunctionInfoView) -> bool {
    match by {
        Arrangement::ByDefinitionLine => line_of(a) < line_of(b),
        Arrangement::Natural => info_before(a, b),
    }
}

/// The arranged list `list` with `info` put behind the last record that it
/// does not precede.
pub open spec fn inserted(by: Arrangement, list: Seq<FunctionInfoView>, info: FunctionInfoView)
    -> Seq<FunctionInfoView>
    decreases list.len(),
{
    if list.len() > 0 && precedes(by, info, list.last()) {
        inserted(by, list.drop_last(), info).push(list.last())
    } else {
        list.push(info)
    }
}

/// The records of `list` arranged in the order `by`, records that neither
/// precedes the other staying in the order of the list.
pub open spec fn arranged(by: Arrangement, list: Seq<FunctionInfoView>) -> Seq<FunctionInfoView>
    decreases list.len(),
{
    if list.len() == 0 {
        Seq::empty()
    } else {
        inserted(by, arranged(by, list.drop_last()), list.last())
    }
}

/// No record of `list` precedes a record that stands before it.
pub open spec fn in_order(by: Arrangement, list: Seq<FunctionInfoView>) -> bool {
    forall|i: int, j: int| 0 <= i < j < list.len() ==> !precedes(by, list[j], list[i])
}

/// Tells whether `a` comes before `b`.
fn is_position_before(a: &Position, b: &Position) -> (r: bool)
    ensures
        r == position_before(*a, *b),
{
    a.line < b.line || (a.line == b.line && a.column < b.column)
}

/// Tells whether `a` comes before `b`.
fn is_location_before(a: &Location, b: &Location) -> (r: bool)
    ensures
        r == location_before(a@, b@),
{
    if a.file != b.file {
        is_text_before(a.file.as_str(), b.file.as_str())
    } else if a.range.start != b.range.start {
        is_position_before(&a.range.start, &b.range.start)
    } else {
        is_position_before(&a.range.end, &b.range.end)
    }
}

/// Tells whether two locations that may be absent are the same.
fn same_place(a: &Option<Location>, b: &Option<Location>) -> (r: bool)
    ensures
        r == (crate::model::location_view(*a) == crate::model::location_view(*b)),
{
    match (a, b) {
        (None, None) => true,
        (Some(x), Some(y)) => x.same_as(y),
        _ => false,
    }
}

/// Tells whether `a` comes before `b`.
fn is_place_before(a: &Option<Location>, b: &Option<Location>) -> (r: bool)
    ensures
        r == place_before(crate::model::location_view(*a), crate::model::location_view(*b)),
{
    match (a, b) {
        (None, Some(_)) => true,
        (Some(x), Some(y)) => is_location_before(x, y),
        _ => false,
    }
}

/// Tells whether `a` comes strictly before `b` in the order `by`.
pub fn comes_before(by: Arrangement, a: &FunctionInfo, b: &FunctionInfo) -> (r: bool)
    ensures
        r == precedes(by, a@, b@),
{
    match by {
        Arrangement::ByDefinitionLine => a.start_line() < b.start_line(),
        Arrangement::Natural => {
            if a.id.module != b.id.module {
                is_text_before(a.id.module.as_str(), b.id.module.as_str())
            } else if a.id.function != b.id.function {
                is_text_before(a.id.function.as_str(), b.id.function.as_str())
            } else if !same_place(&a.definition, &b.definition) {
                is_place_before(&a.definition, &b.definition)
            } else {
                is_place_before(&a.instrumentation, &b.instrumentation)
            }
        },
    }
}

/// Putting a record into a list whose records from `at` on it precedes, and
/// whose record before `at` it does not precede, puts it at `at`.
proof fn inserted_at(by: Arrangement, list: Seq<FunctionInfoView>, info: FunctionInfoView, at: int)
    requires
        0 <= at <= list.len(),
        forall|j: int| at <= j < list.len() ==> precedes(by, info, #[trigger] list[j]),
        at > 0 ==> !precedes(by, info, list[at - 1]),
    ensures
        inserted(by, list, info) == list.insert(at, info),
    decreases list.len() - at,
{
    if at == list.len() {
        assert(list.insert(at, info) == list.push(info));
    } else {
        assert(precedes(by, info, list[list.len() - 1]));
        let front = list.drop_last();
        assert forall|j: int| at <= j < front.len() implies precedes(
            by,
            info,
            #[trigger] front[j],
        ) by {
            assert(front[j] == list[j]);
        }
        inserted_at(by, front, info, at);
        assert(front.insert(at, info).push(list.last()) == list.insert(at, info));
    }
}

/// Arranges `list` in the order `by`. Records that neither precedes the
/// other stay in the order in which they came.
pub fn arrange(by: Arrangement, list: Vec<FunctionInfo>) -> (sorted: Vec<FunctionInfo>)
    ensures
        infos_view(sorted@) == arranged(by, infos_view(list@)),
        in_order(by, infos_view(sorted@)),
        infos_view(sorted@).to_multiset() == infos_view(list@).to_multiset(),
        sorted.len() == list.len(),
{
    let ghost all = infos_view(list@);
    let mut sorted: Vec<FunctionInfo> = Vec::new();
    let mut i: usize = 0;
    assert(all.take(0) == Seq::<FunctionInfoView>::empty());
    assert(infos_view(sorted@) == Seq::<FunctionInfoView>::empty());
    while i < list.len()
        invariant
            i <= list.len(),
            all == infos_view(list@),
            infos_view(sorted@) == arranged(by, all.take(i as int)),
        decreases list.len() - i,
    {
        let info = list[i].clone();
        let ghost before = infos_view(sorted@);
        let mut at: usize = sorted.len();
        while at > 0 && comes_before(by, &info, &sorted[at - 1])
            invariant
                at <= sorted.len(),
                before == infos_view(sorted@),
                forall|j: int| at <= j < before.len() ==> precedes(by, info@, #[trigger] before[j]),
            decreases at,
        {
            assert(before[at - 1] == sorted@[at - 1]@);
            at -= 1;
        }
        proof {
            if at > 0 {
                assert(before[at - 1] == sorted@[at - 1]@);
            }
            inserted_at(by, before, info@, at as int);
            assert(all.take(i as int + 1).drop_last() == all.take(i as int));
            assert(all.take(i as int + 1).last() == list@[i as int]@);
        }
        sorted.insert(at, info);
        assert(infos_view(sorted@) == before.insert(at as int, info@));
        i += 1;
    }
    assert(all.take(list.len() as int) == all);
    proof {
        arranged_is_in_order(by, all);
        arranged_is_a_rearrangement(by, all);
    }
    sorted
}

/// The order of texts is strict: of two texts at most one comes before the
/// other, and of two different texts one does.
pub proof fn text_order_is_strict(a: Seq<char>, b: Seq<char>)
    ensures
        !(text_before(a, b) && text_before(b, a)),
        a != b ==> text_before(a, b) || text_before(b, a),
    decreases a.len(),
{
    if a.len() > 0 && b.len() > 0 && a[0] == b[0] {
        text_order_is_strict(a.skip(1), b.skip(1));
        if a.skip(1) == b.skip(1) {
            assert(a =~= seq![a[0]] + a.skip(1));
            assert(b =~= seq![b[0]] + b.skip(1));
        }
    } else if a.len() == 0 && b.len() == 0 {
        assert(a =~= b);
    } else if a.len() > 0 && b.len() > 0 {
        vstd::utf8::char_u32_cast(a[0], a[0] as u32);
        vstd::utf8::char_u32_cast(b[0], b[0] as u32);
    }
}

/// The order of texts is transitive.
pub proof fn text_order_is_transitive(a: Seq<char>, b: Seq<char>, c: Seq<char>)
    requires
        text_before(a, b),
        text_before(b, c),
    ensures
        text_before(a, c),
    decreases a.len(),
{
    if a.len() > 0 && a[0] == b[0] && b[0] == c[0] {
        text_order_is_transitive(a.skip(1), b.skip(1), c.skip(1));
    }
}

/// What makes the order of three texts an order, whichever way they are
/// taken.
proof fn texts_are_ordered(a: Seq<char>, b: Seq<char>, c: Seq<char>)
    ensures
        !(text_before(a, b) && text_before(b, a)),
        !(text_before(b, c) && text_before(c, b)),
        !(text_before(a, c) && text_before(c, a)),
        a != b ==> text_before(a, b) || text_before(b, a),
        b != c ==> text_before(b, c) || text_before(c, b),
        a != c ==> text_before(a, c) || text_before(c, a),
        text_before(a, b) && text_before(b, c) ==> text_before(a, c),
        text_before(a, c) && text_before(c, b) ==> text_before(a, b),
        text_before(b, a) && text_before(a, c) ==> text_before(b, c),
        text_before(b, c) && text_before(c, a) ==> text_before(b, a),
        text_before(c, a) && text_before(a, b) ==> text_before(c, b),
        text_before(c, b) && text_before(b, a) ==> text_before(c, a),
{
    text_order_is_strict(a, b);
    text_order_is_strict(b, c);
    text_order_is_strict(a, c);
    if text_before(a, b) && text_before(b, c) {
        text_order_is_transitive(a, b, c);
    }
    if text_before(a, c) && text_before(c, b) {
        text_order_is_transitive(a, c, b);
    }
    if text_before(b, a) && text_before(a, c) {
        text_order_is_transitive(b, a, c);
    }
    if text_before(b, c) && text_before(c, a) {
        text_order_is_transitive(b, c, a);
    }
    if text_before(c, a) && text_before(a, b) {
        text_order_is_transitive(c, a, b);
    }
    if text_before(c, b) && text_before(b, a) {
        text_order_is_transitive(c, b, a);
    }
}

/// Of two locations that may be absent at most one comes before the other,
/// and of two different ones one does; and the order is transitive.
proof fn places_are_ordered(
    a: Option<LocationView>,
    b: Option<LocationView>,
    c: Option<LocationView>,
)
    ensures
        !(place_before(a, b) && place_before(b, a)),
        !(place_before(b, c) && place_before(c, b)),
        !(place_before(a, c) && place_before(c, a)),
        a != b ==> place_before(a, b) || place_before(b, a),
        b != c ==> place_before(b, c) || place_before(c, b),
        a != c ==> place_before(a, c) || place_before(c, a),
        place_before(a, b) && place_before(b, c) ==> place_before(a, c),
        place_before(a, c) && place_before(c, b) ==> place_before(a, b),
        place_before(b, a) && place_before(a, c) ==> place_before(b, c),
        place_before(b, c) && place_before(c, a) ==> place_before(b, a),
        place_before(c, a) && place_before(a, b) ==> place_before(c, b),
        place_before(c, b) && place_before(b, a) ==> place_before(c, a),
{
    match (a, b, c) {
        (Some(x), Some(y), Some(z)) => {
            texts_are_ordered(x.file, y.file, z.file);
        },
        (Some(x), Some(y), None) => {
            texts_are_ordered(x.file, y.file, y.file);
        },
        (Some(x), None, Some(z)) => {
            texts_are_ordered(x.file, z.file, z.file);
        },
        (None, Some(y), Some(z)) => {
            texts_are_ordered(y.file, z.file, z.file);
        },
        _ => {},
    }
}

/// In either order of functions, of two functions at most one precedes the
/// other, and a function that does not precede a second, which does not
/// precede a third, does not precede the third.
pub proof fn precedence_is_an_order(
    by: Arrangement,
    a: FunctionInfoView,
    b: FunctionInfoView,
    c: FunctionInfoView,
)
    ensures
        !(precedes(by, a, b) && precedes(by, b, a)),
        !precedes(by, a, b) && !precedes(by, b, c) ==> !precedes(by, a, c),
        by == Arrangement::Natural && a != b ==> precedes(by, a, b) || precedes(by, b, a),
{
    if by == Arrangement::Natural {
        texts_are_ordered(a.id.module, b.id.module, c.id.module);
        texts_are_ordered(a.id.function, b.id.function, c.id.function);
        places_are_ordered(a.definition, b.definition, c.definition);
        places_are_ordered(a.instrumentation, b.instrumentation, c.instrumentation);
    }
}

/// The place at which a record goes into an arranged list: behind the last
/// record that it does not precede.
pub open spec fn place_for(by: Arrangement, list: Seq<FunctionInfoView>, info: FunctionInfoView)
    -> int
    decreases list.len(),
{
    if list.len() > 0 && precedes(by, info, list.last()) {
        place_for(by, list.drop_last(), info)
    } else {
        list.len() as int
    }
}

/// A record goes into an arranged list at its place: it precedes every
/// record behind the place and not the one before it.
pub proof fn inserted_at_its_place(
    by: Arrangement,
    list: Seq<FunctionInfoView>,
    info: FunctionInfoView,
)
    ensures
        0 <= place_for(by, list, info) <= list.len(),
        inserted(by, list, info) == list.insert(place_for(by, list, info), info),
        forall|j: int|
            place_for(by, list, info) <= j < list.len() ==> precedes(by, info, #[trigger] list[j]),
        place_for(by, list, info) > 0 ==> !precedes(
            by,
            info,
            list[place_for(by, list, info) - 1],
        ),
    decreases list.len(),
{
    let at = place_for(by, list, info);
    if list.len() > 0 && precedes(by, info, list.last()) {
        let front = list.drop_last();
        inserted_at_its_place(by, front, info);
        assert forall|j: int| at <= j < list.len() implies precedes(by, info, #[trigger] list[j]) by {
            if j < front.len() {
                assert(front[j] == list[j]);
            }
        }
        assert(front.insert(at, info).push(list.last()) == list.insert(at, info));
    } else {
        assert(list.insert(at, info) == list.push(info));
    }
}

/// Putting a record into a list that is in order leaves it in order.
pub proof fn inserted_in_order(by: Arrangement, list: Seq<FunctionInfoView>, info: FunctionInfoView)
    requires
        in_order(by, list),
    ensures
        in_order(by, inserted(by, list, info)),
{
    let at = place_for(by, list, info);
    inserted_at_its_place(by, list, info);
    let after = list.insert(at, info);
    assert forall|i: int, j: int| 0 <= i < j < after.len() implies !precedes(
        by,
        after[j],
        after[i],
    ) by {
        if j == at {
            assert(after[i] == list[i]);
            if i < at - 1 {
                precedence_is_an_order(by, info, list[at - 1], list[i]);
            }
        } else if i == at {
            assert(after[j] == list[j - 1]);
            precedence_is_an_order(by, info, list[j - 1], info);
        } else {
            let from = if i < at {
                i
            } else {
                i - 1
            };
            let to = if j < at {
                j
            } else {
                j - 1
            };
            assert(after[i] == list[from] && after[j] == list[to]);
        }
    }
}

/// An arranged list is in order: no record of it precedes a record that
/// stands before it.
pub proof fn arranged_is_in_order(by: Arrangement, list: Seq<FunctionInfoView>)
    ensures
        in_order(by, arranged(by, list)),
    decreases list.len(),
{
    if list.len() > 0 {
        arranged_is_in_order(by, list.drop_last());
        inserted_in_order(by, arranged(by, list.drop_last()), list.last());
    }
}

/// An arranged list holds the records of the list, each as often as the
/// list does.
pub proof fn arranged_is_a_rearrangement(by: Arrangement, list: Seq<FunctionInfoView>)
    ensures
        arranged(by, list).to_multiset() == list.to_multiset(),
        arranged(by, list).len() == list.len(),
    decreases list.len(),
{
    if list.len() > 0 {
        let front = list.drop_last();
        arranged_is_a_rearrangement(by, front);
        inserted_at_its_place(by, arranged(by, front), list.last());
        vstd::seq_lib::to_multiset_insert(
            arranged(by, front),
            place_for(by, arranged(by, front), list.last()),
            list.last(),
        );
        vstd::seq_lib::to_multiset_build(front, list.last());
        assert(front.push(list.last()) == list);
        assert(arranged(by, list) == arranged(by, front).insert(
            place_for(by, arranged(by, front), list.last()),
            list.last(),
        ));
    } else {
        assert(arranged(by, list) == list);
    }
}

} // verus!
