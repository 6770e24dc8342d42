//! How the outcomes of single matches add up to a list of functions.

use crate::model::{FunctionInfo, FunctionInfoView, Location, Position, Range};
use vstd::prelude::*;
use vstd::string::StringExecFns;

verus! {

/// The functions among `items` in order.
pub open spec fn kept(items: Seq<Option<FunctionInfoView>>) -> Seq<FunctionInfoView>
    decreases items.len(),
{
    if items.len() == 0 {
        Seq::empty()
    } else {
        match items.last() {
            None => kept(items.drop_last()),
            Some(info) => kept(items.drop_last()).push(info),
        }
    }
}

/// The record of a function whose name spans `start..end` in `file`. An
/// instrumented function is instrumented where it is defined.
pub open spec fn record_view(
    module: Seq<char>,
    function: Seq<char>,
    file: Seq<char>,
    start: Position,
    end: Position,
    instrumented: bool,
) -> FunctionInfoView {
    let location = crate::model::LocationView { file, range: Range { start, end } };
    FunctionInfoView {
        id: crate::model::FunctionIdView { module, function },
        definition: Some(location),
        instrumentation: if instrumented {
            Some(location)
        } else {
            None
        },
    }
}

/// The record of a function whose name spans `start..end` in `file`.
pub fn record(
    module: &str,
    function: &str,
    file: &str,
    start: Position,
    end: Position,
    instrumented: bool,
) -> (info: FunctionInfo)
    ensures
        info@ == record_view(module@, function@, file@, start, end, instrumented),
{
    let range = Range { start, end };
    FunctionInfo {
        id: crate::model::FunctionId::new(module, function),
        definition: Some(Location::new(file, range)),
        instrumentation: if instrumented {
            Some(Location::new(file, range))
        } else {
            None
        },
    }
}

/// The record of a function that is wrapped at `start..end` in `file` and
/// defined elsewhere.
pub open spec fn wrapped_view(
    module: Seq<char>,
    function: Seq<char>,
    file: Seq<char>,
    start: Position,
    end: Position,
) -> FunctionInfoView {
    FunctionInfoView {
        id: crate::model::FunctionIdView { module, function },
        definition: None,
        instrumentation: Some(crate::model::LocationView { file, range: Range { start, end } }),
    }
}

/// The record of a function that is wrapped at `start..end` in `file`.
pub fn wrapped(module: &str, function: &str, file: &str, start: Position, end: Position) -> (info:
    FunctionInfo)
    ensures
        info@ == wrapped_view(module@, function@, file@, start, end),
{
    FunctionInfo {
        id: crate::model::FunctionId::new(module, function),
        definition: None,
        instrumentation: Some(Location::new(file, Range { start, end })),
    }
}

/// A function's name behind the name of its owner and a separator.
pub open spec fn qualified(owner: Option<Seq<char>>, separator: Seq<char>, name: Seq<char>) -> Seq<
    char,
> {
    match owner {
        Some(o) => o + separator + name,
        None => name,
    }
}

/// Puts the name of its owner and a separator before a function's name.
pub fn qualify(owner: Option<&str>, separator: &str, name: &str) -> (full: String)
    ensures
        full@ == qualified(
            match owner {
                Some(o) => Some(o@),
                None => None,
            },
            separator@,
            name@,
        ),
{
    match owner {
        Some(o) => {
            let mut full = o.to_owned();
            full.append(separator);
            full.append(name);
            full
        },
        None => name.to_owned(),
    }
}

/// What holds of every function among the items holds of every function
/// that is kept.
pub proof fn kept_all(items: Seq<Option<FunctionInfoView>>, holds: spec_fn(FunctionInfoView) -> bool)
    requires
        forall|i: int|
            0 <= i < items.len() ==> (#[trigger] items[i] matches Some(info) ==> holds(info)),
    ensures
        forall|i: int| 0 <= i < kept(items).len() ==> holds(#[trigger] kept(items)[i]),
    decreases items.len(),
{
    if items.len() > 0 {
        let front = items.drop_last();
        assert forall|i: int| 0 <= i < front.len() implies (#[trigger] front[i] matches Some(info)
            ==> holds(info)) by {
            assert(front[i] == items[i]);
        }
        kept_all(front, holds);
        assert(items.last() == items[items.len() - 1]);
        assert forall|i: int| 0 <= i < kept(items).len() implies holds(
            #[trigger] kept(items)[i],
        ) by {
            if i < kept(front).len() {
                assert(kept(items)[i] == kept(front)[i]);
            }
        }
    }
}

/// A record of a definition is defined, and instrumented when it is said to
/// be.
pub open spec fn is_record(instrumented: bool) -> spec_fn(FunctionInfoView) -> bool {
    |info: FunctionInfoView|
        info.definition is Some && (info.instrumentation is Some <==> instrumented)
}

/// Lists of records of one sort make a list of records of that sort.
pub proof fn uniform_joined(a: Seq<FunctionInfoView>, b: Seq<FunctionInfoView>, instrumented: bool)
    requires
        crate::model::uniform(a, instrumented),
        crate::model::uniform(b, instrumented),
    ensures
        crate::model::uniform(a + b, instrumented),
{
    assert forall|i: int| 0 <= i < (a + b).len() implies (#[trigger] (a + b)[i]).definition
        is Some && ((a + b)[i].instrumentation is Some <==> instrumented) by {
        if i < a.len() {
            assert((a + b)[i] == a[i]);
        } else {
            assert((a + b)[i] == b[i - a.len()]);
        }
    }
}

/// Lists of instrumented records make a list of instrumented records.
pub proof fn instrumented_joined(a: Seq<FunctionInfoView>, b: Seq<FunctionInfoView>)
    requires
        crate::model::all_instrumented(a),
        crate::model::all_instrumented(b),
    ensures
        crate::model::all_instrumented(a + b),
{
    assert forall|i: int| 0 <= i < (a + b).len() implies (#[trigger] (a + b)[i]).instrumentation
        is Some by {
        if i < a.len() {
            assert((a + b)[i] == a[i]);
        } else {
            assert((a + b)[i] == b[i - a.len()]);
        }
    }
}

/// The functions kept from matches that give records of one sort are
/// records of that sort.
pub proof fn kept_uniform(items: Seq<Option<FunctionInfoView>>, instrumented: bool)
    requires
        forall|i: int|
            0 <= i < items.len() ==> (#[trigger] items[i] matches Some(info)
                ==> info.definition is Some && (info.instrumentation is Some <==> instrumented)),
    ensures
        crate::model::uniform(kept(items), instrumented),
{
    kept_all(items, is_record(instrumented));
    assert forall|i: int| 0 <= i < kept(items).len() implies (#[trigger] kept(
        items,
    )[i]).definition is Some && (kept(items)[i].instrumentation is Some <==> instrumented) by {
        assert(is_record(instrumented)(kept(items)[i]));
    }
}

/// The record of a name that starts before it ends has a location that
/// holds at least one character: its end lies on a later line than its
/// start, or on the same line at a later column.
pub proof fn record_location_is_exclusive(
    module: Seq<char>,
    function: Seq<char>,
    file: Seq<char>,
    start: Position,
    end: Position,
    instrumented: bool,
)
    requires
        start.line < end.line || (start.line == end.line && start.column < end.column),
    ensures
        record_view(module, function, file, start, end, instrumented).definition matches Some(l)
            && l.range.non_empty() && l.range.well_formed(),
        record_view(
            module,
            function,
            file,
            start,
            end,
            instrumented,
        ).instrumentation matches Some(l) ==> l.range.non_empty(),
        wrapped_view(module, function, file, start, end).instrumentation matches Some(l)
            && l.range.non_empty(),
{
}

} // verus!
