//! Reconciles the two lists that an analysis computes, the instrumented
//! functions and all the definitions, into one list with one record per
//! function.

use crate::model::{
    FunctionIdView, FunctionInfo, FunctionInfoView, all_defined, all_instrumented, all_located,
    clone_location, infos_view, uniform,
};
use vstd::prelude::*;

verus! {

/// Whether some record of `list` has the key `id`.
pub open spec fn has_id(list: Seq<FunctionInfoView>, id: FunctionIdView) -> bool {
    exists|i: int| 0 <= i < list.len() && (#[trigger] list[i]).id == id
}

/// Whether `at` is the place of the first record of `list` with the key `id`.
pub open spec fn first_with_id(list: Seq<FunctionInfoView>, id: FunctionIdView, at: int) -> bool {
    &&& 0 <= at < list.len()
    &&& list[at].id == id
    &&& forall|j: int| 0 <= j < at ==> (#[trigger] list[j]).id != id
}

/// The place of the first record of `list` with the key `id`.
pub open spec fn place_of(list: Seq<FunctionInfoView>, id: FunctionIdView) -> int {
    choose|at: int| first_with_id(list, id, at)
}

/// The record under the key `id`.
pub open spec fn entry(list: Seq<FunctionInfoView>, id: FunctionIdView) -> FunctionInfoView {
    list[place_of(list, id)]
}

/// No two records of `list` have the same key.
pub open spec fn distinct_ids(list: Seq<FunctionInfoView>) -> bool {
    forall|i: int, j: int|
        0 <= i < j < list.len() ==> (#[trigger] list[i]).id != (#[trigger] list[j]).id
}

/// `list` with `info` stored under its key: in place of the record that had
/// the key, or at the end when none had it.
pub open spec fn put(list: Seq<FunctionInfoView>, info: FunctionInfoView) -> Seq<FunctionInfoView> {
    if has_id(list, info.id) {
        list.update(place_of(list, info.id), info)
    } else {
        list.push(info)
    }
}

/// `list` with the definition of `info` stored under its key: the record that
/// had the key keeps everything but its definition, and when none had the
/// key, `info` goes to the end unchanged.
pub open spec fn put_definition(list: Seq<FunctionInfoView>, info: FunctionInfoView) -> Seq<
    FunctionInfoView,
> {
    if has_id(list, info.id) {
        let at = place_of(list, info.id);
        list.update(at, FunctionInfoView { definition: info.definition, ..list[at] })
    } else {
        list.push(info)
    }
}

/// The records of `list` by key, a later record replacing an earlier one
/// with the same key.
pub open spec fn keyed(list: Seq<FunctionInfoView>) -> Seq<FunctionInfoView>
    decreases list.len(),
{
    if list.len() == 0 {
        Seq::empty()
    } else {
        put(keyed(list.drop_last()), list.last())
    }
}

/// The instrumented functions `am` and the definitions `all` as one list by
/// key: the records of `am`, each with the definition that `all` has for its
/// key where it has one, followed by the records that only `all` has.
pub open spec fn merged(am: Seq<FunctionInfoView>, all: Seq<FunctionInfoView>) -> Seq<
    FunctionInfoView,
>
    decreases all.len(),
{
    if all.len() == 0 {
        keyed(am)
    } else {
        put_definition(merged(am, all.drop_last()), all.last())
    }
}

/// Whether `at` is the place of the last record of `list` with the key `id`.
pub open spec fn last_with_id(list: Seq<FunctionInfoView>, id: FunctionIdView, at: int) -> bool {
    &&& 0 <= at < list.len()
    &&& list[at].id == id
    &&& forall|j: int| at < j < list.len() ==> (#[trigger] list[j]).id != id
}

/// A key that occurs has a first place.
pub proof fn place_of_found(list: Seq<FunctionInfoView>, id: FunctionIdView)
    requires
        has_id(list, id),
    ensures
        first_with_id(list, id, place_of(list, id)),
{
    let some = choose|i: int| 0 <= i < list.len() && (#[trigger] list[i]).id == id;
    first_place_before(list, id, some);
}

proof fn first_place_before(list: Seq<FunctionInfoView>, id: FunctionIdView, upto: int)
    requires
        0 <= upto < list.len(),
        list[upto].id == id,
    ensures
        exists|at: int| first_with_id(list, id, at),
    decreases upto,
{
    if exists|j: int| 0 <= j < upto && (#[trigger] list[j]).id == id {
        let j = choose|j: int| 0 <= j < upto && (#[trigger] list[j]).id == id;
        first_place_before(list, id, j);
    } else {
        assert(first_with_id(list, id, upto));
    }
}

/// Among distinct keys the place of a key is the one place where it occurs.
pub proof fn place_of_unique(list: Seq<FunctionInfoView>, at: int)
    requires
        distinct_ids(list),
        0 <= at < list.len(),
    ensures
        has_id(list, list[at].id),
        place_of(list, list[at].id) == at,
        entry(list, list[at].id) == list[at],
{
    place_of_found(list, list[at].id);
    let p = place_of(list, list[at].id);
    if p < at {
        assert(list[p].id != list[at].id);
    } else if at < p {
        assert(list[at].id != list[p].id);
    }
}

/// Storing a record keeps the keys distinct, adds its key, leaves the
/// records under other keys as they were, and makes it the record under its
/// key.
pub proof fn put_stores(list: Seq<FunctionInfoView>, info: FunctionInfoView)
    requires
        distinct_ids(list),
    ensures
        distinct_ids(put(list, info)),
        has_id(put(list, info), info.id),
        entry(put(list, info), info.id) == info,
        forall|id: FunctionIdView|
            id != info.id ==> (has_id(put(list, info), id) <==> has_id(list, id)),
        forall|id: FunctionIdView|
            id != info.id && has_id(list, id) ==> entry(put(list, info), id) == entry(list, id),
{
    let after = put(list, info);
    let at = if has_id(list, info.id) {
        place_of_found(list, info.id);
        place_of(list, info.id)
    } else {
        list.len() as int
    };
    assert(after.len() > at && after[at] == info);
    assert forall|i: int| 0 <= i < after.len() && i != at implies after[i] == list[i]
        && after[i].id != info.id by {
        if has_id(list, info.id) {
            if i < at {
                assert(list[i].id != list[at].id);
            } else {
                assert(list[at].id != list[i].id);
            }
        }
    }
    assert(distinct_ids(after)) by {
        assert forall|i: int, j: int| 0 <= i < j < after.len() implies after[i].id
            != after[j].id by {
            if i != at && j != at {
                assert(list[i].id != list[j].id);
            }
        }
    }
    place_of_unique(after, at);
    assert forall|id: FunctionIdView| id != info.id implies (has_id(after, id) <==> has_id(
        list,
        id,
    )) by {
        if has_id(after, id) {
            let i = choose|i: int| 0 <= i < after.len() && (#[trigger] after[i]).id == id;
            assert(list[i].id == id);
        }
        if has_id(list, id) {
            let i = choose|i: int| 0 <= i < list.len() && (#[trigger] list[i]).id == id;
            assert(after[i].id == id);
        }
    }
    assert forall|id: FunctionIdView| id != info.id && has_id(list, id) implies entry(after, id)
        == entry(list, id) by {
        place_of_found(list, id);
        let p = place_of(list, id);
        place_of_unique(list, p);
        assert(after[p] == list[p]);
        place_of_unique(after, p);
    }
}

/// Storing a definition keeps the keys distinct, adds its key, and leaves
/// the records under other keys as they were. The record under its key keeps
/// what it had but takes the definition, or is the new record when the key
/// is new.
pub proof fn put_definition_stores(list: Seq<FunctionInfoView>, info: FunctionInfoView)
    requires
        distinct_ids(list),
    ensures
        distinct_ids(put_definition(list, info)),
        has_id(put_definition(list, info), info.id),
        has_id(list, info.id) ==> entry(put_definition(list, info), info.id) == (FunctionInfoView {
            definition: info.definition,
            ..entry(list, info.id)
        }),
        !has_id(list, info.id) ==> entry(put_definition(list, info), info.id) == info,
        forall|id: FunctionIdView|
            id != info.id ==> (has_id(put_definition(list, info), id) <==> has_id(list, id)),
        forall|id: FunctionIdView|
            id != info.id && has_id(list, id) ==> entry(put_definition(list, info), id) == entry(
                list,
                id,
            ),
{
    let stored = if has_id(list, info.id) {
        FunctionInfoView { definition: info.definition, ..entry(list, info.id) }
    } else {
        info
    };
    if has_id(list, info.id) {
        place_of_found(list, info.id);
    }
    assert(stored.id == info.id);
    assert(put_definition(list, info) == put(list, stored));
    put_stores(list, stored);
}

/// The keyed list has distinct keys, the keys of the list, and under each
/// key the last record that the list has for it.
pub proof fn keyed_holds_last(list: Seq<FunctionInfoView>)
    ensures
        distinct_ids(keyed(list)),
        forall|id: FunctionIdView| has_id(keyed(list), id) <==> has_id(list, id),
        forall|id: FunctionIdView, at: int|
            last_with_id(list, id, at) ==> entry(keyed(list), id) == list[at],
    decreases list.len(),
{
    if list.len() == 0 {
        assert forall|id: FunctionIdView| !has_id(list, id) by {}
    } else {
        let front = list.drop_last();
        let last = list.last();
        keyed_holds_last(front);
        put_stores(keyed(front), last);
        assert forall|id: FunctionIdView| has_id(keyed(list), id) <==> has_id(list, id) by {
            if has_id(list, id) && id != last.id {
                let i = choose|i: int| 0 <= i < list.len() && (#[trigger] list[i]).id == id;
                assert(front[i].id == id);
            }
            if has_id(front, id) {
                let i = choose|i: int| 0 <= i < front.len() && (#[trigger] front[i]).id == id;
                assert(list[i].id == id);
            }
            if id == last.id {
                assert(list[list.len() - 1].id == id);
            }
        }
        assert forall|id: FunctionIdView, at: int| last_with_id(list, id, at) implies entry(
            keyed(list),
            id,
        ) == list[at] by {
            if id == last.id {
                if at < list.len() - 1 {
                    assert(list[list.len() - 1].id != id);
                }
            } else {
                assert(front[at].id == id);
                assert(last_with_id(front, id, at)) by {
                    assert forall|j: int| at < j < front.len() implies (#[trigger] front[j]).id
                        != id by {
                        assert(list[j].id != id);
                    }
                }
                assert(has_id(front, id));
            }
        }
    }
}

/// The definition that the merged list holds under a key that `all` has: the
/// one of the last record that `all` has for it.
pub proof fn merged_holds(am: Seq<FunctionInfoView>, all: Seq<FunctionInfoView>)
    ensures
        distinct_ids(merged(am, all)),
        forall|id: FunctionIdView|
            has_id(merged(am, all), id) <==> (has_id(am, id) || has_id(all, id)),
        forall|id: FunctionIdView, at: int|
            last_with_id(all, id, at) ==> entry(merged(am, all), id).definition
                == all[at].definition,
        forall|id: FunctionIdView|
            has_id(am, id) ==> entry(merged(am, all), id).instrumentation == entry(
                keyed(am),
                id,
            ).instrumentation,
        forall|id: FunctionIdView|
            has_id(am, id) && !has_id(all, id) ==> entry(merged(am, all), id) == entry(
                keyed(am),
                id,
            ),
    decreases all.len(),
{
    keyed_holds_last(am);
    if all.len() == 0 {
        assert forall|id: FunctionIdView| !has_id(all, id) by {}
    } else {
        let front = all.drop_last();
        let last = all.last();
        let before = merged(am, front);
        merged_holds(am, front);
        put_definition_stores(before, last);
        assert forall|id: FunctionIdView| has_id(all, id) <==> (has_id(front, id) || id
            == last.id) by {
            if has_id(all, id) && id != last.id {
                let i = choose|i: int| 0 <= i < all.len() && (#[trigger] all[i]).id == id;
                assert(front[i].id == id);
            }
            if has_id(front, id) {
                let i = choose|i: int| 0 <= i < front.len() && (#[trigger] front[i]).id == id;
                assert(all[i].id == id);
            }
            if id == last.id {
                assert(all[all.len() - 1].id == id);
            }
        }
        assert forall|id: FunctionIdView, at: int| last_with_id(all, id, at) implies entry(
            merged(am, all),
            id,
        ).definition == all[at].definition by {
            if id == last.id {
                if at < all.len() - 1 {
                    assert(all[all.len() - 1].id != id);
                }
            } else {
                assert(front[at].id == id);
                assert(last_with_id(front, id, at)) by {
                    assert forall|j: int| at < j < front.len() implies (#[trigger] front[j]).id
                        != id by {
                        assert(all[j].id != id);
                    }
                }
                assert(has_id(front, id));
            }
        }
    }
}

/// For a key that both lists have, the merged record has the
/// instrumentation of the instrumented list and the definition of the list
/// of definitions. Where a list has several records for the key, its last
/// one counts.
pub proof fn merge_takes_instrumentation_and_definition(
    am: Seq<FunctionInfoView>,
    all: Seq<FunctionInfoView>,
    i: int,
    j: int,
)
    requires
        last_with_id(am, am[i].id, i),
        last_with_id(all, am[i].id, j),
    ensures
        has_id(merged(am, all), am[i].id),
        entry(merged(am, all), am[i].id).id == am[i].id,
        entry(merged(am, all), am[i].id).instrumentation == am[i].instrumentation,
        entry(merged(am, all), am[i].id).definition == all[j].definition,
{
    let id = am[i].id;
    merged_holds(am, all);
    keyed_holds_last(am);
    assert(has_id(am, id));
    place_of_found(merged(am, all), id);
}

/// A function that only one of the two lists knows is in the merged list as
/// that list has it, and every merged record has the key of a function that
/// one of the lists knows.
pub proof fn merge_keeps_the_rest(
    am: Seq<FunctionInfoView>,
    all: Seq<FunctionInfoView>,
    id: FunctionIdView,
)
    ensures
        has_id(merged(am, all), id) <==> (has_id(am, id) || has_id(all, id)),
        forall|i: int|
            last_with_id(am, id, i) && !has_id(all, id) ==> entry(merged(am, all), id) == am[i],
        distinct_ids(merged(am, all)),
{
    merged_holds(am, all);
    keyed_holds_last(am);
    assert forall|i: int| last_with_id(am, id, i) && !has_id(all, id) implies entry(
        merged(am, all),
        id,
    ) == am[i] by {
        assert(has_id(am, id));
    }
}

/// A key that occurs has a last place.
pub proof fn last_place_found(list: Seq<FunctionInfoView>, id: FunctionIdView)
    requires
        has_id(list, id),
    ensures
        exists|at: int| last_with_id(list, id, at),
    decreases list.len(),
{
    if list.last().id == id {
        assert(last_with_id(list, id, list.len() - 1));
    } else {
        let front = list.drop_last();
        let some = choose|i: int| 0 <= i < list.len() && (#[trigger] list[i]).id == id;
        assert(front[some].id == id);
        last_place_found(front, id);
        let at = choose|at: int| last_with_id(front, id, at);
        assert(last_with_id(list, id, at)) by {
            assert(list[at] == front[at]);
            assert forall|j: int| at < j < list.len() implies (#[trigger] list[j]).id != id by {
                if j < front.len() {
                    assert(front[j].id != id);
                }
            }
        }
    }
}

/// Merging instrumented functions with definitions gives records that each
/// have at least one of their two locations.
pub proof fn merged_records_are_located(am: Seq<FunctionInfoView>, all: Seq<FunctionInfoView>)
    requires
        all_instrumented(am),
        all_defined(all),
    ensures
        all_located(merged(am, all)),
        distinct_ids(merged(am, all)),
{
    let list = merged(am, all);
    merged_holds(am, all);
    keyed_holds_last(am);
    assert forall|i: int| 0 <= i < list.len() implies (#[trigger] list[i]).definition is Some
        || list[i].instrumentation is Some by {
        let id = list[i].id;
        place_of_unique(list, i);
        if has_id(am, id) {
            last_place_found(am, id);
            let at = choose|at: int| last_with_id(am, id, at);
            assert(entry(keyed(am), id) == am[at]);
            assert(am[at].instrumentation is Some);
        } else {
            assert(has_id(all, id));
            last_place_found(all, id);
            let at = choose|at: int| last_with_id(all, id, at);
            assert(all[at].definition is Some);
        }
    }
}

/// The place of the first record with the key of `info`, if there is one.
fn find(list: &Vec<FunctionInfo>, info: &FunctionInfo) -> (at: Option<usize>)
    ensures
        match at {
            Some(p) => first_with_id(infos_view(list@), info@.id, p as int),
            None => !has_id(infos_view(list@), info@.id),
        },
{
    let mut i: usize = 0;
    while i < list.len()
        invariant
            i <= list.len(),
            forall|j: int| 0 <= j < i ==> (#[trigger] infos_view(list@)[j]).id != info@.id,
        decreases list.len() - i,
    {
        assert(infos_view(list@)[i as int] == list@[i as int]@);
        if list[i].id.same_as(&info.id) {
            return Some(i);
        }
        i += 1;
    }
    None
}

/// Any first place of a key is the place of the key.
proof fn first_place_is_place(list: Seq<FunctionInfoView>, id: FunctionIdView, at: int)
    requires
        first_with_id(list, id, at),
    ensures
        has_id(list, id),
        place_of(list, id) == at,
{
    let p = place_of(list, id);
    assert(first_with_id(list, id, p));
    if p < at {
        assert(list[p].id != id);
    } else if at < p {
        assert(list[at].id != id);
    }
}

/// Stores `info` in `list` under its key.
fn store(list: &mut Vec<FunctionInfo>, info: FunctionInfo)
    ensures
        infos_view(final(list)@) == put(infos_view(old(list)@), info@),
{
    let ghost before = infos_view(list@);
    match find(list, &info) {
        Some(at) => {
            proof {
                first_place_is_place(before, info@.id, at as int);
            }
            list[at] = info;
            assert(infos_view(list@) == before.update(at as int, info@));
        },
        None => {
            list.push(info);
            assert(infos_view(list@) == before.push(info@));
        },
    }
}

/// Stores the definition of `info` in `list` under its key.
fn store_definition(list: &mut Vec<FunctionInfo>, info: FunctionInfo)
    ensures
        infos_view(final(list)@) == put_definition(infos_view(old(list)@), info@),
{
    let ghost before = infos_view(list@);
    match find(list, &info) {
        Some(at) => {
            proof {
                first_place_is_place(before, info@.id, at as int);
                assert(before[at as int] == list@[at as int]@);
            }
            let updated = FunctionInfo {
                id: list[at].id.clone(),
                definition: info.definition,
                instrumentation: clone_location(&list[at].instrumentation),
            };
            list[at] = updated;
            assert(infos_view(list@) == before.update(at as int, updated@));
        },
        None => {
            list.push(info);
            assert(infos_view(list@) == before.push(info@));
        },
    }
}

/// A record of a keyed list is the last record that the list has for its
/// key.
pub proof fn keyed_records_are_last(list: Seq<FunctionInfoView>, i: int)
    requires
        0 <= i < keyed(list).len(),
    ensures
        exists|at: int| last_with_id(list, keyed(list)[i].id, at) && keyed(list)[i] == list[at],
{
    let id = keyed(list)[i].id;
    keyed_holds_last(list);
    place_of_unique(keyed(list), i);
    assert(has_id(list, id));
    last_place_found(list, id);
    let at = choose|at: int| last_with_id(list, id, at);
    assert(keyed(list)[i] == list[at]);
}

/// Keying instrumented records gives instrumented records.
pub proof fn keyed_instrumented(list: Seq<FunctionInfoView>)
    requires
        all_instrumented(list),
    ensures
        all_instrumented(keyed(list)),
        distinct_ids(keyed(list)),
{
    keyed_holds_last(list);
    assert forall|i: int| 0 <= i < keyed(list).len() implies (#[trigger] keyed(
        list,
    )[i]).instrumentation is Some by {
        keyed_records_are_last(list, i);
    }
}

/// Keying records of one sort gives records of that sort.
pub proof fn keyed_uniform(list: Seq<FunctionInfoView>, instrumented: bool)
    requires
        uniform(list, instrumented),
    ensures
        uniform(keyed(list), instrumented),
        distinct_ids(keyed(list)),
{
    keyed_holds_last(list);
    assert forall|i: int| 0 <= i < keyed(list).len() implies (#[trigger] keyed(
        list,
    )[i]).definition is Some && (keyed(list)[i].instrumentation is Some <==> instrumented) by {
        keyed_records_are_last(list, i);
    }
}

/// Lists the records by key: one record per key, the last that the list has
/// for it, in the order in which the keys first occur.
pub fn key_functions(functions: Vec<FunctionInfo>) -> (list: Vec<FunctionInfo>)
    ensures
        infos_view(list@) == keyed(infos_view(functions@)),
        distinct_ids(infos_view(list@)),
{
    let ghost all = infos_view(functions@);
    let mut list: Vec<FunctionInfo> = Vec::new();
    let mut i: usize = 0;
    assert(all.take(0) == Seq::<FunctionInfoView>::empty());
    assert(infos_view(list@) == Seq::<FunctionInfoView>::empty());
    while i < functions.len()
        invariant
            i <= functions.len(),
            all == infos_view(functions@),
            infos_view(list@) == keyed(all.take(i as int)),
        decreases functions.len() - i,
    {
        proof {
            assert(all.take(i as int + 1).drop_last() == all.take(i as int));
            assert(all.take(i as int + 1).last() == functions@[i as int]@);
        }
        store(&mut list, functions[i].clone());
        i += 1;
    }
    assert(all.take(functions.len() as int) == all);
    proof {
        keyed_holds_last(all);
    }
    list
}

/// Merges the instrumented functions and the definitions into one list with
/// one record per function.
pub fn merge_functions(am_functions: Vec<FunctionInfo>, all_function_definitions: Vec<FunctionInfo>)
    -> (list: Vec<FunctionInfo>)
    ensures
        infos_view(list@) == merged(
            infos_view(am_functions@),
            infos_view(all_function_definitions@),
        ),
        distinct_ids(infos_view(list@)),
{
    let ghost am = infos_view(am_functions@);
    let ghost all = infos_view(all_function_definitions@);
    let mut list = key_functions(am_functions);
    let mut j: usize = 0;
    assert(all.take(0) == Seq::<FunctionInfoView>::empty());
    while j < all_function_definitions.len()
        invariant
            j <= all_function_definitions.len(),
            all == infos_view(all_function_definitions@),
            infos_view(list@) == merged(am, all.take(j as int)),
        decreases all_function_definitions.len() - j,
    {
        proof {
            assert(all.take(j as int + 1).drop_last() == all.take(j as int));
            assert(all.take(j as int + 1).last() == all_function_definitions@[j as int]@);
        }
        store_definition(&mut list, all_function_definitions[j].clone());
        j += 1;
    }
    assert(all.take(all_function_definitions.len() as int) == all);
    proof {
        merged_holds(am, all);
    }
    list
}

} // verus!
