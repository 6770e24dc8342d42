//! Rust: functions by module path and `impl` block, marked by the
//! `autometrics` attribute on the function or on its `impl` block.

use crate::listing::{kept, kept_uniform, qualified, qualify, record, record_view, uniform_joined};
use crate::model::{
    AmlError, FunctionInfo, FunctionInfoView, Language, all_well_ranged, infos_view, uniform,
    well_ranged,
};
use crate::merge::{distinct_ids, keyed};
use crate::project::{ListAmFunctions, SourceFile, flat};
use crate::syntax::{
    Capture, byte_end_of, byte_start_of, capture_indices, compiled_from, end_of, first_capture,
    first_node, grammar_loads, is_parse_failure, is_query_failure, kind_of, matches_view,
    name_missing, names_found, names_view, new_query, node_ancestors, node_end, node_id, node_kind,
    node_len, node_start, node_text, parent_of, parse, parses, query_loads, query_matches, root_of,
    run_query, same_node, start_of, text_of, tree_root,
};
use crate::text::same_text;
use vstd::prelude::*;
use vstd::string::StringExecFns;

verus! {

/// The capture name of a function's name.
pub const FUNC_NAME_CAPTURE: &'static str = "func.name";

/// The capture name of the type of an annotated `impl` block.
pub const ANNOTATED_IMPL_NAME_CAPTURE: &'static str = "type.impl";

/// The capture name of a method of an annotated `impl` block.
pub const ANNOTATED_IMPL_METHOD_NAME_CAPTURE: &'static str = "inner.func.name";

/// The capture name of the name of an inline module.
pub const MOD_NAME_CAPTURE: &'static str = "mod.name";

/// The capture name of the body of an inline module.
pub const MOD_CONTENTS_CAPTURE: &'static str = "mod.contents";

/// The capture name of the type of an `impl` block.
pub const IMPL_NAME_CAPTURE: &'static str = "impl.type";

/// The capture name of the body of an `impl` block.
pub const IMPL_CONTENTS_CAPTURE: &'static str = "impl.contents";

/// The grammar's name for an `impl` block.
pub const GRAMMAR_IMPL_ITEM_NODE_KIND: &'static str = "impl_item";

/// The grammar's name for an inline module.
pub const GRAMMAR_MOD_ITEM_NODE_KIND: &'static str = "mod_item";

/// The query for annotated functions, the methods of annotated `impl`
/// blocks, and the scopes to descend into.
pub const AM_QUERY: &'static str = "
((attribute_item
   (attribute [(identifier) @attr (scoped_identifier name: (identifier) @attr)]))
 .
 [(attribute_item) (line_comment) (block_comment)]*
 .
 (function_item name: (identifier) @func.name)
 (#eq? @attr \"autometrics\"))

((attribute_item
   (attribute [(identifier) @attr (scoped_identifier name: (identifier) @attr)]))
 .
 [(attribute_item) (line_comment) (block_comment)]*
 .
 (impl_item
   type: (type_identifier) @type.impl
   body: (declaration_list
     (function_item name: (identifier) @inner.func.name)))
 (#eq? @attr \"autometrics\"))

(mod_item
  name: (identifier) @mod.name
  body: (declaration_list) @mod.contents)

(impl_item
  type: (type_identifier) @impl.type
  body: (declaration_list) @impl.contents)
";

/// The query for every function and the scopes to descend into.
pub const ALL_FUNCTIONS_QUERY: &'static str = "
(function_item name: (identifier) @func.name)

(mod_item
  name: (identifier) @mod.name
  body: (declaration_list) @mod.contents)

(impl_item
  type: (type_identifier) @impl.type
  body: (declaration_list) @impl.contents)
";

/// The capture indices of functions and of the scopes that hold them.
#[derive(Clone, Copy, Debug)]
pub struct Scopes {
    /// The name of a function.
    pub function: u32,
    /// The name of an inline module.
    pub module_name: u32,
    /// The body of an inline module.
    pub module_contents: u32,
    /// The type of an `impl` block.
    pub impl_type: u32,
    /// The body of an `impl` block.
    pub impl_contents: u32,
}

/// The capture indices of annotated `impl` blocks.
#[derive(Clone, Copy, Debug)]
pub struct Annotated {
    /// The type of the block.
    pub owner: u32,
    /// The name of a method of the block.
    pub method: u32,
}

/// How a query is read.
#[derive(Clone, Copy, Debug)]
pub struct Reading {
    pub scopes: Scopes,
    /// Set where the query tells annotated `impl` blocks.
    pub annotated: Option<Annotated>,
    /// Whether the functions that the query finds are instrumented.
    pub instrumented: bool,
    /// Whether a module inside an `impl` block keeps the type of the block.
    pub keeps_owner: bool,
}

/// Whether `node`, or a node above it and below `stop`, is of the kind
/// `kind`. `above` is the chain of nodes above `node`.
pub open spec fn kind_below(
    node: tree_sitter::Node,
    above: Seq<tree_sitter::Node>,
    stop: tree_sitter::Node,
    kind: Seq<char>,
) -> bool
    decreases above.len(),
{
    if node_kind(node) == kind {
        true
    } else if above.len() == 0 {
        false
    } else if node_id(above[0]) == node_id(stop) {
        false
    } else {
        kind_below(above[0], above.skip(1), stop, kind)
    }
}

/// Whether `node` lies in a node of the kind `kind` that lies below `stop`.
pub open spec fn is_within(node: tree_sitter::Node, stop: tree_sitter::Node, kind: Seq<char>)
    -> bool {
    kind_below(node, node_ancestors(node), stop, kind)
}

/// Whether the node two levels above `node` is `scope`.
pub open spec fn is_item_of(node: tree_sitter::Node, scope: tree_sitter::Node) -> bool {
    node_ancestors(node).len() >= 2 && node_id(node_ancestors(node)[1]) == node_id(scope)
}

/// Tells whether `node` lies in a node of the kind `kind` below `stop`.
fn is_within_kind(node: tree_sitter::Node, stop: tree_sitter::Node, kind: &str) -> (r: bool)
    ensures
        r == is_within(node, stop, kind@),
{
    let mut walk = node;
    loop
        invariant
            is_within(node, stop, kind@) == kind_below(walk, node_ancestors(walk), stop, kind@),
        decreases node_ancestors(walk).len(),
    {
        if same_text(kind_of(walk), kind) {
            return true;
        }
        match parent_of(walk) {
            Some(parent) => {
                if same_node(parent, stop) {
                    return false;
                }
                walk = parent;
            },
            None => {
                return false;
            },
        }
    }
}

/// Tells whether `node` lies in an inline module below `max_parent`.
pub fn is_within_mod_item(node: tree_sitter::Node, max_parent: tree_sitter::Node) -> (r: bool)
    ensures
        r == is_within(node, max_parent, GRAMMAR_MOD_ITEM_NODE_KIND@),
{
    is_within_kind(node, max_parent, GRAMMAR_MOD_ITEM_NODE_KIND)
}

/// Tells whether `node` lies in an `impl` block below `max_parent`.
pub fn is_within_impl_item(node: tree_sitter::Node, max_parent: tree_sitter::Node) -> (r: bool)
    ensures
        r == is_within(node, max_parent, GRAMMAR_IMPL_ITEM_NODE_KIND@),
{
    is_within_kind(node, max_parent, GRAMMAR_IMPL_ITEM_NODE_KIND)
}

/// Tells whether the node two levels above `node` is `scope`.
fn is_direct_item(node: tree_sitter::Node, scope: tree_sitter::Node) -> (r: bool)
    ensures
        r == is_item_of(node, scope),
{
    match parent_of(node) {
        Some(parent) => match parent_of(parent) {
            Some(above) => {
                assert(node_ancestors(node).skip(1)[0] == node_ancestors(node)[1]);
                same_node(above, scope)
            },
            None => false,
        },
        None => false,
    }
}

/// What a match gives as a function directly in the scope `node`: the
/// function `module`, `Owner::name` when the match has a function name that
/// lies in no module and no `impl` block below `node` and can be read.
pub open spec fn direct_outcome(
    captures: Seq<Capture>,
    reading: Reading,
    file: Seq<char>,
    module: Seq<char>,
    owner: Option<Seq<char>>,
    node: tree_sitter::Node,
    source: Seq<char>,
) -> Option<FunctionInfoView> {
    match first_capture(captures, reading.scopes.function) {
        None => None,
        Some(name) => if is_within(name, node, GRAMMAR_MOD_ITEM_NODE_KIND@) || is_within(
            name,
            node,
            GRAMMAR_IMPL_ITEM_NODE_KIND@,
        ) {
            None
        } else {
            match node_text(name, source) {
                Some(function) => Some(
                    record_view(
                        module,
                        qualified(owner, "::"@, function),
                        file,
                        node_start(name),
                        node_end(name),
                        reading.instrumented,
                    ),
                ),
                None => None,
            }
        },
    }
}

/// What a match gives as a method of an annotated `impl` block: the
/// function `module`, `Type::name` when the match has a method name that
/// lies in no module below `node`, and a type, and both can be read.
pub open spec fn annotated_outcome(
    captures: Seq<Capture>,
    reading: Reading,
    file: Seq<char>,
    module: Seq<char>,
    node: tree_sitter::Node,
    source: Seq<char>,
) -> Option<FunctionInfoView> {
    match reading.annotated {
        None => None,
        Some(annotated) => match (
            first_capture(captures, annotated.method),
            first_capture(captures, annotated.owner),
        ) {
            (Some(name), Some(owner)) => if is_within(name, node, GRAMMAR_MOD_ITEM_NODE_KIND@) {
                None
            } else {
                match (node_text(owner, source), node_text(name, source)) {
                    (Some(s), Some(f)) => Some(
                        record_view(
                            module,
                            qualified(Some(s), "::"@, f),
                            file,
                            node_start(name),
                            node_end(name),
                            true,
                        ),
                    ),
                    _ => None,
                }
            },
            _ => None,
        },
    }
}

/// What a match says of a scope to descend into.
pub enum Scope<'t> {
    /// The match names no scope of this sort.
    Absent,
    /// The match names a scope that is not an item of the node at hand, or
    /// whose name cannot be read.
    Passed,
    /// The match names a scope of the node at hand, with its body if it was
    /// captured.
    Entered(Seq<char>, Option<tree_sitter::Node<'t>>),
}

/// What a match says of the scope whose name is captured under `name` and
/// whose body under `contents`.
pub open spec fn scope_of<'t>(
    captures: Seq<Capture<'t>>,
    name: u32,
    contents: u32,
    node: tree_sitter::Node<'t>,
    source: Seq<char>,
) -> Scope<'t> {
    match first_capture(captures, name) {
        None => Scope::Absent,
        Some(n) => if !is_item_of(n, node) {
            Scope::Passed
        } else {
            match node_text(n, source) {
                None => Scope::Passed,
                Some(text) => Scope::Entered(text, first_capture(captures, contents)),
            }
        },
    }
}

/// The path of the module `name` in the module `module`.
pub open spec fn nested_module(module: Seq<char>, name: Seq<char>) -> Seq<char> {
    if module.len() == 0 {
        name
    } else {
        module + "::"@ + name
    }
}

/// The functions under `node`: those directly in it, the methods of
/// annotated `impl` blocks in it, and those of the modules and `impl` blocks
/// that are items of it, each scope listed in turn as a node of its own.
pub open spec fn listed_under(
    query: tree_sitter::Query,
    reading: Reading,
    file: Seq<char>,
    source: Seq<char>,
    module: Seq<char>,
    owner: Option<Seq<char>>,
    node: tree_sitter::Node,
) -> Seq<FunctionInfoView>
    decreases node_len(node), 2nat, 0nat,
{
    let found = query_matches(query, node, source);
    kept(
        found.map_values(
            |captures: Seq<Capture>|
                direct_outcome(captures, reading, file, module, owner, node, source),
        ),
    ) + kept(
        found.map_values(
            |captures: Seq<Capture>|
                annotated_outcome(captures, reading, file, module, node, source),
        ),
    ) + listed_in_scopes(query, reading, file, source, module, owner, node, found.len())
}

/// The functions of the scopes that the first `count` matches under `node`
/// name.
pub open spec fn listed_in_scopes(
    query: tree_sitter::Query,
    reading: Reading,
    file: Seq<char>,
    source: Seq<char>,
    module: Seq<char>,
    owner: Option<Seq<char>>,
    node: tree_sitter::Node,
    count: nat,
) -> Seq<FunctionInfoView>
    decreases node_len(node), 1nat, count,
{
    if count == 0 || count > query_matches(query, node, source).len() {
        Seq::empty()
    } else {
        listed_in_scopes(query, reading, file, source, module, owner, node, (count - 1) as nat)
            + listed_in_match(
            query,
            reading,
            file,
            source,
            module,
            owner,
            node,
            query_matches(query, node, source)[count - 1],
        )
    }
}

/// The functions of the scopes that one match under `node` names: those of
/// its module, then those of its `impl` block. A module that is passed over
/// ends the reading of the match. A scope is entered only where its body
/// spans fewer bytes than `node`, as the body of an item of `node` does.
pub open spec fn listed_in_match(
    query: tree_sitter::Query,
    reading: Reading,
    file: Seq<char>,
    source: Seq<char>,
    module: Seq<char>,
    owner: Option<Seq<char>>,
    node: tree_sitter::Node,
    captures: Seq<Capture>,
) -> Seq<FunctionInfoView>
    decreases node_len(node), 0nat, 0nat,
{
    let in_module = match scope_of(
        captures,
        reading.scopes.module_name,
        reading.scopes.module_contents,
        node,
        source,
    ) {
        Scope::Entered(name, Some(contents)) => if node_len(contents) < node_len(node) {
            listed_under(
                query,
                reading,
                file,
                source,
                nested_module(module, name),
                if reading.keeps_owner {
                    owner
                } else {
                    None
                },
                contents,
            )
        } else {
            Seq::empty()
        },
        _ => Seq::empty(),
    };
    let in_impl = match scope_of(
        captures,
        reading.scopes.impl_type,
        reading.scopes.impl_contents,
        node,
        source,
    ) {
        Scope::Entered(name, Some(contents)) => if node_len(contents) < node_len(node) {
            listed_under(query, reading, file, source, module, Some(name), contents)
        } else {
            Seq::empty()
        },
        _ => Seq::empty(),
    };
    if scope_of(
        captures,
        reading.scopes.module_name,
        reading.scopes.module_contents,
        node,
        source,
    ) is Passed {
        Seq::empty()
    } else {
        in_module + in_impl
    }
}

/// Whether every function that a reading finds is of one sort: where it
/// tells annotated `impl` blocks, it takes the functions for instrumented.
pub open spec fn of_one_sort(reading: Reading) -> bool {
    reading.annotated is Some ==> reading.instrumented
}

/// The view of a name that may be absent.
pub open spec fn name_view(name: Option<String>) -> Option<Seq<char>> {
    match name {
        Some(n) => Some(n@),
        None => None,
    }
}

/// Reads a match as a function directly in the scope `node`.
fn read_direct(
    captures: &Vec<Capture>,
    reading: Reading,
    file_name: &str,
    module: &str,
    owner: &Option<String>,
    node: tree_sitter::Node,
    source: &str,
) -> (item: Option<FunctionInfo>)
    ensures
        match item {
            Some(info) => direct_outcome(
                captures@,
                reading,
                file_name@,
                module@,
                name_view(*owner),
                node,
                source@,
            ) == Some(info@),
            None => direct_outcome(
                captures@,
                reading,
                file_name@,
                module@,
                name_view(*owner),
                node,
                source@,
            ) is None,
        },
        item matches Some(info) ==> well_ranged(info@),
{
    let name = match first_node(captures, reading.scopes.function) {
        Some(name) => name,
        None => {
            return None;
        },
    };
    if is_within_mod_item(name, node) {
        return None;
    }
    if is_within_impl_item(name, node) {
        return None;
    }
    match text_of(name, source) {
        Some(function) => {
            let full = match owner {
                Some(o) => qualify(Some(o.as_str()), "::", function.as_str()),
                None => qualify(None, "::", function.as_str()),
            };
            Some(
                record(
                    module,
                    full.as_str(),
                    file_name,
                    start_of(name),
                    end_of(name),
                    reading.instrumented,
                ),
            )
        },
        None => None,
    }
}

/// Reads a match as a method of an annotated `impl` block.
fn read_annotated(
    captures: &Vec<Capture>,
    reading: Reading,
    file_name: &str,
    module: &str,
    node: tree_sitter::Node,
    source: &str,
) -> (item: Option<FunctionInfo>)
    ensures
        match item {
            Some(info) => annotated_outcome(captures@, reading, file_name@, module@, node, source@)
                == Some(info@),
            None => annotated_outcome(captures@, reading, file_name@, module@, node, source@)
                is None,
        },
        item matches Some(info) ==> well_ranged(info@),
{
    let annotated = match reading.annotated {
        Some(annotated) => annotated,
        None => {
            return None;
        },
    };
    let name = match first_node(captures, annotated.method) {
        Some(name) => name,
        None => {
            return None;
        },
    };
    if is_within_mod_item(name, node) {
        return None;
    }
    let owner = match first_node(captures, annotated.owner) {
        Some(owner) => owner,
        None => {
            return None;
        },
    };
    match (text_of(owner, source), text_of(name, source)) {
        (Some(s), Some(f)) => {
            let full = qualify(Some(s.as_str()), "::", f.as_str());
            Some(record(module, full.as_str(), file_name, start_of(name), end_of(name), true))
        },
        _ => None,
    }
}

/// What an executed reading of a scope reports.
enum Step<'t> {
    Absent,
    Passed,
    Entered(String, Option<tree_sitter::Node<'t>>),
}

/// What a step is to a contract.
spec fn step_view<'t>(step: Step<'t>) -> Scope<'t> {
    match step {
        Step::Absent => Scope::Absent,
        Step::Passed => Scope::Passed,
        Step::Entered(name, contents) => Scope::Entered(name@, contents),
    }
}

/// Reads what a match says of a scope.
fn read_scope<'t>(
    captures: &Vec<Capture<'t>>,
    name: u32,
    contents: u32,
    node: tree_sitter::Node<'t>,
    source: &str,
) -> (step: Step<'t>)
    ensures
        step_view(step) == scope_of(captures@, name, contents, node, source@),
{
    let name_node = match first_node(captures, name) {
        Some(n) => n,
        None => {
            return Step::Absent;
        },
    };
    if !is_direct_item(name_node, node) {
        return Step::Passed;
    }
    match text_of(name_node, source) {
        Some(text) => Step::Entered(text, first_node(captures, contents)),
        None => Step::Passed,
    }
}

/// The number of bytes a node spans.
fn len_of(node: tree_sitter::Node) -> (len: usize)
    ensures
        len == node_len(node),
{
    let start = byte_start_of(node);
    let end = byte_end_of(node);
    if start <= end {
        end - start
    } else {
        0
    }
}

/// Puts the records of `more` behind those of `list`.
fn extend(list: &mut Vec<FunctionInfo>, more: Vec<FunctionInfo>)
    ensures
        infos_view(final(list)@) == infos_view(old(list)@) + infos_view(more@),
        all_well_ranged(infos_view(old(list)@)) && all_well_ranged(infos_view(more@))
            ==> all_well_ranged(infos_view(final(list)@)),
{
    let ghost added = more@;
    let mut more = more;
    list.append(&mut more);
    assert(infos_view(list@) == infos_view(old(list)@) + infos_view(added));
}

/// Lists the functions under `node`.
fn list_function_rec(
    query: &tree_sitter::Query,
    reading: Reading,
    file_name: &str,
    source: &str,
    current_module: &str,
    current_owner: &Option<String>,
    node: tree_sitter::Node,
) -> (list: Vec<FunctionInfo>)
    ensures
        infos_view(list@) == listed_under(
            *query,
            reading,
            file_name@,
            source@,
            current_module@,
            name_view(*current_owner),
            node,
        ),
        of_one_sort(reading) ==> uniform(infos_view(list@), reading.instrumented),
        all_well_ranged(infos_view(list@)),
    decreases node_len(node),
{
    let found = run_query(query, node, source);
    let ghost all = query_matches(*query, node, source@);
    let ghost owner = name_view(*current_owner);
    let ghost direct = all.map_values(
        |captures: Seq<Capture>|
            direct_outcome(captures, reading, file_name@, current_module@, owner, node, source@),
    );
    let ghost annotated = all.map_values(
        |captures: Seq<Capture>|
            annotated_outcome(captures, reading, file_name@, current_module@, node, source@),
    );
    let mut list: Vec<FunctionInfo> = Vec::new();
    let mut i: usize = 0;
    assert(direct.take(0) == Seq::<Option<FunctionInfoView>>::empty());
    assert(infos_view(list@) == Seq::<FunctionInfoView>::empty());
    while i < found.len()
        invariant
            i <= found.len(),
            all.len() == found.len(),
            matches_view(found@) == all,
            owner == name_view(*current_owner),
            direct == all.map_values(
                |captures: Seq<Capture>|
                    direct_outcome(
                        captures,
                        reading,
                        file_name@,
                        current_module@,
                        owner,
                        node,
                        source@,
                    ),
            ),
            infos_view(list@) == kept(direct.take(i as int)),
            all_well_ranged(infos_view(list@)),
        decreases found.len() - i,
    {
        let item = read_direct(
            &found[i],
            reading,
            file_name,
            current_module,
            current_owner,
            node,
            source,
        );
        proof {
            assert(all[i as int] == found@[i as int]@);
            assert(direct.take(i as int + 1).drop_last() == direct.take(i as int));
            assert(direct.take(i as int + 1).last() == direct[i as int]);
        }
        match item {
            Some(info) => {
                let ghost before = list@;
                list.push(info);
                assert(infos_view(list@) == infos_view(before).push(info@));
            },
            None => {},
        }
        i += 1;
    }
    assert(direct.take(found.len() as int) == direct);
    proof {
        kept_uniform(direct, reading.instrumented);
    }

    let mut methods: Vec<FunctionInfo> = Vec::new();
    let mut j: usize = 0;
    assert(annotated.take(0) == Seq::<Option<FunctionInfoView>>::empty());
    assert(infos_view(methods@) == Seq::<FunctionInfoView>::empty());
    while j < found.len()
        invariant
            j <= found.len(),
            all.len() == found.len(),
            matches_view(found@) == all,
            annotated == all.map_values(
                |captures: Seq<Capture>|
                    annotated_outcome(
                        captures,
                        reading,
                        file_name@,
                        current_module@,
                        node,
                        source@,
                    ),
            ),
            infos_view(methods@) == kept(annotated.take(j as int)),
            all_well_ranged(infos_view(methods@)),
        decreases found.len() - j,
    {
        let item = read_annotated(&found[j], reading, file_name, current_module, node, source);
        proof {
            assert(all[j as int] == found@[j as int]@);
            assert(annotated.take(j as int + 1).drop_last() == annotated.take(j as int));
            assert(annotated.take(j as int + 1).last() == annotated[j as int]);
        }
        match item {
            Some(info) => {
                let ghost before = methods@;
                methods.push(info);
                assert(infos_view(methods@) == infos_view(before).push(info@));
            },
            None => {},
        }
        j += 1;
    }
    assert(annotated.take(found.len() as int) == annotated);
    proof {
        if of_one_sort(reading) {
            if reading.annotated is Some {
                kept_uniform(annotated, true);
            } else {
                kept_uniform(annotated, reading.instrumented);
            }
            uniform_joined(infos_view(list@), infos_view(methods@), reading.instrumented);
        }
    }
    extend(&mut list, methods);

    let mut nested: Vec<FunctionInfo> = Vec::new();
    let mut k: usize = 0;
    assert(infos_view(nested@) == Seq::<FunctionInfoView>::empty());
    while k < found.len()
        invariant
            k <= found.len(),
            all.len() == found.len(),
            all == query_matches(*query, node, source@),
            matches_view(found@) == all,
            owner == name_view(*current_owner),
            of_one_sort(reading) ==> uniform(infos_view(nested@), reading.instrumented),
            all_well_ranged(infos_view(nested@)),
            infos_view(nested@) == listed_in_scopes(
                *query,
                reading,
                file_name@,
                source@,
                current_module@,
                owner,
                node,
                k as nat,
            ),
        decreases found.len() - k,
    {
        let captures = &found[k];
        proof {
            assert(all[k as int] == captures@);
        }
        let ghost expected = listed_in_match(
            *query,
            reading,
            file_name@,
            source@,
            current_module@,
            owner,
            node,
            captures@,
        );
        let mut of_match: Vec<FunctionInfo> = Vec::new();
        assert(infos_view(of_match@) == Seq::<FunctionInfoView>::empty());
        let in_module = read_scope(
            captures,
            reading.scopes.module_name,
            reading.scopes.module_contents,
            node,
            source,
        );
        let passed = match &in_module {
            Step::Passed => true,
            _ => false,
        };
        if !passed {
            if let Step::Entered(name, Some(contents)) = in_module {
                if len_of(contents) < len_of(node) {
                    let new_module = if current_module.unicode_len() == 0 {
                        name
                    } else {
                        current_module.to_owned().concat("::").concat(name.as_str())
                    };
                    let kept_owner = if reading.keeps_owner {
                        current_owner.clone()
                    } else {
                        None
                    };
                    let inner = list_function_rec(
                        query,
                        reading,
                        file_name,
                        source,
                        new_module.as_str(),
                        &kept_owner,
                        contents,
                    );
                    proof {
                        if of_one_sort(reading) {
                            uniform_joined(
                                infos_view(of_match@),
                                infos_view(inner@),
                                reading.instrumented,
                            );
                        }
                    }
                    extend(&mut of_match, inner);
                }
            }
            let in_impl = read_scope(
                captures,
                reading.scopes.impl_type,
                reading.scopes.impl_contents,
                node,
                source,
            );
            if let Step::Entered(name, Some(contents)) = in_impl {
                if len_of(contents) < len_of(node) {
                    let inner = list_function_rec(
                        query,
                        reading,
                        file_name,
                        source,
                        current_module,
                        &Some(name),
                        contents,
                    );
                    proof {
                        if of_one_sort(reading) {
                            uniform_joined(
                                infos_view(of_match@),
                                infos_view(inner@),
                                reading.instrumented,
                            );
                        }
                    }
                    extend(&mut of_match, inner);
                }
            }
        }
        assert(infos_view(of_match@) == expected);
        proof {
            if of_one_sort(reading) {
                uniform_joined(infos_view(nested@), infos_view(of_match@), reading.instrumented);
            }
        }
        extend(&mut nested, of_match);
        k += 1;
    }
    proof {
        if of_one_sort(reading) {
            uniform_joined(infos_view(list@), infos_view(nested@), reading.instrumented);
        }
    }
    extend(&mut list, nested);
    list
}

/// The capture names that the query for instrumented functions must have,
/// in the order in which they are looked up, each with the name under which
/// it is reported when it is missing.
pub open spec fn am_names() -> Seq<(Seq<char>, Seq<char>)> {
    seq![
        (FUNC_NAME_CAPTURE@, FUNC_NAME_CAPTURE@),
        (ANNOTATED_IMPL_NAME_CAPTURE@, ANNOTATED_IMPL_NAME_CAPTURE@),
        (ANNOTATED_IMPL_METHOD_NAME_CAPTURE@, ANNOTATED_IMPL_METHOD_NAME_CAPTURE@),
        (MOD_NAME_CAPTURE@, MOD_NAME_CAPTURE@),
        (MOD_CONTENTS_CAPTURE@, MOD_NAME_CAPTURE@),
        (IMPL_NAME_CAPTURE@, IMPL_NAME_CAPTURE@),
        (IMPL_CONTENTS_CAPTURE@, IMPL_CONTENTS_CAPTURE@),
    ]
}

/// The capture names that the query for all functions must have.
pub open spec fn all_names() -> Seq<(Seq<char>, Seq<char>)> {
    seq![
        (FUNC_NAME_CAPTURE@, FUNC_NAME_CAPTURE@),
        (MOD_NAME_CAPTURE@, MOD_NAME_CAPTURE@),
        (MOD_CONTENTS_CAPTURE@, MOD_NAME_CAPTURE@),
        (IMPL_NAME_CAPTURE@, IMPL_NAME_CAPTURE@),
        (IMPL_CONTENTS_CAPTURE@, IMPL_CONTENTS_CAPTURE@),
    ]
}

/// How the query for instrumented functions is read, given the indices of
/// its capture names.
pub open spec fn am_reading(indices: Seq<u32>) -> Reading {
    Reading {
        scopes: Scopes {
            function: indices[0],
            module_name: indices[3],
            module_contents: indices[4],
            impl_type: indices[5],
            impl_contents: indices[6],
        },
        annotated: Some(Annotated { owner: indices[1], method: indices[2] }),
        instrumented: true,
        keeps_owner: true,
    }
}

/// How the query for all functions is read, given the indices of its capture
/// names.
pub open spec fn all_reading(indices: Seq<u32>) -> Reading {
    Reading {
        scopes: Scopes {
            function: indices[0],
            module_name: indices[1],
            module_contents: indices[2],
            impl_type: indices[3],
            impl_contents: indices[4],
        },
        annotated: None,
        instrumented: false,
        keeps_owner: false,
    }
}

/// The query for the instrumented functions of a Rust source.
#[derive(Debug)]
pub struct AmQuery {
    query: tree_sitter::Query,
    reading: Reading,
}

impl AmQuery {
    /// The compiled query.
    pub closed spec fn compiled(&self) -> tree_sitter::Query {
        self.query
    }

    /// How the query is read.
    pub closed spec fn reading(&self) -> Reading {
        self.reading
    }

    /// What the query lists under `root` for a file of the module `module`.
    pub open spec fn listed(
        &self,
        file: Seq<char>,
        module: Seq<char>,
        root: tree_sitter::Node,
        source: Seq<char>,
    ) -> Seq<FunctionInfoView> {
        listed_under(self.compiled(), self.reading(), file, source, module, None, root)
    }

    /// Takes a compiled query and looks up the capture names in it.
    pub fn with_query(query: tree_sitter::Query) -> (r: Result<AmQuery, AmlError>)
        ensures
            match r {
                Ok(q) => q.compiled() == query && exists|indices: Seq<u32>|
                    names_found(query, am_names(), indices) && q.reading() == am_reading(indices),
                Err(e) => name_missing(query, am_names(), e),
            },
    {
        let names = vec![
            (FUNC_NAME_CAPTURE, FUNC_NAME_CAPTURE),
            (ANNOTATED_IMPL_NAME_CAPTURE, ANNOTATED_IMPL_NAME_CAPTURE),
            (ANNOTATED_IMPL_METHOD_NAME_CAPTURE, ANNOTATED_IMPL_METHOD_NAME_CAPTURE),
            (MOD_NAME_CAPTURE, MOD_NAME_CAPTURE),
            (MOD_CONTENTS_CAPTURE, MOD_NAME_CAPTURE),
            (IMPL_NAME_CAPTURE, IMPL_NAME_CAPTURE),
            (IMPL_CONTENTS_CAPTURE, IMPL_CONTENTS_CAPTURE),
        ];
        assert(names_view(names@) == am_names());
        let indices = capture_indices(&query, &names)?;
        let reading = Reading {
            scopes: Scopes {
                function: indices[0],
                module_name: indices[3],
                module_contents: indices[4],
                impl_type: indices[5],
                impl_contents: indices[6],
            },
            annotated: Some(Annotated { owner: indices[1], method: indices[2] }),
            instrumented: true,
            keeps_owner: true,
        };
        assert(reading == am_reading(indices@));
        Ok(AmQuery { query, reading })
    }

    /// Compiles the query. It is built exactly when its text is a query
    /// that has the capture names of the analysis, and is then read by the
    /// indices of the names in it. Where it is not built, the error tells
    /// why: the text is no query, or the first of the names that is missing.
    pub fn try_new() -> (r: Result<AmQuery, AmlError>)
        ensures
            r is Ok <==> query_loads(Language::Rust, AM_QUERY@, am_names()),
            match r {
                Ok(q) => compiled_from(q.compiled(), Language::Rust, AM_QUERY@) && exists|
                    indices: Seq<u32>,
                |
                    names_found(q.compiled(), am_names(), indices) && q.reading() == am_reading(
                        indices,
                    ),
                Err(e) => is_query_failure(e, Language::Rust, AM_QUERY@, am_names()),
            },
    {
        let query = new_query(Language::Rust, AM_QUERY)?;
        AmQuery::with_query(query)
    }

    /// Lists the instrumented functions under `root`, a node of the tree
    /// parsed from `source`, for a file of the module `module`.
    pub fn list_function_names_under(
        &self,
        file_name: &str,
        module: &str,
        root: tree_sitter::Node,
        source: &str,
    ) -> (list: Vec<FunctionInfo>)
        ensures
            infos_view(list@) == self.listed(file_name@, module@, root, source@),
            of_one_sort(self.reading()) ==> uniform(
                infos_view(list@),
                self.reading().instrumented,
            ),
            all_well_ranged(infos_view(list@)),
    {
        list_function_rec(&self.query, self.reading, file_name, source, module, &None, root)
    }

    /// Parses `source` and lists its instrumented functions: what the
    /// query lists under the root of a parse of the source. The listing
    /// fails exactly when the parser does not accept the grammar.
    pub fn list_function_names(&self, file_name: &str, module: String, source: &str) -> (r: Result<
        Vec<FunctionInfo>,
        AmlError,
    >)
        ensures
            r is Ok <==> grammar_loads(Language::Rust),
            match r {
                Ok(list) => exists|tree: &tree_sitter::Tree|
                    parses(tree, Language::Rust, source@) && infos_view(list@) == self.listed(
                        file_name@,
                        module@,
                        tree_root(tree),
                        source@,
                    ),
                Err(e) => is_parse_failure(e, Language::Rust),
            },
            r matches Ok(list) ==> (of_one_sort(self.reading()) ==> uniform(
                infos_view(list@),
                self.reading().instrumented,
            )) && all_well_ranged(infos_view(list@)),
    {
        let tree = parse(Language::Rust, source)?;
        Ok(self.list_function_names_under(file_name, module.as_str(), root_of(&tree), source))
    }
}

/// The query for every function of a Rust source.
#[derive(Debug)]
pub struct AllFunctionsQuery {
    query: tree_sitter::Query,
    reading: Reading,
}

impl AllFunctionsQuery {
    /// The compiled query.
    pub closed spec fn compiled(&self) -> tree_sitter::Query {
        self.query
    }

    /// How the query is read.
    pub closed spec fn reading(&self) -> Reading {
        self.reading
    }

    /// What the query lists under `root` for a file of the module `module`.
    pub open spec fn listed(
        &self,
        file: Seq<char>,
        module: Seq<char>,
        root: tree_sitter::Node,
        source: Seq<char>,
    ) -> Seq<FunctionInfoView> {
        listed_under(self.compiled(), self.reading(), file, source, module, None, root)
    }

    /// Takes a compiled query and looks up the capture names in it.
    pub fn with_query(query: tree_sitter::Query) -> (r: Result<AllFunctionsQuery, AmlError>)
        ensures
            match r {
                Ok(q) => q.compiled() == query && exists|indices: Seq<u32>|
                    names_found(query, all_names(), indices) && q.reading() == all_reading(
                        indices,
                    ),
                Err(e) => name_missing(query, all_names(), e),
            },
    {
        let names = vec![
            (FUNC_NAME_CAPTURE, FUNC_NAME_CAPTURE),
            (MOD_NAME_CAPTURE, MOD_NAME_CAPTURE),
            (MOD_CONTENTS_CAPTURE, MOD_NAME_CAPTURE),
            (IMPL_NAME_CAPTURE, IMPL_NAME_CAPTURE),
            (IMPL_CONTENTS_CAPTURE, IMPL_CONTENTS_CAPTURE),
        ];
        assert(names_view(names@) == all_names());
        let indices = capture_indices(&query, &names)?;
        let reading = Reading {
            scopes: Scopes {
                function: indices[0],
                module_name: indices[1],
                module_contents: indices[2],
                impl_type: indices[3],
                impl_contents: indices[4],
            },
            annotated: None,
            instrumented: false,
            keeps_owner: false,
        };
        assert(reading == all_reading(indices@));
        Ok(AllFunctionsQuery { query, reading })
    }

    /// Compiles the query. It is built exactly when its text is a query
    /// that has the capture names of the analysis, and is then read by the
    /// indices of the names in it. Where it is not built, the error tells
    /// why: the text is no query, or the first of the names that is missing.
    pub fn try_new() -> (r: Result<AllFunctionsQuery, AmlError>)
        ensures
            r is Ok <==> query_loads(Language::Rust, ALL_FUNCTIONS_QUERY@, all_names()),
            match r {
                Ok(q) => compiled_from(q.compiled(), Language::Rust, ALL_FUNCTIONS_QUERY@)
                    && exists|indices: Seq<u32>|
                    names_found(q.compiled(), all_names(), indices) && q.reading() == all_reading(
                        indices,
                    ),
                Err(e) => is_query_failure(e, Language::Rust, ALL_FUNCTIONS_QUERY@, all_names()),
            },
    {
        let query = new_query(Language::Rust, ALL_FUNCTIONS_QUERY)?;
        AllFunctionsQuery::with_query(query)
    }

    /// Lists the functions defined under `root`, a node of the tree parsed
    /// from `source`, for a file of the module `module`.
    pub fn list_function_names_under(
        &self,
        file_name: &str,
        module: &str,
        root: tree_sitter::Node,
        source: &str,
    ) -> (list: Vec<FunctionInfo>)
        ensures
            infos_view(list@) == self.listed(file_name@, module@, root, source@),
            of_one_sort(self.reading()) ==> uniform(
                infos_view(list@),
                self.reading().instrumented,
            ),
            all_well_ranged(infos_view(list@)),
    {
        list_function_rec(&self.query, self.reading, file_name, source, module, &None, root)
    }

    /// Parses `source` and lists the functions it defines: what the
    /// query lists under the root of a parse of the source. The listing
    /// fails exactly when the parser does not accept the grammar.
    pub fn list_function_names(&self, file_name: &str, module: String, source: &str) -> (r: Result<
        Vec<FunctionInfo>,
        AmlError,
    >)
        ensures
            r is Ok <==> grammar_loads(Language::Rust),
            match r {
                Ok(list) => exists|tree: &tree_sitter::Tree|
                    parses(tree, Language::Rust, source@) && infos_view(list@) == self.listed(
                        file_name@,
                        module@,
                        tree_root(tree),
                        source@,
                    ),
                Err(e) => is_parse_failure(e, Language::Rust),
            },
            r matches Ok(list) ==> (of_one_sort(self.reading()) ==> uniform(
                infos_view(list@),
                self.reading().instrumented,
            )) && all_well_ranged(infos_view(list@)),
    {
        let tree = parse(Language::Rust, source)?;
        Ok(self.list_function_names_under(file_name, module.as_str(), root_of(&tree), source))
    }
}

/// The file name under which the functions of a single source are listed.
pub const SINGLE_FILE: &'static str = "<single file>";

/// The analysis of Rust sources.
#[derive(Clone, Copy, Debug, Default)]
pub struct Impl {}

/// Whether `listing` is what a file of a project adds to a listing: what
/// `query` lists under the root of a parse of the file, as functions of the
/// module of the file, and nothing where the file has no parse, the parser
/// not accepting the grammar.
pub open spec fn file_listing(
    query: tree_sitter::Query,
    reading: Reading,
    file: SourceFile,
    listing: Seq<FunctionInfoView>,
) -> bool {
    if grammar_loads(Language::Rust) {
        exists|tree: &tree_sitter::Tree|
            parses(tree, Language::Rust, file.source@) && listing == listed_under(
                query,
                reading,
                file.file_name@,
                file.source@,
                file.module@,
                None,
                tree_root(tree),
            )
    } else {
        listing.len() == 0
    }
}

/// Whether `list` is a listing of a project by `query`: one record per
/// function, the last of those that the files give for it, file by file.
pub open spec fn project_listing(
    query: tree_sitter::Query,
    reading: Reading,
    project: Seq<SourceFile>,
    list: Seq<FunctionInfoView>,
) -> bool {
    exists|found: Seq<Seq<FunctionInfoView>>|
        {
            &&& found.len() == project.len()
            &&& forall|k: int|
                0 <= k < found.len() ==> file_listing(
                    query,
                    reading,
                    project[k],
                    #[trigger] found[k],
                )
            &&& list == keyed(flat(found))
        }
}

/// Lists what `query` finds in the files of a project. A file that has no
/// parse adds nothing.
fn list_files(query: &tree_sitter::Query, reading: Reading, project: &Vec<SourceFile>) -> (list:
    Vec<FunctionInfo>)
    requires
        of_one_sort(reading),
    ensures
        project_listing(*query, reading, project@, infos_view(list@)),
        uniform(infos_view(list@), reading.instrumented),
        distinct_ids(infos_view(list@)),
{
    let mut list: Vec<FunctionInfo> = Vec::new();
    let ghost mut found: Seq<Seq<FunctionInfoView>> = Seq::empty();
    let mut i: usize = 0;
    assert(infos_view(list@) == flat(found));
    while i < project.len()
        invariant
            i <= project.len(),
            found.len() == i,
            of_one_sort(reading),
            forall|k: int|
                0 <= k < found.len() ==> file_listing(
                    *query,
                    reading,
                    project@[k],
                    #[trigger] found[k],
                ),
            infos_view(list@) == flat(found),
            uniform(infos_view(list@), reading.instrumented),
        decreases project.len() - i,
    {
        let file = &project[i];
        let mut names = match parse(Language::Rust, file.source.as_str()) {
            Ok(tree) => list_function_rec(
                query,
                reading,
                file.file_name.as_str(),
                file.source.as_str(),
                file.module.as_str(),
                &None,
                root_of(&tree),
            ),
            Err(_) => Vec::new(),
        };
        let ghost before = infos_view(list@);
        let ghost added = infos_view(names@);
        list.append(&mut names);
        proof {
            uniform_joined(before, added, reading.instrumented);
            assert(infos_view(list@) == before + added);
            assert(found.push(added).drop_last() == found);
            found = found.push(added);
        }
        i += 1;
    }
    proof {
        crate::merge::keyed_uniform(infos_view(list@), reading.instrumented);
    }
    crate::merge::key_functions(list)
}

impl ListAmFunctions for Impl {
    open spec fn lists_instrumented(project: Seq<SourceFile>) -> bool {
        query_loads(Language::Rust, AM_QUERY@, am_names())
    }

    open spec fn lists_defined(project: Seq<SourceFile>) -> bool {
        query_loads(Language::Rust, ALL_FUNCTIONS_QUERY@, all_names())
    }

    open spec fn instrumented_in(project: Seq<SourceFile>, list: Seq<FunctionInfoView>) -> bool {
        exists|query: AmQuery, indices: Seq<u32>|
            {
                &&& compiled_from(query.compiled(), Language::Rust, AM_QUERY@)
                &&& names_found(query.compiled(), am_names(), indices)
                &&& query.reading() == am_reading(indices)
                &&& project_listing(query.compiled(), query.reading(), project, list)
            }
    }

    open spec fn defined_in(project: Seq<SourceFile>, list: Seq<FunctionInfoView>) -> bool {
        exists|query: AllFunctionsQuery, indices: Seq<u32>|
            {
                &&& compiled_from(query.compiled(), Language::Rust, ALL_FUNCTIONS_QUERY@)
                &&& names_found(query.compiled(), all_names(), indices)
                &&& query.reading() == all_reading(indices)
                &&& project_listing(query.compiled(), query.reading(), project, list)
            }
    }

    open spec fn instrumented_in_source(source: Seq<char>, list: Seq<FunctionInfoView>) -> bool {
        exists|query: AmQuery, indices: Seq<u32>, tree: &tree_sitter::Tree|
            {
                &&& compiled_from(query.compiled(), Language::Rust, AM_QUERY@)
                &&& names_found(query.compiled(), am_names(), indices)
                &&& query.reading() == am_reading(indices)
                &&& parses(tree, Language::Rust, source)
                &&& list == query.listed(SINGLE_FILE@, Seq::empty(), tree_root(tree), source)
            }
    }

    open spec fn defined_in_source(source: Seq<char>, list: Seq<FunctionInfoView>) -> bool {
        exists|query: AllFunctionsQuery, indices: Seq<u32>, tree: &tree_sitter::Tree|
            {
                &&& compiled_from(query.compiled(), Language::Rust, ALL_FUNCTIONS_QUERY@)
                &&& names_found(query.compiled(), all_names(), indices)
                &&& query.reading() == all_reading(indices)
                &&& parses(tree, Language::Rust, source)
                &&& list == query.listed(SINGLE_FILE@, Seq::empty(), tree_root(tree), source)
            }
    }

    open spec fn instrumented_in_failure(project: Seq<SourceFile>, error: AmlError) -> bool {
        is_query_failure(error, Language::Rust, AM_QUERY@, am_names())
    }

    open spec fn defined_in_failure(project: Seq<SourceFile>, error: AmlError) -> bool {
        is_query_failure(error, Language::Rust, ALL_FUNCTIONS_QUERY@, all_names())
    }

    open spec fn instrumented_failure(source: Seq<char>, error: AmlError) -> bool {
        if query_loads(Language::Rust, AM_QUERY@, am_names()) {
            is_parse_failure(error, Language::Rust)
        } else {
            is_query_failure(error, Language::Rust, AM_QUERY@, am_names())
        }
    }

    open spec fn defined_failure(source: Seq<char>, error: AmlError) -> bool {
        if query_loads(Language::Rust, ALL_FUNCTIONS_QUERY@, all_names()) {
            is_parse_failure(error, Language::Rust)
        } else {
            is_query_failure(error, Language::Rust, ALL_FUNCTIONS_QUERY@, all_names())
        }
    }

    /// The listing of the project by the query for instrumented functions.
    fn list_autometrics_functions(&mut self, project: &Vec<SourceFile>) -> (r: Result<
        Vec<FunctionInfo>,
        AmlError,
    >)
    {
        let query = AmQuery::try_new()?;
        Ok(list_files(&query.query, query.reading, project))
    }

    /// The listing of the project by the query for all functions.
    fn list_all_function_definitions(&mut self, project: &Vec<SourceFile>) -> (r: Result<
        Vec<FunctionInfo>,
        AmlError,
    >)
    {
        let query = AllFunctionsQuery::try_new()?;
        Ok(list_files(&query.query, query.reading, project))
    }

    /// The listing of the source by the query for instrumented functions,
    /// as functions of the module without a name.
    fn list_autometrics_functions_in_single_file(&mut self, source_code: &str) -> (r: Result<
        Vec<FunctionInfo>,
        AmlError,
    >)
        ensures
            r is Ok <==> query_loads(Language::Rust, AM_QUERY@, am_names()) && grammar_loads(
                Language::Rust,
            ),
    {
        let query = AmQuery::try_new()?;
        query.list_function_names(SINGLE_FILE, String::new(), source_code)
    }

    /// The listing of the source by the query for all functions, as
    /// functions of the module without a name.
    fn list_all_function_definitions_in_single_file(&mut self, source_code: &str) -> (r: Result<
        Vec<FunctionInfo>,
        AmlError,
    >)
        ensures
            r is Ok <==> query_loads(Language::Rust, ALL_FUNCTIONS_QUERY@, all_names())
                && grammar_loads(Language::Rust),
    {
        let query = AllFunctionsQuery::try_new()?;
        query.list_function_names(SINGLE_FILE, String::new(), source_code)
    }
}

} // verus!
