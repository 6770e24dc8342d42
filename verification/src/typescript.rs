//! TypeScript and JavaScript: functions by file, methods by class, marked by
//! the `Autometrics` decorator or wrapped in a call of the `autometrics`
//! function.

use crate::imports::{CanonicalSource, Identifier, ImportsMap, Source, canonical, resolved};
use crate::listing::{
    instrumented_joined, kept, qualified, qualify, record, record_view, uniform_joined, wrapped,
    wrapped_view,
};
use crate::model::{
    all_instrumented, all_well_ranged, AmlError, FunctionInfo, FunctionInfoView, infos_view, Language, Range, uniform, well_ranged,
};
use crate::merge::keyed;
use crate::project::{ListAmFunctions, SourceFile, flat};
use crate::syntax::{
    Capture, capture_indices, compiled_from, end_of, first_capture, first_node, grammar_loads, is_parse_failure, is_query_failure, matches_view, name_missing, names_found, names_view, new_query, node_end, node_start, node_text, parse, parses, query_loads, query_matches, root_of, run_query, start_of, text_of, tree_root,
};
use vstd::prelude::*;
use vstd::string::StringExecFns;

verus! {

/// The capture name of a function's name.
pub const FUNC_NAME_CAPTURE: &'static str = "func.name";

/// The capture name of the expression that is a function's value.
pub const FUNC_VALUE_CAPTURE: &'static str = "func.value";

/// The capture name of a class's name.
pub const TYPE_NAME_CAPTURE: &'static str = "type.name";

/// The capture name of a method's name.
pub const METHOD_NAME_CAPTURE: &'static str = "method.name";

/// The capture name of the wrapper as imported, for calls with the function
/// as only argument.
pub const WRAPPER_DIRECT_NAME_CAPTURE: &'static str = "wrapperdirect.name";

/// The capture name of the wrapper as imported, for calls with options.
pub const WRAPPER_NAME_CAPTURE: &'static str = "wrapper.name";

/// The capture name of the module named in the options of a wrapper call.
pub const WRAPPER_ARGS_MODULE_CAPTURE: &'static str = "module.name";

/// The capture name of an imported name.
pub const IMPORTS_IDENT_NAME_CAPTURE: &'static str = "inst.ident";

/// The capture name of the name that an alias stands for.
pub const IMPORTS_REAL_NAME_CAPTURE: &'static str = "inst.realname";

/// The capture name of the source of an import.
pub const IMPORTS_SOURCE_CAPTURE: &'static str = "inst.source";

/// The capture name of the alias of a namespace import.
pub const IMPORTS_PREFIX_CAPTURE: &'static str = "inst.prefix";

/// The query for every function and method.
pub const ALL_FUNCTIONS_QUERY: &'static str = "
(function_declaration name: (identifier) @func.name)

((function_expression name: (identifier) @func.name) @func.value)

(variable_declarator
  name: (identifier) @func.name
  value: [(arrow_function) (function_expression !name)] @func.value)

(class_declaration
  name: (type_identifier) @type.name
  body: (class_body
    (method_definition name: (property_identifier) @method.name)))
";

/// The query for the wrapper as imported and for the methods of decorated
/// classes.
pub const AM_QUERY: &'static str = "
((import_specifier
   name: (identifier) @wrapperdirect.name @wrapper.name
   !alias)
 (#eq? @wrapperdirect.name \"autometrics\"))

((import_specifier
   name: (identifier) @wrapper.origin
   alias: (identifier) @wrapperdirect.name @wrapper.name)
 (#eq? @wrapper.origin \"autometrics\"))

((class_declaration
   decorator: (decorator
     [(identifier) @decorator.name (call_expression function: (identifier) @decorator.name)])
   name: (type_identifier) @type.name
   body: (class_body
     (method_definition name: (property_identifier) @method.name)))
 (#eq? @decorator.name \"Autometrics\"))

((class_declaration
   name: (type_identifier) @type.name
   body: (class_body
     (decorator
       [(identifier) @decorator.name (call_expression function: (identifier) @decorator.name)])
     .
     (method_definition name: (property_identifier) @method.name)))
 (#eq? @decorator.name \"Autometrics\"))
";

/// The query for calls of the wrapper with the function as only argument, up
/// to the name of the wrapper.
pub const WRAPPER_DIRECT_CALL_HEAD: &'static str = "
((call_expression
   function: (identifier) @wrapper.call
   arguments: (arguments
     .
     [(identifier) @func.name
      (member_expression) @func.name
      (function_expression name: (identifier) @func.name)]
     .))
 (#eq? @wrapper.call \"";

/// The query for calls of the wrapper with options, up to the name of the
/// wrapper.
pub const WRAPPER_CALL_HEAD: &'static str = "
((call_expression
   function: (identifier) @wrapper.call
   arguments: (arguments
     .
     (object
       (pair
         key: (property_identifier) @function.key
         value: (string (string_fragment) @func.name))
       (pair
         key: (property_identifier) @module.key
         value: (string (string_fragment) @module.name)))))
 (#eq? @function.key \"functionName\")
 (#eq? @module.key \"moduleName\")
 (#eq? @wrapper.call \"";

/// The end of a query that ends with the name of the wrapper.
pub const WRAPPER_TAIL: &'static str = "\"))
";

/// The query for the imports of a file.
pub const IMPORTS_QUERY: &'static str = "
(import_statement
  (import_clause (namespace_import (identifier) @inst.prefix))
  source: (string (string_fragment) @inst.source))

(import_statement
  (import_clause
    (named_imports
      (import_specifier name: (identifier) @inst.ident !alias)))
  source: (string (string_fragment) @inst.source))

(import_statement
  (import_clause
    (named_imports
      (import_specifier
        name: (identifier) @inst.realname
        alias: (identifier) @inst.ident)))
  source: (string (string_fragment) @inst.source))
";

/// A function of a TypeScript source with, where the function is the value
/// of an expression, the stretch of that expression.
#[derive(Debug, PartialEq, Eq)]
pub struct TypescriptFunctionInfo {
    pub inner_info: FunctionInfo,
    pub function_rvalue_range: Option<Range>,
}

impl View for TypescriptFunctionInfo {
    type V = (FunctionInfoView, Option<Range>);

    open spec fn view(&self) -> (FunctionInfoView, Option<Range>) {
        (self.inner_info@, self.function_rvalue_range)
    }
}

/// The views of a list of functions with their value stretches.
pub open spec fn valued_view(list: Seq<TypescriptFunctionInfo>) -> Seq<
    (FunctionInfoView, Option<Range>),
> {
    list.map_values(|info: TypescriptFunctionInfo| info@)
}

/// The functions of a list of functions with their value stretches.
pub open spec fn without_values(list: Seq<(FunctionInfoView, Option<Range>)>) -> Seq<
    FunctionInfoView,
> {
    list.map_values(|info: (FunctionInfoView, Option<Range>)| info.0)
}

/// The items that are present, in order.
pub open spec fn present<T>(items: Seq<Option<T>>) -> Seq<T>
    decreases items.len(),
{
    if items.len() == 0 {
        Seq::empty()
    } else {
        match items.last() {
            None => present(items.drop_last()),
            Some(item) => present(items.drop_last()).push(item),
        }
    }
}

/// The definitions present among matches that give definitions are
/// defined and not instrumented.
pub proof fn present_definitions(items: Seq<Option<(FunctionInfoView, Option<Range>)>>)
    requires
        forall|i: int|
            0 <= i < items.len() ==> (#[trigger] items[i] matches Some(info)
                ==> info.0.definition is Some && info.0.instrumentation is None),
    ensures
        uniform(without_values(present(items)), false),
    decreases items.len(),
{
    if items.len() > 0 {
        let front = items.drop_last();
        assert forall|i: int| 0 <= i < front.len() implies (#[trigger] front[i] matches Some(info)
            ==> info.0.definition is Some && info.0.instrumentation is None) by {
            assert(front[i] == items[i]);
        }
        present_definitions(front);
        assert(items.last() == items[items.len() - 1]);
        let list = without_values(present(items));
        let before = without_values(present(front));
        assert forall|i: int| 0 <= i < list.len() implies (#[trigger] list[i]).definition is Some
            && (list[i].instrumentation is Some <==> false) by {
            if i < before.len() {
                assert(list[i] == before[i]);
            }
        }
    }
}

/// The text of a capture that may be absent: nothing captured, a text, or a
/// capture whose text cannot be read.
pub open spec fn captured_text(captures: Seq<Capture>, index: u32, source: Seq<char>) -> Option<
    Option<Seq<char>>,
> {
    match first_capture(captures, index) {
        None => None,
        Some(node) => Some(node_text(node, source)),
    }
}

/// The stretch between the start and the end of a node.
pub open spec fn node_range(node: tree_sitter::Node) -> Range {
    Range { start: node_start(node), end: node_end(node) }
}

/// The capture indices of the query for all functions.
#[derive(Clone, Copy, Debug)]
pub struct Definitions {
    pub function: u32,
    pub value: u32,
    pub class: u32,
    pub method: u32,
}

/// What one match of the query for all functions gives. A function name
/// that can be read gives the function `module`, `name`, with the stretch of
/// its value if the match has one. Without a function name, a method name
/// and a class name that can both be read give `module`, `Class.method`.
pub open spec fn definition_outcome(
    captures: Seq<Capture>,
    indices: Definitions,
    file: Seq<char>,
    module: Seq<char>,
    source: Seq<char>,
) -> Option<(FunctionInfoView, Option<Range>)> {
    match first_capture(captures, indices.function) {
        Some(node) if node_text(node, source) is Some => Some(
            (
                record_view(
                    module,
                    node_text(node, source)->0,
                    file,
                    node_start(node),
                    node_end(node),
                    false,
                ),
                match first_capture(captures, indices.value) {
                    Some(value) => Some(node_range(value)),
                    None => None,
                },
            ),
        ),
        _ => method_outcome(captures, indices.class, indices.method, file, module, source, false),
    }
}

/// What one match gives as a method: with a method name and a class name
/// that can both be read, the function `module`, `Class.method` at the place
/// of the method's name.
pub open spec fn method_outcome(
    captures: Seq<Capture>,
    class: u32,
    method: u32,
    file: Seq<char>,
    module: Seq<char>,
    source: Seq<char>,
    instrumented: bool,
) -> Option<(FunctionInfoView, Option<Range>)> {
    match (first_capture(captures, method), first_capture(captures, class)) {
        (Some(method_node), Some(class_node)) => match (
            node_text(method_node, source),
            node_text(class_node, source),
        ) {
            (Some(method_name), Some(class_name)) => Some(
                (
                    record_view(
                        module,
                        qualified(Some(class_name), "."@, method_name),
                        file,
                        node_start(method_node),
                        node_end(method_node),
                        instrumented,
                    ),
                    None,
                ),
            ),
            _ => None,
        },
        _ => None,
    }
}

/// Reads a match as a method.
fn read_method(
    captures: &Vec<Capture>,
    class: u32,
    method: u32,
    file_name: &str,
    module_name: &str,
    source: &str,
    instrumented: bool,
) -> (item: Option<TypescriptFunctionInfo>)
    ensures
        match item {
            Some(info) => method_outcome(
                captures@,
                class,
                method,
                file_name@,
                module_name@,
                source@,
                instrumented,
            ) == Some(info@),
            None => method_outcome(
                captures@,
                class,
                method,
                file_name@,
                module_name@,
                source@,
                instrumented,
            ) is None,
        },
        item matches Some(info) ==> well_ranged(info@.0),
{
    let method_node = match first_node(captures, method) {
        Some(node) => node,
        None => {
            return None;
        },
    };
    let class_node = match first_node(captures, class) {
        Some(node) => node,
        None => {
            return None;
        },
    };
    match (text_of(method_node, source), text_of(class_node, source)) {
        (Some(method_name), Some(class_name)) => {
            let full = qualify(Some(class_name.as_str()), ".", method_name.as_str());
            Some(
                TypescriptFunctionInfo {
                    inner_info: record(
                        module_name,
                        full.as_str(),
                        file_name,
                        start_of(method_node),
                        end_of(method_node),
                        instrumented,
                    ),
                    function_rvalue_range: None,
                },
            )
        },
        _ => None,
    }
}

/// Reads a match of the query for all functions.
fn read_definition(
    captures: &Vec<Capture>,
    indices: Definitions,
    file_name: &str,
    module_name: &str,
    source: &str,
) -> (item: Option<TypescriptFunctionInfo>)
    ensures
        match item {
            Some(info) => definition_outcome(captures@, indices, file_name@, module_name@, source@)
                == Some(info@),
            None => definition_outcome(captures@, indices, file_name@, module_name@, source@)
                is None,
        },
        item matches Some(info) ==> well_ranged(info@.0),
{
    match first_node(captures, indices.function) {
        Some(node) => match text_of(node, source) {
            Some(name) => {
                let value = match first_node(captures, indices.value) {
                    Some(value) => Some(Range { start: start_of(value), end: end_of(value) }),
                    None => None,
                };
                return Some(
                    TypescriptFunctionInfo {
                        inner_info: record(
                            module_name,
                            name.as_str(),
                            file_name,
                            start_of(node),
                            end_of(node),
                            false,
                        ),
                        function_rvalue_range: value,
                    },
                );
            },
            None => {},
        },
        None => {},
    }
    read_method(captures, indices.class, indices.method, file_name, module_name, source, false)
}

/// Drops the value stretches of a list of functions.
pub fn into_infos(list: Vec<TypescriptFunctionInfo>) -> (infos: Vec<FunctionInfo>)
    ensures
        infos_view(infos@) == without_values(valued_view(list@)),
{
    let mut infos: Vec<FunctionInfo> = Vec::new();
    let mut i: usize = 0;
    while i < list.len()
        invariant
            i <= list.len(),
            infos.len() == i,
            forall|j: int| 0 <= j < i ==> (#[trigger] infos@[j])@ == list@[j]@.0,
        decreases list.len() - i,
    {
        infos.push(list[i].inner_info.clone());
        i += 1;
    }
    assert(infos_view(infos@) =~= without_values(valued_view(list@)));
    infos
}

/// The query for every function of a TypeScript source.
#[derive(Debug)]
pub struct AllFunctionsQuery {
    query: tree_sitter::Query,
    indices: Definitions,
}

/// The capture names that the query for all functions must have.
pub open spec fn all_names() -> Seq<(Seq<char>, Seq<char>)> {
    seq![
        (FUNC_NAME_CAPTURE@, FUNC_NAME_CAPTURE@),
        (FUNC_VALUE_CAPTURE@, FUNC_VALUE_CAPTURE@),
        (TYPE_NAME_CAPTURE@, TYPE_NAME_CAPTURE@),
        (METHOD_NAME_CAPTURE@, METHOD_NAME_CAPTURE@),
    ]
}

impl AllFunctionsQuery {
    /// The compiled query.
    pub closed spec fn compiled(&self) -> tree_sitter::Query {
        self.query
    }

    /// The capture indices that the analysis reads.
    pub closed spec fn indices(&self) -> Definitions {
        self.indices
    }

    /// What the query lists under `root`.
    pub open spec fn listed(
        &self,
        file: Seq<char>,
        module: Seq<char>,
        root: tree_sitter::Node,
        source: Seq<char>,
    ) -> Seq<(FunctionInfoView, Option<Range>)> {
        present(
            query_matches(self.compiled(), root, source).map_values(
                |captures: Seq<Capture>|
                    definition_outcome(captures, self.indices(), file, module, source),
            ),
        )
    }

    /// Takes a compiled query and looks up the capture names in it.
    pub fn with_query(query: tree_sitter::Query) -> (r: Result<AllFunctionsQuery, AmlError>)
        ensures
            match r {
                Ok(q) => q.compiled() == query && names_found(
                    query,
                    all_names(),
                    seq![
                        q.indices().function,
                        q.indices().value,
                        q.indices().class,
                        q.indices().method,
                    ],
                ),
                Err(e) => name_missing(query, all_names(), e),
            },
    {
        let names = vec![
            (FUNC_NAME_CAPTURE, FUNC_NAME_CAPTURE),
            (FUNC_VALUE_CAPTURE, FUNC_VALUE_CAPTURE),
            (TYPE_NAME_CAPTURE, TYPE_NAME_CAPTURE),
            (METHOD_NAME_CAPTURE, METHOD_NAME_CAPTURE),
        ];
        assert(names_view(names@) == all_names());
        let found = capture_indices(&query, &names)?;
        let indices = Definitions {
            function: found[0],
            value: found[1],
            class: found[2],
            method: found[3],
        };
        assert(found@ == seq![indices.function, indices.value, indices.class, indices.method]);
        Ok(AllFunctionsQuery { query, indices })
    }

    /// Whether this is the query for all functions, read by the indices that its text has for
    /// the capture names.
    pub open spec fn reads(&self) -> bool {
        compiled_from(self.compiled(), Language::Typescript, ALL_FUNCTIONS_QUERY@) && names_found(
            self.compiled(),
            all_names(),
            seq![self.indices().function, self.indices().value, self.indices().class, self.indices().method],
        )
    }

    /// Compiles the query. It is built exactly when its text is a query
    /// that has the capture names of the analysis, and is then read by the
    /// indices of the names in it. Where it is not built, the error tells
    /// why: the text is no query, or the first of the names that is missing.
    pub fn try_new() -> (r: Result<AllFunctionsQuery, AmlError>)
        ensures
            r is Ok <==> query_loads(Language::Typescript, ALL_FUNCTIONS_QUERY@, all_names()),
            match r {
                Ok(q) => q.reads(),
                Err(e) => is_query_failure(
                    e,
                    Language::Typescript,
                    ALL_FUNCTIONS_QUERY@,
                    all_names(),
                ),
            },
    {
        let query = new_query(Language::Typescript, ALL_FUNCTIONS_QUERY)?;
        AllFunctionsQuery::with_query(query)
    }

    /// Lists the functions defined under `root`, a node of the tree parsed
    /// from `source`, each with the stretch of its value where it has one.
    pub fn list_definitions_under(
        &self,
        file_name: &str,
        module_name: &str,
        root: tree_sitter::Node,
        source: &str,
    ) -> (list: Vec<TypescriptFunctionInfo>)
        ensures
            valued_view(list@) == self.listed(file_name@, module_name@, root, source@),
            uniform(without_values(valued_view(list@)), false),
            all_well_ranged(without_values(valued_view(list@))),
    {
        let found = run_query(&self.query, root, source);
        let ghost all = query_matches(self.query, root, source@);
        let ghost items = all.map_values(
            |captures: Seq<Capture>|
                definition_outcome(captures, self.indices, file_name@, module_name@, source@),
        );
        proof {
            present_definitions(items);
        }
        let mut list: Vec<TypescriptFunctionInfo> = Vec::new();
        let mut i: usize = 0;
        assert(items.take(0) == Seq::<Option<(FunctionInfoView, Option<Range>)>>::empty());
        assert(valued_view(list@) == Seq::<(FunctionInfoView, Option<Range>)>::empty());
        while i < found.len()
            invariant
                i <= found.len(),
                all.len() == found.len(),
                matches_view(found@) == all,
                items == all.map_values(
                    |captures: Seq<Capture>|
                        definition_outcome(
                            captures,
                            self.indices,
                            file_name@,
                            module_name@,
                            source@,
                        ),
                ),
                valued_view(list@) == present(items.take(i as int)),
                forall|j: int| 0 <= j < list.len() ==> well_ranged((#[trigger] list@[j])@.0),
            decreases found.len() - i,
        {
            let item = read_definition(&found[i], self.indices, file_name, module_name, source);
            proof {
                assert(all[i as int] == found@[i as int]@);
                assert(items.take(i as int + 1).drop_last() == items.take(i as int));
                assert(items.take(i as int + 1).last() == items[i as int]);
            }
            match item {
                Some(info) => {
                    let ghost before = list@;
                    list.push(info);
                    assert(valued_view(list@) == valued_view(before).push(info@));
                },
                None => {},
            }
            i += 1;
        }
        assert(items.take(found.len() as int) == items);
        list
    }

    /// Parses `source` and lists the functions it defines, each with the
    /// stretch of its value where it has one.
    pub fn list_definitions(&self, file_name: &str, module_name: &str, source: &str) -> (r: Result<
        Vec<TypescriptFunctionInfo>,
        AmlError,
    >)
        ensures
            r is Ok <==> grammar_loads(Language::Typescript),
            match r {
                Ok(list) => exists|tree: &tree_sitter::Tree|
                    parses(tree, Language::Typescript, source@) && valued_view(list@)
                        == self.listed(file_name@, module_name@, tree_root(tree), source@),
                Err(e) => is_parse_failure(e, Language::Typescript),
            },
            r matches Ok(list) ==> uniform(without_values(valued_view(list@)), false)
                && all_well_ranged(without_values(valued_view(list@))),
    {
        let tree = parse(Language::Typescript, source)?;
        Ok(self.list_definitions_under(file_name, module_name, root_of(&tree), source))
    }

    /// Parses `source` and lists the functions it defines.
    pub fn list_function_names(&self, file_name: &str, module_name: &str, source: &str) -> (r:
        Result<Vec<FunctionInfo>, AmlError>)
        ensures
            r is Ok <==> grammar_loads(Language::Typescript),
            match r {
                Ok(list) => exists|tree: &tree_sitter::Tree|
                    parses(tree, Language::Typescript, source@) && infos_view(list@)
                        == without_values(
                        self.listed(file_name@, module_name@, tree_root(tree), source@),
                    ),
                Err(e) => is_parse_failure(e, Language::Typescript),
            },
            r matches Ok(list) ==> uniform(infos_view(list@), false) && all_well_ranged(
                infos_view(list@),
            ),
    {
        let list = self.list_definitions(file_name, module_name, source)?;
        Ok(into_infos(list))
    }
}

/// The view of a place that may be absent.
pub open spec fn place_view(place: Option<&str>) -> Option<Seq<char>> {
    match place {
        Some(p) => Some(p@),
        None => None,
    }
}

/// The capture indices of the query for imports.
#[derive(Clone, Copy, Debug)]
pub struct Imports {
    pub named: u32,
    pub prefixed: u32,
    pub real_name: u32,
    pub source: u32,
}

/// The imports of a file as contracts see them: the places of the
/// namespaces by alias, and for each imported name what it stands for and
/// where that comes from.
pub struct ImportsView {
    pub namespaces: Map<Seq<char>, Seq<char>>,
    pub names: Map<Seq<char>, (Seq<char>, Seq<char>)>,
}

/// The place that the source captured by a match stands for, seen from
/// `location`. A source that is not captured or cannot be read is a failure.
pub open spec fn import_place(
    captures: Seq<Capture>,
    indices: Imports,
    location: Option<Seq<char>>,
    source: Seq<char>,
) -> Option<Seq<char>> {
    match captured_text(captures, indices.source, source) {
        Some(Some(text)) => Some(canonical(text, location)),
        _ => None,
    }
}

/// The imports after the namespace import of a match was noted: a match
/// with a namespace alias adds the alias with the place of its source. A
/// match whose alias or source cannot be read adds nothing.
pub open spec fn with_namespace_of(
    before: ImportsView,
    captures: Seq<Capture>,
    indices: Imports,
    location: Option<Seq<char>>,
    source: Seq<char>,
) -> ImportsView {
    match (
        captured_text(captures, indices.prefixed, source),
        import_place(captures, indices, location, source),
    ) {
        (Some(Some(prefix)), Some(place)) => ImportsView {
            namespaces: before.namespaces.insert(prefix, place),
            ..before
        },
        _ => before,
    }
}

/// The name that an imported name stands for: the name that the match gives
/// as the real one, or else the imported name itself. A real name that
/// cannot be read gives nothing.
pub open spec fn name_in_source(
    captures: Seq<Capture>,
    indices: Imports,
    source: Seq<char>,
    name: Seq<char>,
) -> Option<Seq<char>> {
    match captured_text(captures, indices.real_name, source) {
        None => Some(name),
        Some(text) => text,
    }
}

/// The imports after the named import of a match was noted: a match with an
/// imported name adds the name, standing for its name in the source, with
/// the place of its source. A match of which a text cannot be read adds
/// nothing.
pub open spec fn with_name_of(
    before: ImportsView,
    captures: Seq<Capture>,
    indices: Imports,
    location: Option<Seq<char>>,
    source: Seq<char>,
) -> ImportsView {
    match (
        captured_text(captures, indices.named, source),
        import_place(captures, indices, location, source),
    ) {
        (Some(Some(name)), Some(place)) => match name_in_source(captures, indices, source, name) {
            Some(origin) => ImportsView {
                names: before.names.insert(name, (origin, place)),
                ..before
            },
            None => before,
        },
        _ => before,
    }
}

/// The imports that the matches `found` give, one match after the other.
pub open spec fn imports_of(
    found: Seq<Seq<Capture>>,
    indices: Imports,
    location: Option<Seq<char>>,
    source: Seq<char>,
) -> ImportsView
    decreases found.len(),
{
    if found.len() == 0 {
        ImportsView { namespaces: Map::empty(), names: Map::empty() }
    } else {
        with_name_of(
            with_namespace_of(
                imports_of(found.drop_last(), indices, location, source),
                found.last(),
                indices,
                location,
                source,
            ),
            found.last(),
            indices,
            location,
            source,
        )
    }
}

/// What an import map holds.
pub open spec fn imports_view(map: ImportsMap) -> ImportsView {
    ImportsView { namespaces: map.namespaces(), names: map.names() }
}

/// Reads the text of a capture that may be absent.
fn read_captured(captures: &Vec<Capture>, index: u32, source: &str) -> (text: Option<
    Option<String>,
>)
    ensures
        match text {
            None => captured_text(captures@, index, source@) is None,
            Some(None) => captured_text(captures@, index, source@) == Some(None::<Seq<char>>),
            Some(Some(t)) => captured_text(captures@, index, source@) == Some(Some(t@)),
        },
{
    match first_node(captures, index) {
        None => None,
        Some(node) => Some(text_of(node, source)),
    }
}

/// Reads the place that the source captured by a match stands for.
fn read_place(
    captures: &Vec<Capture>,
    indices: Imports,
    location: Option<&str>,
    source: &str,
) -> (place: Option<CanonicalSource>)
    ensures
        match place {
            Some(p) => import_place(captures@, indices, place_view(location), source@) == Some(p@),
            None => import_place(captures@, indices, place_view(location), source@) is None,
        },
{
    match read_captured(captures, indices.source, source) {
        Some(Some(text)) => Some(Source::new(text.as_str()).into_canonical(location)),
        _ => None,
    }
}

/// The query for the imports of a TypeScript source.
#[derive(Debug)]
pub struct ImportsMapQuery {
    query: tree_sitter::Query,
    indices: Imports,
}

/// The capture names that the query for imports must have.
pub open spec fn imports_names() -> Seq<(Seq<char>, Seq<char>)> {
    seq![
        (IMPORTS_IDENT_NAME_CAPTURE@, IMPORTS_IDENT_NAME_CAPTURE@),
        (IMPORTS_PREFIX_CAPTURE@, IMPORTS_PREFIX_CAPTURE@),
        (IMPORTS_REAL_NAME_CAPTURE@, IMPORTS_REAL_NAME_CAPTURE@),
        (IMPORTS_SOURCE_CAPTURE@, IMPORTS_SOURCE_CAPTURE@),
    ]
}

impl ImportsMapQuery {
    /// The compiled query.
    pub closed spec fn compiled(&self) -> tree_sitter::Query {
        self.query
    }

    /// The capture indices that the analysis reads.
    pub closed spec fn indices(&self) -> Imports {
        self.indices
    }

    /// Takes a compiled query and looks up the capture names in it.
    pub fn with_query(query: tree_sitter::Query) -> (r: Result<ImportsMapQuery, AmlError>)
        ensures
            match r {
                Ok(q) => q.compiled() == query && names_found(
                    query,
                    imports_names(),
                    seq![
                        q.indices().named,
                        q.indices().prefixed,
                        q.indices().real_name,
                        q.indices().source,
                    ],
                ),
                Err(e) => name_missing(query, imports_names(), e),
            },
    {
        let names = vec![
            (IMPORTS_IDENT_NAME_CAPTURE, IMPORTS_IDENT_NAME_CAPTURE),
            (IMPORTS_PREFIX_CAPTURE, IMPORTS_PREFIX_CAPTURE),
            (IMPORTS_REAL_NAME_CAPTURE, IMPORTS_REAL_NAME_CAPTURE),
            (IMPORTS_SOURCE_CAPTURE, IMPORTS_SOURCE_CAPTURE),
        ];
        assert(names_view(names@) == imports_names());
        let found = capture_indices(&query, &names)?;
        let indices = Imports {
            named: found[0],
            prefixed: found[1],
            real_name: found[2],
            source: found[3],
        };
        assert(found@ == seq![indices.named, indices.prefixed, indices.real_name, indices.source]);
        Ok(ImportsMapQuery { query, indices })
    }

    /// Whether this is the query for imports, read by the indices that its text has for
    /// the capture names.
    pub open spec fn reads(&self) -> bool {
        compiled_from(self.compiled(), Language::Typescript, IMPORTS_QUERY@) && names_found(
            self.compiled(),
            imports_names(),
            seq![self.indices().named, self.indices().prefixed, self.indices().real_name, self.indices().source],
        )
    }

    /// Compiles the query. It is built exactly when its text is a query
    /// that has the capture names of the analysis, and is then read by the
    /// indices of the names in it. Where it is not built, the error tells
    /// why: the text is no query, or the first of the names that is missing.
    pub fn try_new() -> (r: Result<ImportsMapQuery, AmlError>)
        ensures
            r is Ok <==> query_loads(Language::Typescript, IMPORTS_QUERY@, imports_names()),
            match r {
                Ok(q) => q.reads(),
                Err(e) => is_query_failure(e, Language::Typescript, IMPORTS_QUERY@, imports_names()),
            },
    {
        let query = new_query(Language::Typescript, IMPORTS_QUERY)?;
        ImportsMapQuery::with_query(query)
    }

    /// The imports under `root`, a node of the tree parsed from `source`,
    /// seen from the directory `file_path`.
    pub fn list_imports_under(&self, file_path: Option<&str>, root: tree_sitter::Node, source: &str)
        -> (map: ImportsMap)
        ensures
            imports_view(map) == imports_of(
                query_matches(self.compiled(), root, source@),
                self.indices(),
                place_view(file_path),
                source@,
            ),
    {
        let found = run_query(&self.query, root, source);
        let ghost all = query_matches(self.query, root, source@);
        let ghost location = place_view(file_path);
        let mut map = ImportsMap::new();
        let mut i: usize = 0;
        assert(all.take(0) == Seq::<Seq<Capture>>::empty());
        while i < found.len()
            invariant
                i <= found.len(),
                all.len() == found.len(),
                matches_view(found@) == all,
                location == place_view(file_path),
                imports_view(map) == imports_of(all.take(i as int), self.indices, location, source@),
            decreases found.len() - i,
        {
            let captures = &found[i];
            let ghost before = imports_view(map);
            proof {
                assert(all[i as int] == captures@);
                assert(all.take(i as int + 1).drop_last() == all.take(i as int));
                assert(all.take(i as int + 1).last() == all[i as int]);
            }
            match (
                read_captured(captures, self.indices.prefixed, source),
                read_place(captures, self.indices, file_path, source),
            ) {
                (Some(Some(prefix)), Some(place)) => {
                    map.add_namespace(Identifier::new(prefix.as_str()), place);
                },
                _ => {},
            }
            assert(imports_view(map) == with_namespace_of(
                before,
                captures@,
                self.indices,
                location,
                source@,
            ));
            let ghost between = imports_view(map);
            match (
                read_captured(captures, self.indices.named, source),
                read_place(captures, self.indices, file_path, source),
            ) {
                (Some(Some(name)), Some(place)) => {
                    match read_captured(captures, self.indices.real_name, source) {
                        None => {
                            map.add_named_import(Identifier::new(name.as_str()), place);
                        },
                        Some(Some(origin)) => {
                            map.add_aliased_import(
                                Identifier::new(name.as_str()),
                                Identifier::new(origin.as_str()),
                                place,
                            );
                        },
                        Some(None) => {},
                    }
                },
                _ => {},
            }
            assert(imports_view(map) == with_name_of(
                between,
                captures@,
                self.indices,
                location,
                source@,
            ));
            i += 1;
        }
        assert(all.take(found.len() as int) == all);
        map
    }

    /// Parses `source` and gives its imports, seen from the directory
    /// `file_path`.
    pub fn list_imports(&self, file_path: Option<&str>, source: &str) -> (r: Result<
        ImportsMap,
        AmlError,
    >)
        ensures
            r is Ok <==> grammar_loads(Language::Typescript),
            match r {
                Ok(map) => exists|tree: &tree_sitter::Tree|
                    parses(tree, Language::Typescript, source@) && imports_view(map)
                        == imports_of(
                        query_matches(self.compiled(), tree_root(tree), source@),
                        self.indices(),
                        place_view(file_path),
                        source@,
                    ),
                Err(e) => is_parse_failure(e, Language::Typescript),
            },
    {
        let tree = parse(Language::Typescript, source)?;
        Ok(self.list_imports_under(file_path, root_of(&tree), source))
    }
}

/// What a match of a wrapper call with the function as only argument
/// gives: the function under the name and place that its imports resolve it
/// to, or else under its own name in `module`, wrapped at the place of the
/// argument.
pub open spec fn direct_call_outcome(
    captures: Seq<Capture>,
    function: u32,
    file: Seq<char>,
    module: Seq<char>,
    source: Seq<char>,
    imports: ImportsView,
) -> Option<FunctionInfoView> {
    match first_capture(captures, function) {
        None => None,
        Some(node) => match node_text(node, source) {
            None => None,
            Some(name) => match resolved(imports.namespaces, imports.names, name) {
                Some((origin, place)) => Some(
                    wrapped_view(place, origin, file, node_start(node), node_end(node)),
                ),
                None => Some(wrapped_view(module, name, file, node_start(node), node_end(node))),
            },
        },
    }
}

/// What a match of a wrapper call with options gives: the function under
/// the module and the name that the options give, wrapped at the place of
/// the name.
pub open spec fn call_outcome(
    captures: Seq<Capture>,
    function: u32,
    module: u32,
    file: Seq<char>,
    source: Seq<char>,
) -> Option<FunctionInfoView> {
    match (first_capture(captures, module), first_capture(captures, function)) {
        (Some(module_node), Some(node)) => match (
            node_text(module_node, source),
            node_text(node, source),
        ) {
            (Some(module_name), Some(name)) => Some(
                wrapped_view(module_name, name, file, node_start(node), node_end(node)),
            ),
            _ => None,
        },
        _ => None,
    }
}

/// The text of the query for calls of the wrapper called `wrapper` with the
/// function as only argument.
pub open spec fn direct_call_text(wrapper: Seq<char>) -> Seq<char> {
    WRAPPER_DIRECT_CALL_HEAD@ + wrapper + WRAPPER_TAIL@
}

/// The text of the query for calls of the wrapper called `wrapper` with
/// options.
pub open spec fn call_text(wrapper: Seq<char>) -> Seq<char> {
    WRAPPER_CALL_HEAD@ + wrapper + WRAPPER_TAIL@
}

/// The query for the functions that are the only argument of a call of the
/// wrapper.
#[derive(Debug)]
pub struct AmWrapperDirectSubquery {
    query: tree_sitter::Query,
    wrapper_name: String,
    func_name_idx: u32,
}

/// The capture name that a query for wrapped functions must have.
pub open spec fn function_name() -> Seq<(Seq<char>, Seq<char>)> {
    seq![(FUNC_NAME_CAPTURE@, FUNC_NAME_CAPTURE@)]
}

impl AmWrapperDirectSubquery {
    /// The compiled query.
    pub closed spec fn compiled(&self) -> tree_sitter::Query {
        self.query
    }

    /// The name of the wrapper that the query looks for.
    pub closed spec fn wrapper(&self) -> Seq<char> {
        self.wrapper_name@
    }

    /// The index of the capture of a function's name.
    pub closed spec fn function_index(&self) -> u32 {
        self.func_name_idx
    }

    /// What the query lists under `root`.
    pub open spec fn listed(
        &self,
        file: Seq<char>,
        module: Seq<char>,
        root: tree_sitter::Node,
        source: Seq<char>,
        imports: ImportsView,
    ) -> Seq<FunctionInfoView> {
        kept(
            query_matches(self.compiled(), root, source).map_values(
                |captures: Seq<Capture>|
                    direct_call_outcome(
                        captures,
                        self.function_index(),
                        file,
                        module,
                        source,
                        imports,
                    ),
            ),
        )
    }

    /// Takes a compiled query and looks up the capture name in it.
    pub fn with_query(query: tree_sitter::Query, wrapper_name: String) -> (r: Result<
        AmWrapperDirectSubquery,
        AmlError,
    >)
        ensures
            match r {
                Ok(q) => q.compiled() == query && q.wrapper() == wrapper_name@ && names_found(
                    query,
                    function_name(),
                    seq![q.function_index()],
                ),
                Err(e) => name_missing(query, function_name(), e),
            },
    {
        let names = vec![(FUNC_NAME_CAPTURE, FUNC_NAME_CAPTURE)];
        assert(names_view(names@) == function_name());
        let found = capture_indices(&query, &names)?;
        let func_name_idx = found[0];
        assert(found@ == seq![func_name_idx]);
        Ok(AmWrapperDirectSubquery { query, wrapper_name, func_name_idx })
    }

    /// Whether this is the query for the calls of the wrapper called
    /// `wrapper`, read by the index that its text has for the capture name.
    pub open spec fn reads(&self, wrapper: Seq<char>) -> bool {
        &&& self.wrapper() == wrapper
        &&& compiled_from(self.compiled(), Language::Typescript, direct_call_text(wrapper))
        &&& names_found(self.compiled(), function_name(), seq![self.function_index()])
    }

    /// Compiles the query for the wrapper called `wrapper_name`. It is
    /// built exactly when its text is a query that has the capture names of
    /// the analysis, and is then read by the indices of the names in it.
    /// Where it is not built, the error tells why: the text is no query, or
    /// the first of the names that is missing.
    pub fn try_new(wrapper_name: String) -> (r: Result<AmWrapperDirectSubquery, AmlError>)
        ensures
            r is Ok <==> query_loads(
                Language::Typescript,
                direct_call_text(wrapper_name@),
                function_name(),
            ),
            match r {
                Ok(q) => q.reads(wrapper_name@),
                Err(e) => is_query_failure(
                    e,
                    Language::Typescript,
                    direct_call_text(wrapper_name@),
                    function_name(),
                ),
            },
    {
        let text = WRAPPER_DIRECT_CALL_HEAD.to_owned().concat(wrapper_name.as_str()).concat(
            WRAPPER_TAIL,
        );
        let query = new_query(Language::Typescript, text.as_str())?;
        AmWrapperDirectSubquery::with_query(query, wrapper_name)
    }

    /// Lists the functions that are wrapped under `root`, a node of the tree
    /// parsed from `source`.
    pub fn list_function_names_under(
        &self,
        file_name: &str,
        module_name: &str,
        root: tree_sitter::Node,
        source: &str,
        imports_map: &ImportsMap,
    ) -> (list: Vec<FunctionInfo>)
        ensures
            infos_view(list@) == self.listed(
                file_name@,
                module_name@,
                root,
                source@,
                imports_view(*imports_map),
            ),
            all_well_ranged(infos_view(list@)),
    {
        let found = run_query(&self.query, root, source);
        let ghost all = query_matches(self.query, root, source@);
        let ghost imports = imports_view(*imports_map);
        let ghost items = all.map_values(
            |captures: Seq<Capture>|
                direct_call_outcome(
                    captures,
                    self.func_name_idx,
                    file_name@,
                    module_name@,
                    source@,
                    imports,
                ),
        );
        let mut list: Vec<FunctionInfo> = Vec::new();
        let mut i: usize = 0;
        assert(items.take(0) == Seq::<Option<FunctionInfoView>>::empty());
        assert(infos_view(list@) == Seq::<FunctionInfoView>::empty());
        while i < found.len()
            invariant
                i <= found.len(),
                all.len() == found.len(),
                matches_view(found@) == all,
                imports == imports_view(*imports_map),
                items == all.map_values(
                    |captures: Seq<Capture>|
                        direct_call_outcome(
                            captures,
                            self.func_name_idx,
                            file_name@,
                            module_name@,
                            source@,
                            imports,
                        ),
                ),
                infos_view(list@) == kept(items.take(i as int)),
                all_well_ranged(infos_view(list@)),
            decreases found.len() - i,
        {
            proof {
                assert(all[i as int] == found@[i as int]@);
                assert(items.take(i as int + 1).drop_last() == items.take(i as int));
                assert(items.take(i as int + 1).last() == items[i as int]);
            }
            match first_node(&found[i], self.func_name_idx) {
                Some(node) => match text_of(node, source) {
                    Some(name) => {
                        let info = match imports_map.resolve_ident(
                            Identifier::new(name.as_str()),
                        ) {
                            Some((origin, place)) => wrapped(
                                place.to_string().as_str(),
                                origin.to_string().as_str(),
                                file_name,
                                start_of(node),
                                end_of(node),
                            ),
                            None => wrapped(
                                module_name,
                                name.as_str(),
                                file_name,
                                start_of(node),
                                end_of(node),
                            ),
                        };
                        let ghost before = list@;
                        list.push(info);
                        assert(infos_view(list@) == infos_view(before).push(info@));
                    },
                    None => {},
                },
                None => {},
            }
            i += 1;
        }
        assert(items.take(found.len() as int) == items);
        list
    }

    /// Parses `source` and lists the functions that are wrapped in it: what
    /// the query lists under the root of a parse of the source. The listing
    /// fails exactly when the parser does not accept the grammar.
    pub fn list_function_names(
        &self,
        file_name: &str,
        module_name: &str,
        source: &str,
        imports_map: ImportsMap,
    ) -> (r: Result<Vec<FunctionInfo>, AmlError>)
        ensures
            r is Ok <==> grammar_loads(Language::Typescript),
            match r {
                Ok(list) => exists|tree: &tree_sitter::Tree|
                    parses(tree, Language::Typescript, source@) && infos_view(list@)
                        == self.listed(
                        file_name@,
                        module_name@,
                        tree_root(tree),
                        source@,
                        imports_view(imports_map),
                    ),
                Err(e) => is_parse_failure(e, Language::Typescript),
            },
            r matches Ok(list) ==> all_well_ranged(infos_view(list@)),
    {
        let tree = parse(Language::Typescript, source)?;
        Ok(
            self.list_function_names_under(
                file_name,
                module_name,
                root_of(&tree),
                source,
                &imports_map,
            ),
        )
    }
}

/// The query for the functions that a call of the wrapper names in its
/// options.
#[derive(Debug)]
pub struct AmWrapperSubquery {
    query: tree_sitter::Query,
    wrapper_name: String,
    func_name_idx: u32,
    module_name_idx: u32,
}

/// The capture names that the query for wrapper calls with options must
/// have.
pub open spec fn call_names() -> Seq<(Seq<char>, Seq<char>)> {
    seq![
        (FUNC_NAME_CAPTURE@, FUNC_NAME_CAPTURE@),
        (WRAPPER_ARGS_MODULE_CAPTURE@, WRAPPER_ARGS_MODULE_CAPTURE@),
    ]
}

impl AmWrapperSubquery {
    /// The compiled query.
    pub closed spec fn compiled(&self) -> tree_sitter::Query {
        self.query
    }

    /// The name of the wrapper that the query looks for.
    pub closed spec fn wrapper(&self) -> Seq<char> {
        self.wrapper_name@
    }

    /// The index of the capture of a function's name.
    pub closed spec fn function_index(&self) -> u32 {
        self.func_name_idx
    }

    /// The index of the capture of a module's name.
    pub closed spec fn module_index(&self) -> u32 {
        self.module_name_idx
    }

    /// What the query lists under `root`.
    pub open spec fn listed(&self, file: Seq<char>, root: tree_sitter::Node, source: Seq<char>)
        -> Seq<FunctionInfoView> {
        kept(
            query_matches(self.compiled(), root, source).map_values(
                |captures: Seq<Capture>|
                    call_outcome(
                        captures,
                        self.function_index(),
                        self.module_index(),
                        file,
                        source,
                    ),
            ),
        )
    }

    /// Takes a compiled query and looks up the capture names in it.
    pub fn with_query(query: tree_sitter::Query, wrapper_name: String) -> (r: Result<
        AmWrapperSubquery,
        AmlError,
    >)
        ensures
            match r {
                Ok(q) => q.compiled() == query && q.wrapper() == wrapper_name@ && names_found(
                    query,
                    call_names(),
                    seq![q.function_index(), q.module_index()],
                ),
                Err(e) => name_missing(query, call_names(), e),
            },
    {
        let names = vec![
            (FUNC_NAME_CAPTURE, FUNC_NAME_CAPTURE),
            (WRAPPER_ARGS_MODULE_CAPTURE, WRAPPER_ARGS_MODULE_CAPTURE),
        ];
        assert(names_view(names@) == call_names());
        let found = capture_indices(&query, &names)?;
        let func_name_idx = found[0];
        let module_name_idx = found[1];
        assert(found@ == seq![func_name_idx, module_name_idx]);
        Ok(AmWrapperSubquery { query, wrapper_name, func_name_idx, module_name_idx })
    }

    /// Whether this is the query for the calls of the wrapper called
    /// `wrapper`, read by the indices that its text has for the capture
    /// names.
    pub open spec fn reads(&self, wrapper: Seq<char>) -> bool {
        &&& self.wrapper() == wrapper
        &&& compiled_from(self.compiled(), Language::Typescript, call_text(wrapper))
        &&& names_found(
            self.compiled(),
            call_names(),
            seq![self.function_index(), self.module_index()],
        )
    }

    /// Compiles the query for the wrapper called `wrapper_name`. It is
    /// built exactly when its text is a query that has the capture names of
    /// the analysis, and is then read by the indices of the names in it.
    /// Where it is not built, the error tells why: the text is no query, or
    /// the first of the names that is missing.
    pub fn try_new(wrapper_name: String) -> (r: Result<AmWrapperSubquery, AmlError>)
        ensures
            r is Ok <==> query_loads(Language::Typescript, call_text(wrapper_name@), call_names()),
            match r {
                Ok(q) => q.reads(wrapper_name@),
                Err(e) => is_query_failure(
                    e,
                    Language::Typescript,
                    call_text(wrapper_name@),
                    call_names(),
                ),
            },
    {
        let text = WRAPPER_CALL_HEAD.to_owned().concat(wrapper_name.as_str()).concat(WRAPPER_TAIL);
        let query = new_query(Language::Typescript, text.as_str())?;
        AmWrapperSubquery::with_query(query, wrapper_name)
    }

    /// Lists the functions that wrapper calls name under `root`, a node of
    /// the tree parsed from `source`.
    pub fn list_function_names_under(
        &self,
        file_name: &str,
        root: tree_sitter::Node,
        source: &str,
    ) -> (list: Vec<FunctionInfo>)
        ensures
            infos_view(list@) == self.listed(file_name@, root, source@),
            all_well_ranged(infos_view(list@)),
    {
        let found = run_query(&self.query, root, source);
        let ghost all = query_matches(self.query, root, source@);
        let ghost items = all.map_values(
            |captures: Seq<Capture>|
                call_outcome(captures, self.func_name_idx, self.module_name_idx, file_name@, source@),
        );
        let mut list: Vec<FunctionInfo> = Vec::new();
        let mut i: usize = 0;
        assert(items.take(0) == Seq::<Option<FunctionInfoView>>::empty());
        assert(infos_view(list@) == Seq::<FunctionInfoView>::empty());
        while i < found.len()
            invariant
                i <= found.len(),
                all.len() == found.len(),
                matches_view(found@) == all,
                items == all.map_values(
                    |captures: Seq<Capture>|
                        call_outcome(
                            captures,
                            self.func_name_idx,
                            self.module_name_idx,
                            file_name@,
                            source@,
                        ),
                ),
                infos_view(list@) == kept(items.take(i as int)),
                all_well_ranged(infos_view(list@)),
            decreases found.len() - i,
        {
            proof {
                assert(all[i as int] == found@[i as int]@);
                assert(items.take(i as int + 1).drop_last() == items.take(i as int));
                assert(items.take(i as int + 1).last() == items[i as int]);
            }
            let captures = &found[i];
            match (
                first_node(captures, self.module_name_idx),
                first_node(captures, self.func_name_idx),
            ) {
                (Some(module_node), Some(node)) => match (
                    text_of(module_node, source),
                    text_of(node, source),
                ) {
                    (Some(module_name), Some(name)) => {
                        let info = wrapped(
                            module_name.as_str(),
                            name.as_str(),
                            file_name,
                            start_of(node),
                            end_of(node),
                        );
                        let ghost before = list@;
                        list.push(info);
                        assert(infos_view(list@) == infos_view(before).push(info@));
                    },
                    _ => {},
                },
                _ => {},
            }
            i += 1;
        }
        assert(items.take(found.len() as int) == items);
        list
    }

    /// Parses `source` and lists the functions that wrapper calls name in
    /// it: what the query lists under the root of a parse of the source.
    /// The listing fails exactly when the parser does not accept the
    /// grammar.
    pub fn list_function_names(&self, file_name: &str, source: &str) -> (r: Result<
        Vec<FunctionInfo>,
        AmlError,
    >)
        ensures
            r is Ok <==> grammar_loads(Language::Typescript),
            match r {
                Ok(list) => exists|tree: &tree_sitter::Tree|
                    parses(tree, Language::Typescript, source@) && infos_view(list@)
                        == self.listed(file_name@, tree_root(tree), source@),
                Err(e) => is_parse_failure(e, Language::Typescript),
            },
            r matches Ok(list) ==> all_well_ranged(infos_view(list@)),
    {
        let tree = parse(Language::Typescript, source)?;
        Ok(self.list_function_names_under(file_name, root_of(&tree), source))
    }
}

/// The capture indices of the query for instrumented functions.
#[derive(Clone, Copy, Debug)]
pub struct Marks {
    pub class: u32,
    pub method: u32,
    pub wrapper_direct: u32,
    pub wrapper: u32,
}

/// The name under which the matches `found` show the wrapper to be
/// imported: the text of the first node captured under `index` that can be
/// read.
pub open spec fn wrapper_name_of(found: Seq<Seq<Capture>>, index: u32, source: Seq<char>)
    -> Option<Seq<char>>
    decreases found.len(),
{
    if found.len() == 0 {
        None
    } else {
        match captured_text(found[0], index, source) {
            Some(Some(name)) => Some(name),
            _ => wrapper_name_of(found.skip(1), index, source),
        }
    }
}

/// Finds the name under which the wrapper is imported.
fn find_wrapper_name(found: &Vec<Vec<Capture>>, index: u32, source: &str) -> (name: Option<
    String,
>)
    ensures
        match name {
            Some(n) => wrapper_name_of(matches_view(found@), index, source@) == Some(n@),
            None => wrapper_name_of(matches_view(found@), index, source@) is None,
        },
{
    let ghost all = matches_view(found@);
    let mut i: usize = 0;
    assert(all.skip(0) == all);
    while i < found.len()
        invariant
            i <= found.len(),
            all == matches_view(found@),
            wrapper_name_of(all, index, source@) == wrapper_name_of(
                all.skip(i as int),
                index,
                source@,
            ),
        decreases found.len() - i,
    {
        assert(all.skip(i as int)[0] == found@[i as int]@);
        assert(all.skip(i as int).skip(1) == all.skip(i as int + 1));
        match read_captured(&found[i], index, source) {
            Some(Some(name)) => {
                return Some(name);
            },
            _ => {},
        }
        i += 1;
    }
    None
}

/// The query for the instrumented functions of a TypeScript source.
#[derive(Debug)]
pub struct AmQuery {
    query: tree_sitter::Query,
    marks: Marks,
}

/// The capture names that the query for instrumented functions must have.
pub open spec fn am_names() -> Seq<(Seq<char>, Seq<char>)> {
    seq![
        (TYPE_NAME_CAPTURE@, TYPE_NAME_CAPTURE@),
        (METHOD_NAME_CAPTURE@, METHOD_NAME_CAPTURE@),
        (WRAPPER_DIRECT_NAME_CAPTURE@, WRAPPER_DIRECT_NAME_CAPTURE@),
        (WRAPPER_NAME_CAPTURE@, WRAPPER_NAME_CAPTURE@),
    ]
}

impl AmQuery {
    /// The compiled query.
    pub closed spec fn compiled(&self) -> tree_sitter::Query {
        self.query
    }

    /// The capture indices that the analysis reads.
    pub closed spec fn marks(&self) -> Marks {
        self.marks
    }

    /// The methods of decorated classes that the query lists under `root`.
    pub open spec fn listed_methods(
        &self,
        file: Seq<char>,
        module: Seq<char>,
        root: tree_sitter::Node,
        source: Seq<char>,
    ) -> Seq<FunctionInfoView> {
        without_values(
            present(
                query_matches(self.compiled(), root, source).map_values(
                    |captures: Seq<Capture>|
                        method_outcome(
                            captures,
                            self.marks().class,
                            self.marks().method,
                            file,
                            module,
                            source,
                            true,
                        ),
                ),
            ),
        )
    }

    /// The name under which the source imports the wrapper, for calls with
    /// the function as only argument.
    pub open spec fn direct_wrapper(&self, root: tree_sitter::Node, source: Seq<char>) -> Option<
        Seq<char>,
    > {
        wrapper_name_of(
            query_matches(self.compiled(), root, source),
            self.marks().wrapper_direct,
            source,
        )
    }

    /// The name under which the source imports the wrapper, for calls with
    /// options.
    pub open spec fn wrapper(&self, root: tree_sitter::Node, source: Seq<char>) -> Option<
        Seq<char>,
    > {
        wrapper_name_of(query_matches(self.compiled(), root, source), self.marks().wrapper, source)
    }

    /// Takes a compiled query and looks up the capture names in it.
    pub fn with_query(query: tree_sitter::Query) -> (r: Result<AmQuery, AmlError>)
        ensures
            match r {
                Ok(q) => q.compiled() == query && names_found(
                    query,
                    am_names(),
                    seq![
                        q.marks().class,
                        q.marks().method,
                        q.marks().wrapper_direct,
                        q.marks().wrapper,
                    ],
                ),
                Err(e) => name_missing(query, am_names(), e),
            },
    {
        let names = vec![
            (TYPE_NAME_CAPTURE, TYPE_NAME_CAPTURE),
            (METHOD_NAME_CAPTURE, METHOD_NAME_CAPTURE),
            (WRAPPER_DIRECT_NAME_CAPTURE, WRAPPER_DIRECT_NAME_CAPTURE),
            (WRAPPER_NAME_CAPTURE, WRAPPER_NAME_CAPTURE),
        ];
        assert(names_view(names@) == am_names());
        let found = capture_indices(&query, &names)?;
        let marks = Marks {
            class: found[0],
            method: found[1],
            wrapper_direct: found[2],
            wrapper: found[3],
        };
        assert(found@ == seq![marks.class, marks.method, marks.wrapper_direct, marks.wrapper]);
        Ok(AmQuery { query, marks })
    }

    /// Whether this is the query for instrumented functions, read by the indices that its text has for
    /// the capture names.
    pub open spec fn reads(&self) -> bool {
        compiled_from(self.compiled(), Language::Typescript, AM_QUERY@) && names_found(
            self.compiled(),
            am_names(),
            seq![self.marks().class, self.marks().method, self.marks().wrapper_direct, self.marks().wrapper],
        )
    }

    /// Compiles the query. It is built exactly when its text is a query
    /// that has the capture names of the analysis, and is then read by the
    /// indices of the names in it. Where it is not built, the error tells
    /// why: the text is no query, or the first of the names that is missing.
    pub fn try_new() -> (r: Result<AmQuery, AmlError>)
        ensures
            r is Ok <==> query_loads(Language::Typescript, AM_QUERY@, am_names()),
            match r {
                Ok(q) => q.reads(),
                Err(e) => is_query_failure(e, Language::Typescript, AM_QUERY@, am_names()),
            },
    {
        let query = new_query(Language::Typescript, AM_QUERY)?;
        AmQuery::with_query(query)
    }

    /// The name under which the source imports the wrapper, for calls with
    /// the function as only argument.
    pub fn wrapper_direct_name_under(&self, root: tree_sitter::Node, source: &str) -> (name:
        Option<String>)
        ensures
            match name {
                Some(n) => wrapper_name_of(
                    query_matches(self.compiled(), root, source@),
                    self.marks().wrapper_direct,
                    source@,
                ) == Some(n@),
                None => wrapper_name_of(
                    query_matches(self.compiled(), root, source@),
                    self.marks().wrapper_direct,
                    source@,
                ) is None,
            },
    {
        let found = run_query(&self.query, root, source);
        find_wrapper_name(&found, self.marks.wrapper_direct, source)
    }

    /// The name under which the source imports the wrapper, for calls with
    /// options.
    pub fn wrapper_name_under(&self, root: tree_sitter::Node, source: &str) -> (name: Option<
        String,
    >)
        ensures
            match name {
                Some(n) => wrapper_name_of(
                    query_matches(self.compiled(), root, source@),
                    self.marks().wrapper,
                    source@,
                ) == Some(n@),
                None => wrapper_name_of(
                    query_matches(self.compiled(), root, source@),
                    self.marks().wrapper,
                    source@,
                ) is None,
            },
    {
        let found = run_query(&self.query, root, source);
        find_wrapper_name(&found, self.marks.wrapper, source)
    }

    /// Lists the methods of decorated classes under `root`, a node of the
    /// tree parsed from `source`.
    pub fn list_methods_under(
        &self,
        file_name: &str,
        module_name: &str,
        root: tree_sitter::Node,
        source: &str,
    ) -> (list: Vec<FunctionInfo>)
        ensures
            infos_view(list@) == self.listed_methods(file_name@, module_name@, root, source@),
            all_well_ranged(infos_view(list@)),
    {
        let found = run_query(&self.query, root, source);
        let ghost all = query_matches(self.query, root, source@);
        let ghost items = all.map_values(
            |captures: Seq<Capture>|
                method_outcome(
                    captures,
                    self.marks.class,
                    self.marks.method,
                    file_name@,
                    module_name@,
                    source@,
                    true,
                ),
        );
        let mut list: Vec<TypescriptFunctionInfo> = Vec::new();
        let mut i: usize = 0;
        assert(items.take(0) == Seq::<Option<(FunctionInfoView, Option<Range>)>>::empty());
        assert(valued_view(list@) == Seq::<(FunctionInfoView, Option<Range>)>::empty());
        while i < found.len()
            invariant
                i <= found.len(),
                all.len() == found.len(),
                matches_view(found@) == all,
                items == all.map_values(
                    |captures: Seq<Capture>|
                        method_outcome(
                            captures,
                            self.marks.class,
                            self.marks.method,
                            file_name@,
                            module_name@,
                            source@,
                            true,
                        ),
                ),
                valued_view(list@) == present(items.take(i as int)),
                forall|j: int| 0 <= j < list.len() ==> well_ranged((#[trigger] list@[j])@.0),
            decreases found.len() - i,
        {
            let item = read_method(
                &found[i],
                self.marks.class,
                self.marks.method,
                file_name,
                module_name,
                source,
                true,
            );
            proof {
                assert(all[i as int] == found@[i as int]@);
                assert(items.take(i as int + 1).drop_last() == items.take(i as int));
                assert(items.take(i as int + 1).last() == items[i as int]);
            }
            match item {
                Some(info) => {
                    let ghost before = list@;
                    list.push(info);
                    assert(valued_view(list@) == valued_view(before).push(info@));
                },
                None => {},
            }
            i += 1;
        }
        assert(items.take(found.len() as int) == items);
        into_infos(list)
    }

    /// Whether `list` is a listing of the instrumented functions under
    /// `root`: the methods of decorated classes, then the functions that are
    /// the only argument of a wrapper call, then the functions that wrapper
    /// calls name in their options.
    pub open spec fn lists(
        &self,
        file: Seq<char>,
        module: Seq<char>,
        root: tree_sitter::Node,
        source: Seq<char>,
        imports: ImportsView,
        list: Seq<FunctionInfoView>,
    ) -> bool {
        exists|direct: Seq<FunctionInfoView>, named: Seq<FunctionInfoView>|
            {
                &&& list == self.listed_methods(file, module, root, source) + direct + named
                &&& #[trigger] direct_listing(
                    self.direct_wrapper(root, source),
                    file,
                    module,
                    root,
                    source,
                    imports,
                    direct,
                )
                &&& #[trigger] named_listing(self.wrapper(root, source), file, root, source, named)
            }
    }

    /// Whether the query for the calls of the wrapper with the function as
    /// only argument can be made, where the source under `root` imports the
    /// wrapper for such calls.
    pub open spec fn lists_direct(&self, root: tree_sitter::Node, source: Seq<char>) -> bool {
        match self.direct_wrapper(root, source) {
            Some(name) => query_loads(
                Language::Typescript,
                direct_call_text(name),
                function_name(),
            ),
            None => true,
        }
    }

    /// Whether the query for the calls of the wrapper with options can be
    /// made, where the source under `root` imports the wrapper for such
    /// calls.
    pub open spec fn lists_named(&self, root: tree_sitter::Node, source: Seq<char>) -> bool {
        match self.wrapper(root, source) {
            Some(name) => query_loads(Language::Typescript, call_text(name), call_names()),
            None => true,
        }
    }

    /// Whether the instrumented functions under `root` are listed: the
    /// queries for the calls of the wrapper can be made.
    pub open spec fn lists_under(&self, root: tree_sitter::Node, source: Seq<char>) -> bool {
        self.lists_direct(root, source) && self.lists_named(root, source)
    }

    /// Whether `error` is what a listing under `root` fails with: the error
    /// of the first of the two queries for the calls of the wrapper that
    /// cannot be made.
    pub open spec fn wrapper_failure(
        &self,
        root: tree_sitter::Node,
        source: Seq<char>,
        error: AmlError,
    ) -> bool {
        if !self.lists_direct(root, source) {
            self.direct_wrapper(root, source) matches Some(name) && is_query_failure(
                error,
                Language::Typescript,
                direct_call_text(name),
                function_name(),
            )
        } else {
            self.wrapper(root, source) matches Some(name) && is_query_failure(
                error,
                Language::Typescript,
                call_text(name),
                call_names(),
            )
        }
    }

    /// Whether `list` is a listing of the instrumented functions of a
    /// source: a listing under the root of a parse of the source, with the
    /// imports that the query for imports finds in that parse, seen from
    /// `place`.
    pub open spec fn lists_source(
        &self,
        file: Seq<char>,
        module: Seq<char>,
        source: Seq<char>,
        place: Option<Seq<char>>,
        list: Seq<FunctionInfoView>,
    ) -> bool {
        query_loads(Language::Typescript, IMPORTS_QUERY@, imports_names()) && exists|
            tree: &tree_sitter::Tree,
            imports: ImportsMapQuery,
        |
            {
                &&& parses(tree, Language::Typescript, source)
                &&& imports.reads()
                &&& self.lists_under(tree_root(tree), source)
                &&& #[trigger] self.lists(
                    file,
                    module,
                    tree_root(tree),
                    source,
                    imports_of(
                        query_matches(imports.compiled(), tree_root(tree), source),
                        imports.indices(),
                        place,
                        source,
                    ),
                    list,
                )
            }
    }

    /// Whether `error` is what a listing of a source fails with: that of
    /// the parse where the parser does not accept the grammar, else that of
    /// the query for imports where it cannot be made, else that of a query
    /// for the calls of the wrapper, which cannot be made for a parse of the
    /// source.
    pub open spec fn listing_failure(&self, source: Seq<char>, error: AmlError) -> bool {
        if !grammar_loads(Language::Typescript) {
            is_parse_failure(error, Language::Typescript)
        } else if !query_loads(Language::Typescript, IMPORTS_QUERY@, imports_names()) {
            is_query_failure(error, Language::Typescript, IMPORTS_QUERY@, imports_names())
        } else {
            exists|tree: &tree_sitter::Tree|
                {
                    &&& parses(tree, Language::Typescript, source)
                    &&& !self.lists_under(tree_root(tree), source)
                    &&& #[trigger] self.wrapper_failure(tree_root(tree), source, error)
                }
        }
    }

    /// Lists the instrumented functions under `root`, a node of the tree
    /// parsed from `source`. The queries for the wrapper calls are compiled
    /// for the name under which the source imports the wrapper; without
    /// such an import no wrapped function is listed. The listing fails when
    /// one of these queries cannot be made.
    pub fn list_function_names_under(
        &self,
        file_name: &str,
        module_name: &str,
        root: tree_sitter::Node,
        source: &str,
        imports_map: &ImportsMap,
    ) -> (r: Result<Vec<FunctionInfo>, AmlError>)
        ensures
            r is Ok <==> self.lists_under(root, source@),
            match r {
                Ok(list) => self.lists(
                    file_name@,
                    module_name@,
                    root,
                    source@,
                    imports_view(*imports_map),
                    infos_view(list@),
                ) && all_instrumented(infos_view(list@)) && all_well_ranged(infos_view(list@)),
                Err(e) => self.wrapper_failure(root, source@, e),
            },
    {
        let mut wrapped_list = match self.wrapper_direct_name_under(root, source) {
            None => Vec::new(),
            Some(name) => {
                let subquery = AmWrapperDirectSubquery::try_new(name)?;
                let list = subquery.list_function_names_under(
                    file_name,
                    module_name,
                    root,
                    source,
                    imports_map,
                );
                proof {
                    wrapped_records(
                        query_matches(subquery.query, root, source@).map_values(
                            |captures: Seq<Capture>|
                                direct_call_outcome(
                                    captures,
                                    subquery.func_name_idx,
                                    file_name@,
                                    module_name@,
                                    source@,
                                    imports_view(*imports_map),
                                ),
                        ),
                    );
                }
                list
            },
        };
        let ghost direct = infos_view(wrapped_list@);
        assert(direct_listing(
            self.direct_wrapper(root, source@),
            file_name@,
            module_name@,
            root,
            source@,
            imports_view(*imports_map),
            direct,
        ));
        let named_list = match self.wrapper_name_under(root, source) {
            None => Vec::new(),
            Some(name) => {
                let subquery = AmWrapperSubquery::try_new(name)?;
                let list = subquery.list_function_names_under(file_name, root, source);
                proof {
                    wrapped_records(
                        query_matches(subquery.query, root, source@).map_values(
                            |captures: Seq<Capture>|
                                call_outcome(
                                    captures,
                                    subquery.func_name_idx,
                                    subquery.module_name_idx,
                                    file_name@,
                                    source@,
                                ),
                        ),
                    );
                }
                list
            },
        };
        let ghost named = infos_view(named_list@);
        assert(named_listing(self.wrapper(root, source@), file_name@, root, source@, named));
        let mut list = self.list_methods_under(file_name, module_name, root, source);
        let ghost methods = infos_view(list@);
        let mut named_list = named_list;
        list.append(&mut wrapped_list);
        list.append(&mut named_list);
        assert(infos_view(list@) == methods + direct + named);
        proof {
            let items = query_matches(self.query, root, source@).map_values(
                |captures: Seq<Capture>|
                    method_outcome(
                        captures,
                        self.marks.class,
                        self.marks.method,
                        file_name@,
                        module_name@,
                        source@,
                        true,
                    ),
            );
            method_records(items);
            assert(methods == without_values(present(items)));
            assert forall|i: int| 0 <= i < methods.len() implies (#[trigger] methods[i]).instrumentation
                is Some by {
                assert(methods[i] == present(items)[i].0);
            }
            instrumented_joined(methods, direct);
            instrumented_joined(methods + direct, named);
        }
        Ok(list)
    }

    /// Parses `source`, reads its imports as seen from the directory `path`,
    /// and lists its instrumented functions. Every function listed is
    /// instrumented. The listing fails when the parser does not accept the
    /// grammar or when one of the queries that it needs cannot be made, with
    /// the error of the first of them.
    pub fn list_function_names(
        &self,
        file_name: &str,
        module_name: &str,
        source: &str,
        path: Option<&str>,
    ) -> (r: Result<Vec<FunctionInfo>, AmlError>)
        ensures
            match r {
                Ok(list) => all_instrumented(infos_view(list@)) && all_well_ranged(
                    infos_view(list@),
                ) && self.lists_source(
                    file_name@,
                    module_name@,
                    source@,
                    place_view(path),
                    infos_view(list@),
                ),
                Err(e) => self.listing_failure(source@, e),
            },
    {
        let tree = parse(Language::Typescript, source)?;
        let root = root_of(&tree);
        let imports_query = ImportsMapQuery::try_new()?;
        let imports_map = imports_query.list_imports_under(path, root, source);
        match self.list_function_names_under(file_name, module_name, root, source, &imports_map) {
            Ok(list) => {
                assert(self.lists(
                    file_name@,
                    module_name@,
                    tree_root(&tree),
                    source@,
                    imports_of(
                        query_matches(imports_query.compiled(), tree_root(&tree), source@),
                        imports_query.indices(),
                        place_view(path),
                        source@,
                    ),
                    infos_view(list@),
                ));
                Ok(list)
            },
            Err(e) => {
                assert(self.wrapper_failure(tree_root(&tree), source@, e));
                Err(e)
            },
        }
    }
}

/// Whether `direct` is what the calls of the wrapper with the function as
/// only argument give under `root`: nothing when the source imports no
/// wrapper, else what a query for calls of the wrapper under its name lists.
pub open spec fn direct_listing(
    wrapper: Option<Seq<char>>,
    file: Seq<char>,
    module: Seq<char>,
    root: tree_sitter::Node,
    source: Seq<char>,
    imports: ImportsView,
    direct: Seq<FunctionInfoView>,
) -> bool {
    match wrapper {
        None => direct.len() == 0,
        Some(name) => exists|subquery: AmWrapperDirectSubquery|
            subquery.reads(name) && direct == #[trigger] subquery.listed(
                file,
                module,
                root,
                source,
                imports,
            ),
    }
}

/// Whether `named` is what the calls of the wrapper with options give under
/// `root`: nothing when the source imports no wrapper, else what a query
/// for calls of the wrapper under its name lists.
pub open spec fn named_listing(
    wrapper: Option<Seq<char>>,
    file: Seq<char>,
    root: tree_sitter::Node,
    source: Seq<char>,
    named: Seq<FunctionInfoView>,
) -> bool {
    match wrapper {
        None => named.len() == 0,
        Some(name) => exists|subquery: AmWrapperSubquery|
            subquery.reads(name) && named == #[trigger] subquery.listed(file, root, source),
    }
}

/// Every record that wrapper calls give is instrumented and has no
/// definition.
pub proof fn wrapped_records(items: Seq<Option<FunctionInfoView>>)
    requires
        forall|i: int|
            0 <= i < items.len() ==> (#[trigger] items[i] matches Some(info)
                ==> info.definition is None && info.instrumentation is Some),
    ensures
        forall|i: int|
            0 <= i < kept(items).len() ==> (#[trigger] kept(items)[i]).definition is None && kept(
                items,
            )[i].instrumentation is Some,
    decreases items.len(),
{
    if items.len() > 0 {
        wrapped_records(items.drop_last());
    }
}

/// Every record that the methods of decorated classes give is instrumented.
pub proof fn method_records(items: Seq<Option<(FunctionInfoView, Option<Range>)>>)
    requires
        forall|i: int|
            0 <= i < items.len() ==> (#[trigger] items[i] matches Some(info)
                ==> info.0.instrumentation is Some),
    ensures
        forall|i: int|
            0 <= i < present(items).len() ==> (#[trigger] present(items)[i]).0.instrumentation
                is Some,
    decreases items.len(),
{
    if items.len() > 0 {
        method_records(items.drop_last());
    }
}

/// Whether `listing` is what a file of a project adds to the listing of all
/// functions: what `query` lists under the root of a parse of the file, as
/// functions of the module of the file, and nothing where the file has no
/// parse, the parser not accepting the grammar.
pub open spec fn file_listing(
    query: AllFunctionsQuery,
    file: SourceFile,
    listing: Seq<FunctionInfoView>,
) -> bool {
    if grammar_loads(Language::Typescript) {
        exists|tree: &tree_sitter::Tree|
            parses(tree, Language::Typescript, file.source@) && listing == without_values(
                query.listed(file.file_name@, file.module@, tree_root(tree), file.source@),
            )
    } else {
        listing.len() == 0
    }
}

/// Whether `list` is the listing of all functions of a project by `query`:
/// one record per function, the last of those that the files give for it,
/// file by file.
pub open spec fn project_listing(
    query: AllFunctionsQuery,
    project: Seq<SourceFile>,
    list: Seq<FunctionInfoView>,
) -> bool {
    exists|found: Seq<Seq<FunctionInfoView>>|
        {
            &&& found.len() == project.len()
            &&& forall|k: int|
                0 <= k < found.len() ==> file_listing(query, project[k], #[trigger] found[k])
            &&& list == keyed(flat(found))
        }
}

/// The file name under which the functions of a single source are listed.
pub const SINGLE_FILE: &'static str = "<single file>";

/// The analysis of TypeScript and JavaScript sources.
#[derive(Clone, Copy, Debug, Default)]
pub struct Impl {}

impl Impl {
    /// Lists the functions that one source defines, each with the stretch
    /// of its value where it has one: what the query for all functions
    /// lists under the root of a parse of the source. The listing fails
    /// exactly when the query cannot be made or the parser does not accept
    /// the grammar, with the error of the first of the two.
    pub fn ts_function_definitions_in_single_file(&mut self, source_code: &str) -> (r: Result<
        Vec<TypescriptFunctionInfo>,
        AmlError,
    >)
        ensures
            r is Ok <==> query_loads(Language::Typescript, ALL_FUNCTIONS_QUERY@, all_names())
                && grammar_loads(Language::Typescript),
            match r {
                Ok(list) => uniform(without_values(valued_view(list@)), false) && exists|
                    query: AllFunctionsQuery,
                    tree: &tree_sitter::Tree,
                |
                    {
                        &&& query.reads()
                        &&& parses(tree, Language::Typescript, source_code@)
                        &&& valued_view(list@) == #[trigger] query.listed(
                            SINGLE_FILE@,
                            ""@,
                            tree_root(tree),
                            source_code@,
                        )
                    },
                Err(e) => if query_loads(
                    Language::Typescript,
                    ALL_FUNCTIONS_QUERY@,
                    all_names(),
                ) {
                    is_parse_failure(e, Language::Typescript)
                } else {
                    is_query_failure(e, Language::Typescript, ALL_FUNCTIONS_QUERY@, all_names())
                },
            },
    {
        let query = AllFunctionsQuery::try_new()?;
        query.list_definitions(SINGLE_FILE, "", source_code)
    }
}

/// Whether `listing` is what a file of a project adds to the listing of
/// instrumented functions: a listing of the file by `query`, its imports
/// seen from its path. A file adds nothing where the parser does not accept
/// the grammar, where the query for imports cannot be made, and where a
/// query for the calls of the wrapper cannot be made for a parse of the
/// file.
pub open spec fn instrumented_listing(
    query: AmQuery,
    file: SourceFile,
    listing: Seq<FunctionInfoView>,
) -> bool {
    if grammar_loads(Language::Typescript) && query_loads(
        Language::Typescript,
        IMPORTS_QUERY@,
        imports_names(),
    ) {
        query.lists_source(
            file.file_name@,
            file.module@,
            file.source@,
            Some(file.path@),
            listing,
        ) || (listing.len() == 0 && exists|tree: &tree_sitter::Tree|
            parses(tree, Language::Typescript, file.source@) && !#[trigger] query.lists_under(
                tree_root(tree),
                file.source@,
            ))
    } else {
        listing.len() == 0
    }
}

/// Whether `list` is the listing of the instrumented functions of a
/// project by `query`: one record per function, the last of those that the
/// files give for it, file by file.
pub open spec fn instrumented_project(
    query: AmQuery,
    project: Seq<SourceFile>,
    list: Seq<FunctionInfoView>,
) -> bool {
    exists|found: Seq<Seq<FunctionInfoView>>|
        {
            &&& found.len() == project.len()
            &&& forall|k: int|
                0 <= k < found.len() ==> instrumented_listing(
                    query,
                    project[k],
                    #[trigger] found[k],
                )
            &&& list == keyed(flat(found))
        }
}

impl ListAmFunctions for Impl {
    open spec fn lists_instrumented(project: Seq<SourceFile>) -> bool {
        query_loads(Language::Typescript, AM_QUERY@, am_names())
    }

    open spec fn lists_defined(project: Seq<SourceFile>) -> bool {
        query_loads(Language::Typescript, ALL_FUNCTIONS_QUERY@, all_names())
    }

    open spec fn instrumented_in(project: Seq<SourceFile>, list: Seq<FunctionInfoView>) -> bool {
        exists|query: AmQuery| query.reads() && #[trigger] instrumented_project(query, project, list)
    }

    open spec fn defined_in(project: Seq<SourceFile>, list: Seq<FunctionInfoView>) -> bool {
        exists|query: AllFunctionsQuery|
            query.reads() && #[trigger] project_listing(query, project, list)
    }

    open spec fn instrumented_in_source(source: Seq<char>, list: Seq<FunctionInfoView>) -> bool {
        exists|query: AmQuery|
            query.reads() && #[trigger] query.lists_source(SINGLE_FILE@, ""@, source, None, list)
    }

    open spec fn defined_in_source(source: Seq<char>, list: Seq<FunctionInfoView>) -> bool {
        exists|query: AllFunctionsQuery, tree: &tree_sitter::Tree|
            {
                &&& query.reads()
                &&& parses(tree, Language::Typescript, source)
                &&& list == without_values(
                    #[trigger] query.listed(SINGLE_FILE@, ""@, tree_root(tree), source),
                )
            }
    }

    open spec fn instrumented_in_failure(project: Seq<SourceFile>, error: AmlError) -> bool {
        is_query_failure(error, Language::Typescript, AM_QUERY@, am_names())
    }

    open spec fn defined_in_failure(project: Seq<SourceFile>, error: AmlError) -> bool {
        is_query_failure(error, Language::Typescript, ALL_FUNCTIONS_QUERY@, all_names())
    }

    open spec fn instrumented_failure(source: Seq<char>, error: AmlError) -> bool {
        if query_loads(Language::Typescript, AM_QUERY@, am_names()) {
            exists|query: AmQuery| query.reads() && #[trigger] query.listing_failure(source, error)
        } else {
            is_query_failure(error, Language::Typescript, AM_QUERY@, am_names())
        }
    }

    open spec fn defined_failure(source: Seq<char>, error: AmlError) -> bool {
        if query_loads(Language::Typescript, ALL_FUNCTIONS_QUERY@, all_names()) {
            is_parse_failure(error, Language::Typescript)
        } else {
            is_query_failure(error, Language::Typescript, ALL_FUNCTIONS_QUERY@, all_names())
        }
    }

    /// The listing of the project by the query for instrumented functions.
    fn list_autometrics_functions(&mut self, project: &Vec<SourceFile>) -> (r: Result<
        Vec<FunctionInfo>,
        AmlError,
    >)
    {
        let query = AmQuery::try_new()?;
        let mut list: Vec<FunctionInfo> = Vec::new();
        let ghost mut found: Seq<Seq<FunctionInfoView>> = Seq::empty();
        let mut i: usize = 0;
        assert(infos_view(list@) == flat(found));
        while i < project.len()
            invariant
                i <= project.len(),
                found.len() == i,
                forall|k: int|
                    0 <= k < found.len() ==> instrumented_listing(
                        query,
                        project@[k],
                        #[trigger] found[k],
                    ),
                infos_view(list@) == flat(found),
                all_instrumented(infos_view(list@)),
            decreases project.len() - i,
        {
            let file = &project[i];
            let mut names = match query.list_function_names(
                file.file_name.as_str(),
                file.module.as_str(),
                file.source.as_str(),
                Some(file.path.as_str()),
            ) {
                Ok(names) => names,
                Err(_) => Vec::new(),
            };
            let ghost before = infos_view(list@);
            let ghost added = infos_view(names@);
            list.append(&mut names);
            proof {
                instrumented_joined(before, added);
                assert(infos_view(list@) == before + added);
                assert(found.push(added).drop_last() == found);
                found = found.push(added);
            }
            i += 1;
        }
        proof {
            crate::merge::keyed_instrumented(infos_view(list@));
        }
        let list = crate::merge::key_functions(list);
        assert(instrumented_project(query, project@, infos_view(list@)));
        Ok(list)
    }

    /// The listing of the project by the query for all functions.
    fn list_all_function_definitions(&mut self, project: &Vec<SourceFile>) -> (r: Result<
        Vec<FunctionInfo>,
        AmlError,
    >)
    {
        let query = AllFunctionsQuery::try_new()?;
        let mut list: Vec<FunctionInfo> = Vec::new();
        let ghost mut found: Seq<Seq<FunctionInfoView>> = Seq::empty();
        let mut i: usize = 0;
        assert(infos_view(list@) == flat(found));
        while i < project.len()
            invariant
                i <= project.len(),
                found.len() == i,
                forall|k: int|
                    0 <= k < found.len() ==> file_listing(query, project@[k], #[trigger] found[k]),
                infos_view(list@) == flat(found),
                uniform(infos_view(list@), false),
            decreases project.len() - i,
        {
            let file = &project[i];
            let mut names = match parse(Language::Typescript, file.source.as_str()) {
                Ok(tree) => into_infos(
                    query.list_definitions_under(
                        file.file_name.as_str(),
                        file.module.as_str(),
                        root_of(&tree),
                        file.source.as_str(),
                    ),
                ),
                Err(_) => Vec::new(),
            };
            let ghost before = infos_view(list@);
            let ghost added = infos_view(names@);
            list.append(&mut names);
            proof {
                uniform_joined(before, added, false);
                assert(infos_view(list@) == before + added);
                assert(found.push(added).drop_last() == found);
                found = found.push(added);
            }
            i += 1;
        }
        proof {
            crate::merge::keyed_uniform(infos_view(list@), false);
        }
        let list = crate::merge::key_functions(list);
        assert(project_listing(query, project@, infos_view(list@)));
        Ok(list)
    }

    /// A listing of the source by the query for instrumented functions, as
    /// functions of the module without a name, its imports seen from
    /// nowhere. The listing fails when the query cannot be made or when the
    /// listing of the source by the query fails.
    fn list_autometrics_functions_in_single_file(&mut self, source_code: &str) -> (r: Result<
        Vec<FunctionInfo>,
        AmlError,
    >)
    {
        let query = AmQuery::try_new()?;
        query.list_function_names(SINGLE_FILE, "", source_code, None)
    }

    /// The listing of the source by the query for all functions, as
    /// functions of the module without a name.
    fn list_all_function_definitions_in_single_file(&mut self, source_code: &str) -> (r: Result<
        Vec<FunctionInfo>,
        AmlError,
    >)
        ensures
            r is Ok <==> query_loads(Language::Typescript, ALL_FUNCTIONS_QUERY@, all_names())
                && grammar_loads(Language::Typescript),
    {
        Ok(into_infos(self.ts_function_definitions_in_single_file(source_code)?))
    }
}

} // verus!
