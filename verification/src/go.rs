//! Go: functions and methods of a package, marked by a directive comment.

use crate::listing::{kept, kept_uniform, qualified, qualify, record, record_view, uniform_joined};
use crate::model::{
    AmlError, FunctionInfo, FunctionInfoView, Language, all_well_ranged, infos_view, uniform,
    well_ranged,
};
use crate::merge::{distinct_ids, keyed};
use crate::project::{ListAmFunctions, SourceFile, flat};
use crate::syntax::{
    Capture, capture_indices, compiled_from, end_of, first_capture, first_node, grammar_loads,
    is_parse_failure, is_query_failure, matches_view, name_missing, names_found, names_view,
    new_query, node_end, node_start, node_text, parse, parses, query_loads, query_matches, root_of,
    run_query, start_of, text_of, tree_root,
};
use vstd::prelude::*;

verus! {

/// The capture name of a function's name.
pub const FUNC_NAME_CAPTURE: &'static str = "func.name";

/// The capture name of a package's name.
pub const PACK_NAME_CAPTURE: &'static str = "pack.name";

/// The capture name of a method's receiver type.
pub const TYPE_NAME_CAPTURE: &'static str = "type.name";

/// The query for the functions and methods that a directive comment marks.
pub const AM_QUERY: &'static str = "
((package_clause (package_identifier) @pack.name)
 (comment) @dir.comment
 .
 (comment)*
 .
 (function_declaration name: (identifier) @func.name)
 (#match? @dir.comment \"^//autometrics:(inst|doc)\"))

((package_clause (package_identifier) @pack.name)
 (comment) @dir.comment
 .
 (comment)*
 .
 (method_declaration
   receiver: (parameter_list
     (parameter_declaration
       type: [(type_identifier) @type.name (pointer_type (type_identifier) @type.name)]))
   name: (field_identifier) @func.name)
 (#match? @dir.comment \"^//autometrics:(inst|doc)\"))
";

/// The query for every function and method.
pub const ALL_FUNCTIONS_QUERY: &'static str = "
((package_clause (package_identifier) @pack.name)
 (function_declaration name: (identifier) @func.name))

((package_clause (package_identifier) @pack.name)
 (method_declaration
   receiver: (parameter_list
     (parameter_declaration
       type: [(type_identifier) @type.name (pointer_type (type_identifier) @type.name)]))
   name: (field_identifier) @func.name))
";

/// The capture indices that the Go analysis reads.
#[derive(Clone, Copy, Debug)]
pub struct Indices {
    /// The receiver type of a method.
    pub receiver: u32,
    /// The name of a function.
    pub function: u32,
    /// The name of the package.
    pub module: u32,
}

/// The text of a capture that may be absent: nothing captured, a text, or a
/// capture whose text cannot be read.
pub open spec fn optional_text(node: Option<tree_sitter::Node>, source: Seq<char>) -> Option<
    Option<Seq<char>>,
> {
    match node {
        None => Some(None),
        Some(n) => match node_text(n, source) {
            Some(t) => Some(Some(t)),
            None => None,
        },
    }
}

/// What one match of a Go query gives: the function `package`,
/// `Type.function` at the place of its name. A match without a package or a
/// function name gives nothing, and neither does one whose package, receiver
/// type or function name cannot be read.
pub open spec fn match_outcome(
    captures: Seq<Capture>,
    indices: Indices,
    file: Seq<char>,
    source: Seq<char>,
    instrumented: bool,
) -> Option<FunctionInfoView> {
    match (first_capture(captures, indices.module), first_capture(captures, indices.function)) {
        (Some(module_node), Some(function_node)) => {
            match (
                node_text(module_node, source),
                optional_text(first_capture(captures, indices.receiver), source),
                node_text(function_node, source),
            ) {
                (Some(module), Some(owner), Some(function)) => Some(
                    record_view(
                        module,
                        qualified(owner, "."@, function),
                        file,
                        node_start(function_node),
                        node_end(function_node),
                        instrumented,
                    ),
                ),
                _ => None,
            }
        },
        _ => None,
    }
}

/// What `query` lists under `root`: the functions that its matches give, in
/// the order of the matches.
pub open spec fn listed_under(
    query: tree_sitter::Query,
    indices: Indices,
    file: Seq<char>,
    root: tree_sitter::Node,
    source: Seq<char>,
    instrumented: bool,
) -> Seq<FunctionInfoView> {
    kept(
        query_matches(query, root, source).map_values(
            |captures: Seq<Capture>| match_outcome(captures, indices, file, source, instrumented),
        ),
    )
}

/// Reads one match.
fn read_match(
    captures: &Vec<Capture>,
    indices: Indices,
    file_name: &str,
    source: &str,
    instrumented: bool,
) -> (item: Option<FunctionInfo>)
    ensures
        match item {
            Some(info) => match_outcome(captures@, indices, file_name@, source@, instrumented)
                == Some(info@),
            None => match_outcome(captures@, indices, file_name@, source@, instrumented) is None,
        },
        item matches Some(info) ==> well_ranged(info@),
{
    let module_node = match first_node(captures, indices.module) {
        Some(node) => node,
        None => {
            return None;
        },
    };
    let function_node = match first_node(captures, indices.function) {
        Some(node) => node,
        None => {
            return None;
        },
    };
    let module = text_of(module_node, source);
    let owner = match first_node(captures, indices.receiver) {
        Some(node) => match text_of(node, source) {
            Some(text) => Some(Some(text)),
            None => None,
        },
        None => Some(None),
    };
    let function = text_of(function_node, source);
    match (module, owner, function) {
        (Some(module), Some(owner), Some(function)) => {
            let name = match &owner {
                Some(o) => qualify(Some(o.as_str()), ".", function.as_str()),
                None => qualify(None, ".", function.as_str()),
            };
            Some(
                record(
                    module.as_str(),
                    name.as_str(),
                    file_name,
                    start_of(function_node),
                    end_of(function_node),
                    instrumented,
                ),
            )
        },
        _ => None,
    }
}

/// Lists the functions that `query` matches under `root`.
fn list_under(
    query: &tree_sitter::Query,
    indices: Indices,
    file_name: &str,
    root: tree_sitter::Node,
    source: &str,
    instrumented: bool,
) -> (list: Vec<FunctionInfo>)
    ensures
        infos_view(list@) == listed_under(
            *query,
            indices,
            file_name@,
            root,
            source@,
            instrumented,
        ),
        uniform(infos_view(list@), instrumented),
        all_well_ranged(infos_view(list@)),
{
    let found = run_query(query, root, source);
    let ghost all = query_matches(*query, root, source@);
    let ghost items = all.map_values(
        |captures: Seq<Capture>|
            match_outcome(captures, indices, file_name@, source@, instrumented),
    );
    let mut list: Vec<FunctionInfo> = Vec::new();
    let mut i: usize = 0;
    assert(items.take(0) == Seq::<Option<FunctionInfoView>>::empty());
    assert(infos_view(list@) == Seq::<FunctionInfoView>::empty());
    while i < found.len()
        invariant
            i <= found.len(),
            all.len() == found.len(),
            matches_view(found@) == all,
            items == all.map_values(
                |captures: Seq<Capture>|
                    match_outcome(captures, indices, file_name@, source@, instrumented),
            ),
            infos_view(list@) == kept(items.take(i as int)),
            all_well_ranged(infos_view(list@)),
        decreases found.len() - i,
    {
        let item = read_match(&found[i], indices, file_name, source, instrumented);
        proof {
            assert(all[i as int] == found@[i as int]@);
            assert(items.take(i as int + 1).drop_last() == items.take(i as int));
            assert(items.take(i as int + 1).last() == items[i as int]);
        }
        match item {
            Some(info) => {
                let ghost before = list@;
                list.push(info);
                assert(infos_view(list@) == infos_view(before).push(info@));
            },
            None => {},
        }
        i += 1;
    }
    assert(items.take(found.len() as int) == items);
    proof {
        kept_uniform(items, instrumented);
    }
    list
}

/// The capture names that a Go query must have, in the order in which they
/// are looked up.
pub open spec fn names() -> Seq<(Seq<char>, Seq<char>)> {
    seq![
        (TYPE_NAME_CAPTURE@, TYPE_NAME_CAPTURE@),
        (FUNC_NAME_CAPTURE@, FUNC_NAME_CAPTURE@),
        (PACK_NAME_CAPTURE@, PACK_NAME_CAPTURE@),
    ]
}

/// The indices are those of the three capture names in the query.
pub open spec fn has_indices(query: tree_sitter::Query, indices: Indices) -> bool {
    names_found(query, names(), seq![indices.receiver, indices.function, indices.module])
}

/// Looks up the three capture names in a compiled query.
fn find_indices(query: &tree_sitter::Query) -> (r: Result<Indices, AmlError>)
    ensures
        match r {
            Ok(indices) => has_indices(*query, indices),
            Err(e) => name_missing(*query, names(), e),
        },
{
    let wanted = vec![
        (TYPE_NAME_CAPTURE, TYPE_NAME_CAPTURE),
        (FUNC_NAME_CAPTURE, FUNC_NAME_CAPTURE),
        (PACK_NAME_CAPTURE, PACK_NAME_CAPTURE),
    ];
    assert(names_view(wanted@) == names());
    let found = capture_indices(query, &wanted)?;
    let indices = Indices { receiver: found[0], function: found[1], module: found[2] };
    assert(found@ == seq![indices.receiver, indices.function, indices.module]);
    Ok(indices)
}

/// The query for the instrumented functions of a Go source.
#[derive(Debug)]
pub struct AmQuery {
    query: tree_sitter::Query,
    indices: Indices,
}

impl AmQuery {
    /// The compiled query.
    pub closed spec fn compiled(&self) -> tree_sitter::Query {
        self.query
    }

    /// The capture indices that the analysis reads.
    pub closed spec fn indices(&self) -> Indices {
        self.indices
    }

    /// What the query lists under `root`.
    pub open spec fn listed(&self, file: Seq<char>, root: tree_sitter::Node, source: Seq<char>)
        -> Seq<FunctionInfoView> {
        listed_under(self.compiled(), self.indices(), file, root, source, true)
    }

    /// Takes a compiled query and looks up the capture names in it.
    pub fn with_query(query: tree_sitter::Query) -> (r: Result<AmQuery, AmlError>)
        ensures
            match r {
                Ok(q) => q.compiled() == query && has_indices(query, q.indices()),
                Err(e) => name_missing(query, names(), e),
            },
    {
        let indices = find_indices(&query)?;
        Ok(AmQuery { query, indices })
    }

    /// Compiles the query. It is built exactly when its text is a query
    /// that has the three capture names, and its indices are then those of
    /// the names in it. Where it is not built, the error tells why: the text
    /// is no query, or the first of the names that is missing.
    pub fn try_new() -> (r: Result<AmQuery, AmlError>)
        ensures
            r is Ok <==> query_loads(Language::Go, AM_QUERY@, names()),
            match r {
                Ok(q) => compiled_from(q.compiled(), Language::Go, AM_QUERY@) && has_indices(
                    q.compiled(),
                    q.indices(),
                ),
                Err(e) => is_query_failure(e, Language::Go, AM_QUERY@, names()),
            },
    {
        let query = new_query(Language::Go, AM_QUERY)?;
        AmQuery::with_query(query)
    }

    /// Lists the instrumented functions under `root`, a node of the tree
    /// parsed from `source`. Every function listed is instrumented where it
    /// is defined.
    pub fn list_function_names_under(
        &self,
        file_name: &str,
        root: tree_sitter::Node,
        source: &str,
    ) -> (list: Vec<FunctionInfo>)
        ensures
            infos_view(list@) == self.listed(file_name@, root, source@),
            uniform(infos_view(list@), true),
            all_well_ranged(infos_view(list@)),
    {
        list_under(&self.query, self.indices, file_name, root, source, true)
    }

    /// Parses `source` and lists its instrumented functions: what the
    /// query lists under the root of a parse of the source. The listing
    /// fails exactly when the parser does not accept the grammar.
    pub fn list_function_names(&self, file_name: &str, source: &str) -> (r: Result<
        Vec<FunctionInfo>,
        AmlError,
    >)
        ensures
            r is Ok <==> grammar_loads(Language::Go),
            match r {
                Ok(list) => exists|tree: &tree_sitter::Tree|
                    parses(tree, Language::Go, source@) && infos_view(list@) == self.listed(
                        file_name@,
                        tree_root(tree),
                        source@,
                    ),
                Err(e) => is_parse_failure(e, Language::Go),
            },
            r matches Ok(list) ==> uniform(infos_view(list@), true) && all_well_ranged(
                infos_view(list@),
            ),
    {
        let tree = parse(Language::Go, source)?;
        Ok(self.list_function_names_under(file_name, root_of(&tree), source))
    }
}

/// The query for every function of a Go source.
#[derive(Debug)]
pub struct AllFunctionsQuery {
    query: tree_sitter::Query,
    indices: Indices,
}

impl AllFunctionsQuery {
    /// The compiled query.
    pub closed spec fn compiled(&self) -> tree_sitter::Query {
        self.query
    }

    /// The capture indices that the analysis reads.
    pub closed spec fn indices(&self) -> Indices {
        self.indices
    }

    /// What the query lists under `root`.
    pub open spec fn listed(&self, file: Seq<char>, root: tree_sitter::Node, source: Seq<char>)
        -> Seq<FunctionInfoView> {
        listed_under(self.compiled(), self.indices(), file, root, source, false)
    }

    /// Takes a compiled query and looks up the capture names in it.
    pub fn with_query(query: tree_sitter::Query) -> (r: Result<AllFunctionsQuery, AmlError>)
        ensures
            match r {
                Ok(q) => q.compiled() == query && has_indices(query, q.indices()),
                Err(e) => name_missing(query, names(), e),
            },
    {
        let indices = find_indices(&query)?;
        Ok(AllFunctionsQuery { query, indices })
    }

    /// Compiles the query. It is built exactly when its text is a query
    /// that has the three capture names, and its indices are then those of
    /// the names in it. Where it is not built, the error tells why: the text
    /// is no query, or the first of the names that is missing.
    pub fn try_new() -> (r: Result<AllFunctionsQuery, AmlError>)
        ensures
            r is Ok <==> query_loads(Language::Go, ALL_FUNCTIONS_QUERY@, names()),
            match r {
                Ok(q) => compiled_from(q.compiled(), Language::Go, ALL_FUNCTIONS_QUERY@) && has_indices(
                    q.compiled(),
                    q.indices(),
                ),
                Err(e) => is_query_failure(e, Language::Go, ALL_FUNCTIONS_QUERY@, names()),
            },
    {
        let query = new_query(Language::Go, ALL_FUNCTIONS_QUERY)?;
        AllFunctionsQuery::with_query(query)
    }

    /// Lists the functions defined under `root`, a node of the tree parsed
    /// from `source`. No function listed is instrumented.
    pub fn list_function_names_under(
        &self,
        file_name: &str,
        root: tree_sitter::Node,
        source: &str,
    ) -> (list: Vec<FunctionInfo>)
        ensures
            infos_view(list@) == self.listed(file_name@, root, source@),
            uniform(infos_view(list@), false),
            all_well_ranged(infos_view(list@)),
    {
        list_under(&self.query, self.indices, file_name, root, source, false)
    }

    /// Parses `source` and lists the functions it defines: what the
    /// query lists under the root of a parse of the source. The listing
    /// fails exactly when the parser does not accept the grammar.
    pub fn list_function_names(&self, file_name: &str, source: &str) -> (r: Result<
        Vec<FunctionInfo>,
        AmlError,
    >)
        ensures
            r is Ok <==> grammar_loads(Language::Go),
            match r {
                Ok(list) => exists|tree: &tree_sitter::Tree|
                    parses(tree, Language::Go, source@) && infos_view(list@) == self.listed(
                        file_name@,
                        tree_root(tree),
                        source@,
                    ),
                Err(e) => is_parse_failure(e, Language::Go),
            },
            r matches Ok(list) ==> uniform(infos_view(list@), false) && all_well_ranged(
                infos_view(list@),
            ),
    {
        let tree = parse(Language::Go, source)?;
        Ok(self.list_function_names_under(file_name, root_of(&tree), source))
    }
}

/// The file name under which the functions of a single source are listed.
pub const SINGLE_FILE: &'static str = "<single file>";

/// The analysis of Go sources.
#[derive(Clone, Copy, Debug, Default)]
pub struct Impl {}

/// Whether `listing` is what a file of a project adds to a listing: what
/// `query` lists under the root of a parse of the file, and nothing where the
/// file has no parse, the parser not accepting the grammar.
pub open spec fn file_listing(
    query: tree_sitter::Query,
    indices: Indices,
    file: SourceFile,
    instrumented: bool,
    listing: Seq<FunctionInfoView>,
) -> bool {
    if grammar_loads(Language::Go) {
        exists|tree: &tree_sitter::Tree|
            parses(tree, Language::Go, file.source@) && listing == listed_under(
                query,
                indices,
                file.file_name@,
                tree_root(tree),
                file.source@,
                instrumented,
            )
    } else {
        listing.len() == 0
    }
}

/// Whether `list` is a listing of a project by `query`: one record per
/// function, the last of those that the files give for it, file by file.
pub open spec fn project_listing(
    query: tree_sitter::Query,
    indices: Indices,
    project: Seq<SourceFile>,
    instrumented: bool,
    list: Seq<FunctionInfoView>,
) -> bool {
    exists|found: Seq<Seq<FunctionInfoView>>|
        {
            &&& found.len() == project.len()
            &&& forall|k: int|
                0 <= k < found.len() ==> file_listing(
                    query,
                    indices,
                    project[k],
                    instrumented,
                    #[trigger] found[k],
                )
            &&& list == keyed(flat(found))
        }
}

/// Lists what `query` finds in the files of a project. A file that has no
/// parse adds nothing.
fn list_files(
    query: &tree_sitter::Query,
    indices: Indices,
    project: &Vec<SourceFile>,
    instrumented: bool,
) -> (list: Vec<FunctionInfo>)
    ensures
        project_listing(*query, indices, project@, instrumented, infos_view(list@)),
        uniform(infos_view(list@), instrumented),
        distinct_ids(infos_view(list@)),
{
    let mut list: Vec<FunctionInfo> = Vec::new();
    let ghost mut found: Seq<Seq<FunctionInfoView>> = Seq::empty();
    let mut i: usize = 0;
    assert(infos_view(list@) == flat(found));
    while i < project.len()
        invariant
            i <= project.len(),
            found.len() == i,
            forall|k: int|
                0 <= k < found.len() ==> file_listing(
                    *query,
                    indices,
                    project@[k],
                    instrumented,
                    #[trigger] found[k],
                ),
            infos_view(list@) == flat(found),
            uniform(infos_view(list@), instrumented),
        decreases project.len() - i,
    {
        let file = &project[i];
        let mut names = match parse(Language::Go, file.source.as_str()) {
            Ok(tree) => list_under(
                query,
                indices,
                file.file_name.as_str(),
                root_of(&tree),
                file.source.as_str(),
                instrumented,
            ),
            Err(_) => Vec::new(),
        };
        let ghost before = infos_view(list@);
        let ghost added = infos_view(names@);
        list.append(&mut names);
        proof {
            uniform_joined(before, added, instrumented);
            assert(infos_view(list@) == before + added);
            assert(found.push(added).drop_last() == found);
            found = found.push(added);
        }
        i += 1;
    }
    proof {
        crate::merge::keyed_uniform(infos_view(list@), instrumented);
    }
    crate::merge::key_functions(list)
}

impl ListAmFunctions for Impl {
    open spec fn lists_instrumented(project: Seq<SourceFile>) -> bool {
        query_loads(Language::Go, AM_QUERY@, names())
    }

    open spec fn lists_defined(project: Seq<SourceFile>) -> bool {
        query_loads(Language::Go, ALL_FUNCTIONS_QUERY@, names())
    }

    open spec fn instrumented_in(project: Seq<SourceFile>, list: Seq<FunctionInfoView>) -> bool {
        exists|query: AmQuery|
            {
                &&& compiled_from(query.compiled(), Language::Go, AM_QUERY@)
                &&& has_indices(query.compiled(), query.indices())
                &&& #[trigger] project_listing(
                    query.compiled(),
                    query.indices(),
                    project,
                    true,
                    list,
                )
            }
    }

    open spec fn defined_in(project: Seq<SourceFile>, list: Seq<FunctionInfoView>) -> bool {
        exists|query: AllFunctionsQuery|
            {
                &&& compiled_from(query.compiled(), Language::Go, ALL_FUNCTIONS_QUERY@)
                &&& has_indices(query.compiled(), query.indices())
                &&& #[trigger] project_listing(
                    query.compiled(),
                    query.indices(),
                    project,
                    false,
                    list,
                )
            }
    }

    open spec fn instrumented_in_source(source: Seq<char>, list: Seq<FunctionInfoView>) -> bool {
        exists|query: AmQuery, tree: &tree_sitter::Tree|
            {
                &&& compiled_from(query.compiled(), Language::Go, AM_QUERY@)
                &&& has_indices(query.compiled(), query.indices())
                &&& parses(tree, Language::Go, source)
                &&& list == #[trigger] query.listed(SINGLE_FILE@, tree_root(tree), source)
            }
    }

    open spec fn defined_in_source(source: Seq<char>, list: Seq<FunctionInfoView>) -> bool {
        exists|query: AllFunctionsQuery, tree: &tree_sitter::Tree|
            {
                &&& compiled_from(query.compiled(), Language::Go, ALL_FUNCTIONS_QUERY@)
                &&& has_indices(query.compiled(), query.indices())
                &&& parses(tree, Language::Go, source)
                &&& list == #[trigger] query.listed(SINGLE_FILE@, tree_root(tree), source)
            }
    }

    open spec fn instrumented_in_failure(project: Seq<SourceFile>, error: AmlError) -> bool {
        is_query_failure(error, Language::Go, AM_QUERY@, names())
    }

    open spec fn defined_in_failure(project: Seq<SourceFile>, error: AmlError) -> bool {
        is_query_failure(error, Language::Go, ALL_FUNCTIONS_QUERY@, names())
    }

    open spec fn instrumented_failure(source: Seq<char>, error: AmlError) -> bool {
        if query_loads(Language::Go, AM_QUERY@, names()) {
            is_parse_failure(error, Language::Go)
        } else {
            is_query_failure(error, Language::Go, AM_QUERY@, names())
        }
    }

    open spec fn defined_failure(source: Seq<char>, error: AmlError) -> bool {
        if query_loads(Language::Go, ALL_FUNCTIONS_QUERY@, names()) {
            is_parse_failure(error, Language::Go)
        } else {
            is_query_failure(error, Language::Go, ALL_FUNCTIONS_QUERY@, names())
        }
    }

    /// The listing of the project by the query for instrumented functions.
    fn list_autometrics_functions(&mut self, project: &Vec<SourceFile>) -> (r: Result<
        Vec<FunctionInfo>,
        AmlError,
    >)
    {
        let query = AmQuery::try_new()?;
        Ok(list_files(&query.query, query.indices, project, true))
    }

    /// The listing of the project by the query for all functions.
    fn list_all_function_definitions(&mut self, project: &Vec<SourceFile>) -> (r: Result<
        Vec<FunctionInfo>,
        AmlError,
    >)
    {
        let query = AllFunctionsQuery::try_new()?;
        Ok(list_files(&query.query, query.indices, project, false))
    }

    /// The listing of the source by the query for instrumented functions.
    fn list_autometrics_functions_in_single_file(&mut self, source_code: &str) -> (r: Result<
        Vec<FunctionInfo>,
        AmlError,
    >)
        ensures
            r is Ok <==> query_loads(Language::Go, AM_QUERY@, names()) && grammar_loads(
                Language::Go,
            ),
    {
        let query = AmQuery::try_new()?;
        query.list_function_names(SINGLE_FILE, source_code)
    }

    /// The listing of the source by the query for all functions.
    fn list_all_function_definitions_in_single_file(&mut self, source_code: &str) -> (r: Result<
        Vec<FunctionInfo>,
        AmlError,
    >)
        ensures
            r is Ok <==> query_loads(Language::Go, ALL_FUNCTIONS_QUERY@, names())
                && grammar_loads(Language::Go),
    {
        let query = AllFunctionsQuery::try_new()?;
        query.list_function_names(SINGLE_FILE, source_code)
    }
}

} // verus!
