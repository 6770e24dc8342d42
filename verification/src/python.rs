//! Python: functions by the classes and functions they are nested in, marked
//! by the `autometrics` decorator under the name it was imported as.

use crate::listing::{kept, kept_uniform, record, record_view, uniform_joined};
use crate::model::{
    AmlError, FunctionInfo, FunctionInfoView, Language, all_well_ranged, infos_view, uniform,
    well_ranged,
};
use crate::merge::keyed;
use crate::project::{ListAmFunctions, SourceFile, flat};
use crate::syntax::{
    Capture, capture_index, capture_named, compiled_from, end_of, first_capture, first_node,
    grammar_loads, is_named_capture, is_parse_failure, is_query_failure, kind_of, matches_view,
    named_child_of, new_query, node_ancestors, node_end, node_kind, node_named_child, node_start,
    node_text, one_name, one_name_looked_up, parent_of, parse, parses, query_loads, query_matches,
    root_of, run_query, start_of, text_of, tree_root,
};
use crate::text::{join, joined, reversed, same_text, texts_view};
use vstd::prelude::*;
use vstd::string::{StringExecFns, StrSliceExecFns};

verus! {

/// The capture name of a function's name.
pub const FUNC_NAME_CAPTURE: &'static str = "func.name";

/// The capture name of the alias under which the decorator is imported.
pub const IMPORT_ALIAS_CAPTURE: &'static str = "import.alias";

/// The grammar's name for a class.
pub const CLASS_KIND: &'static str = "class_definition";

/// The grammar's name for a function.
pub const FUNCTION_KIND: &'static str = "function_definition";

/// What stands for the inside of a function in a qualified name.
pub const LOCALS: &'static str = "<locals>";

/// The name under which the decorator is known when it has no alias.
pub const DECORATOR: &'static str = "autometrics";

/// The query for decorated functions, up to the name of the decorator.
pub const AM_QUERY_HEAD: &'static str = "
(decorated_definition
  (decorator [(identifier) @decorator.name (call function: (identifier) @decorator.name)])
  definition: (function_definition name: (identifier) @func.name)
  (#eq? @decorator.name \"";

/// The query for decorated functions, after the name of the decorator.
pub const AM_QUERY_TAIL: &'static str = "\"))
";

/// The query for the import of the decorator.
pub const IMPORT_QUERY: &'static str = "
(import_from_statement
  module_name: (dotted_name (identifier) @import.module)
  name: [
    (dotted_name (identifier) @import.name)
    (aliased_import
      name: (dotted_name (identifier) @import.name)
      alias: (identifier) @import.alias)
  ]
  (#eq? @import.module \"autometrics\")
  (#eq? @import.name \"autometrics\"))
";

/// The query for every function.
pub const ALL_FUNCTIONS_QUERY: &'static str = "
(function_definition name: (identifier) @func.name)
";

/// What a node above a function adds to its qualified name, in the order in
/// which a walk upwards notes it: a class its name, a function the marker of
/// its inside and then its name, anything else nothing. A class or function
/// whose name cannot be read is a failure.
pub open spec fn segment(node: tree_sitter::Node, source: Seq<char>) -> Result<
    Seq<Seq<char>>,
    (),
> {
    if node_kind(node) == CLASS_KIND@ || node_kind(node) == FUNCTION_KIND@ {
        match node_named_child(node, 0) {
            None => Err(()),
            Some(child) => match node_text(child, source) {
                None => Err(()),
                Some(name) => if node_kind(node) == CLASS_KIND@ {
                    Ok(seq![name])
                } else {
                    Ok(seq![LOCALS@, name])
                },
            },
        }
    } else {
        Ok(Seq::empty())
    }
}

/// What the nodes `above` add to a qualified name, nearest first.
pub open spec fn noted(above: Seq<tree_sitter::Node>, source: Seq<char>) -> Result<
    Seq<Seq<char>>,
    (),
>
    decreases above.len(),
{
    if above.len() == 0 {
        Ok(Seq::empty())
    } else {
        match (segment(above[0], source), noted(above.skip(1), source)) {
            (Ok(first), Ok(rest)) => Ok(first + rest),
            _ => Err(()),
        }
    }
}

/// The dotted path of the classes and functions around the definition whose
/// name is `node`, outermost first. A node without a node above it, or with
/// an unreadable name above it, is a failure.
pub open spec fn qualname(node: tree_sitter::Node, source: Seq<char>) -> Result<Seq<char>, ()> {
    if node_ancestors(node).len() == 0 {
        Err(())
    } else {
        match noted(node_ancestors(node).skip(1), source) {
            Ok(parts) => Ok(joined(parts.reverse(), "."@)),
            Err(_) => Err(()),
        }
    }
}

/// Reads what one node adds to a qualified name.
fn read_segment(node: tree_sitter::Node, source: &str, parts: &mut Vec<String>) -> (r: Result<
    (),
    AmlError,
>)
    ensures
        match r {
            Ok(_) => segment(node, source@) is Ok && texts_view(final(parts)@) == texts_view(
                old(parts)@,
            ) + segment(node, source@)->Ok_0,
            Err(e) => e == AmlError::InvalidText && segment(node, source@) is Err,
        },
{
    let ghost before = texts_view(parts@);
    let kind = kind_of(node);
    let is_class = same_text(kind, CLASS_KIND);
    if is_class || same_text(kind, FUNCTION_KIND) {
        let child = match named_child_of(node, 0) {
            Some(child) => child,
            None => {
                return Err(AmlError::InvalidText);
            },
        };
        let name = match text_of(child, source) {
            Some(name) => name,
            None => {
                return Err(AmlError::InvalidText);
            },
        };
        if is_class {
            parts.push(name);
            assert(texts_view(parts@) == before + seq![name@]);
        } else {
            parts.push(LOCALS.to_owned());
            parts.push(name);
            assert(texts_view(parts@) == before + seq![LOCALS@, name@]);
        }
    } else {
        assert(texts_view(parts@) == before + Seq::<Seq<char>>::empty());
    }
    Ok(())
}

/// The dotted path of the classes and functions around the definition whose
/// name is `node`.
pub fn get_node_qualname(node: &tree_sitter::Node, source: &str) -> (r: Result<String, AmlError>)
    ensures
        match r {
            Ok(path) => qualname(*node, source@) == Ok::<_, ()>(path@),
            Err(e) => e == AmlError::InvalidText && qualname(*node, source@) is Err,
        },
{
    let name = *node;
    let mut parts: Vec<String> = Vec::new();
    let mut walk = match parent_of(name) {
        Some(parent) => parent,
        None => {
            return Err(AmlError::InvalidText);
        },
    };
    let ghost whole = noted(node_ancestors(name).skip(1), source@);
    assert(texts_view(parts@) == Seq::<Seq<char>>::empty());
    loop
        invariant
            name == *node,
            node_ancestors(name).len() > 0,
            whole == noted(node_ancestors(name).skip(1), source@),
            whole == match noted(node_ancestors(walk), source@) {
                Ok(rest) => Ok::<_, ()>(texts_view(parts@) + rest),
                Err(_) => Err(()),
            },
        decreases node_ancestors(walk).len(),
    {
        match parent_of(walk) {
            Some(parent) => {
                let ghost before = texts_view(parts@);
                match read_segment(parent, source, &mut parts) {
                    Ok(_) => {},
                    Err(e) => {
                        return Err(e);
                    },
                }
                proof {
                    let first = segment(parent, source@)->Ok_0;
                    match noted(node_ancestors(parent), source@) {
                        Ok(rest) => {
                            assert((before + first) + rest == before + (first + rest));
                        },
                        Err(_) => {},
                    }
                }
                walk = parent;
            },
            None => {
                assert(texts_view(parts@) + Seq::<Seq<char>>::empty() == texts_view(parts@));
                let parts = reversed(parts);
                return Ok(join(&parts, "."));
            },
        }
    }
}

/// What a match gives: the function `module`, `path.name` at the place of
/// its name when the match has a function name, and the name and the path
/// around it can be read.
pub open spec fn match_outcome(
    captures: Seq<Capture>,
    function: u32,
    file: Seq<char>,
    source: Seq<char>,
    module: Seq<char>,
    instrumented: bool,
) -> Option<FunctionInfoView> {
    match first_capture(captures, function) {
        None => None,
        Some(node) => match (node_text(node, source), qualname(node, source)) {
            (Some(name), Ok(path)) => Some(
                record_view(
                    module,
                    if path.len() == 0 {
                        name
                    } else {
                        path + "."@ + name
                    },
                    file,
                    node_start(node),
                    node_end(node),
                    instrumented,
                ),
            ),
            _ => None,
        },
    }
}

/// What `query` lists under `root`.
pub open spec fn listed_under(
    query: tree_sitter::Query,
    function: u32,
    file: Seq<char>,
    root: tree_sitter::Node,
    source: Seq<char>,
    module: Seq<char>,
    instrumented: bool,
) -> Seq<FunctionInfoView> {
    kept(
        query_matches(query, root, source).map_values(
            |captures: Seq<Capture>|
                match_outcome(captures, function, file, source, module, instrumented),
        ),
    )
}

/// Reads one match.
fn read_match(
    captures: &Vec<Capture>,
    function: u32,
    file_name: &str,
    source: &str,
    module_name: &str,
    instrumented: bool,
) -> (item: Option<FunctionInfo>)
    ensures
        match item {
            Some(info) => match_outcome(
                captures@,
                function,
                file_name@,
                source@,
                module_name@,
                instrumented,
            ) == Some(info@),
            None => match_outcome(
                captures@,
                function,
                file_name@,
                source@,
                module_name@,
                instrumented,
            ) is None,
        },
        item matches Some(info) ==> well_ranged(info@),
{
    let node = match first_node(captures, function) {
        Some(node) => node,
        None => {
            return None;
        },
    };
    let name = match text_of(node, source) {
        Some(name) => name,
        None => {
            return None;
        },
    };
    let path = match get_node_qualname(&node, source) {
        Ok(path) => path,
        Err(_) => {
            return None;
        },
    };
    let full = if path.as_str().unicode_len() == 0 {
        name
    } else {
        path.concat(".").concat(name.as_str())
    };
    Some(record(module_name, full.as_str(), file_name, start_of(node), end_of(node), instrumented))
}

/// Lists what `query` finds under `root`.
fn list_under(
    query: &tree_sitter::Query,
    function: u32,
    file_name: &str,
    root: tree_sitter::Node,
    source: &str,
    module_name: &str,
    instrumented: bool,
) -> (list: Vec<FunctionInfo>)
    ensures
        infos_view(list@) == listed_under(
            *query,
            function,
            file_name@,
            root,
            source@,
            module_name@,
            instrumented,
        ),
        uniform(infos_view(list@), instrumented),
        all_well_ranged(infos_view(list@)),
{
    let found = run_query(query, root, source);
    let ghost all = query_matches(*query, root, source@);
    let ghost items = all.map_values(
        |captures: Seq<Capture>|
            match_outcome(captures, function, file_name@, source@, module_name@, instrumented),
    );
    let mut list: Vec<FunctionInfo> = Vec::new();
    let mut i: usize = 0;
    assert(items.take(0) == Seq::<Option<FunctionInfoView>>::empty());
    assert(infos_view(list@) == Seq::<FunctionInfoView>::empty());
    while i < found.len()
        invariant
            i <= found.len(),
            all.len() == found.len(),
            matches_view(found@) == all,
            items == all.map_values(
                |captures: Seq<Capture>|
                    match_outcome(
                        captures,
                        function,
                        file_name@,
                        source@,
                        module_name@,
                        instrumented,
                    ),
            ),
            infos_view(list@) == kept(items.take(i as int)),
            all_well_ranged(infos_view(list@)),
        decreases found.len() - i,
    {
        let item = read_match(&found[i], function, file_name, source, module_name, instrumented);
        proof {
            assert(all[i as int] == found@[i as int]@);
            assert(items.take(i as int + 1).drop_last() == items.take(i as int));
            assert(items.take(i as int + 1).last() == items[i as int]);
        }
        match item {
            Some(info) => {
                let ghost before = list@;
                list.push(info);
                assert(infos_view(list@) == infos_view(before).push(info@));
            },
            None => {},
        }
        i += 1;
    }
    assert(items.take(found.len() as int) == items);
    proof {
        kept_uniform(items, instrumented);
    }
    list
}

/// The capture name that a query for functions must have.
pub open spec fn function_names() -> Seq<(Seq<char>, Seq<char>)> {
    one_name(FUNC_NAME_CAPTURE@, FUNC_NAME_CAPTURE@)
}

/// The capture name that the query for the import must have.
pub open spec fn import_names() -> Seq<(Seq<char>, Seq<char>)> {
    one_name(IMPORT_ALIAS_CAPTURE@, IMPORT_ALIAS_CAPTURE@)
}

/// The query for the functions that carry the decorator.
#[derive(Debug)]
pub struct AmQuery {
    query: tree_sitter::Query,
    func_name_idx: u32,
}

impl AmQuery {
    /// The compiled query.
    pub closed spec fn compiled(&self) -> tree_sitter::Query {
        self.query
    }

    /// The index of the capture of a function's name.
    pub closed spec fn function_index(&self) -> u32 {
        self.func_name_idx
    }

    /// What the query lists under `root` for a file of the module `module`.
    pub open spec fn listed(
        &self,
        file: Seq<char>,
        root: tree_sitter::Node,
        source: Seq<char>,
        module: Seq<char>,
    ) -> Seq<FunctionInfoView> {
        listed_under(self.compiled(), self.function_index(), file, root, source, module, true)
    }

    /// Whether this is the query of `text`, read by the index that the
    /// text has for the name of a function.
    pub open spec fn reads(&self, text: Seq<char>) -> bool {
        compiled_from(self.compiled(), Language::Python, text) && capture_index(
            self.compiled(),
            FUNC_NAME_CAPTURE@,
        ) == Some(self.function_index())
    }

    /// The text of the query for the decorator called `decorator_name`.
    pub open spec fn query_text(decorator_name: Seq<char>) -> Seq<char> {
        AM_QUERY_HEAD@ + decorator_name + AM_QUERY_TAIL@
    }

    /// Writes the query for the decorator called `decorator_name`.
    pub fn text_for(decorator_name: &str) -> (text: String)
        ensures
            text@ == Self::query_text(decorator_name@),
    {
        AM_QUERY_HEAD.to_owned().concat(decorator_name).concat(AM_QUERY_TAIL)
    }

    /// Takes a compiled query and looks up the capture name in it.
    pub fn with_query(query: tree_sitter::Query) -> (r: Result<AmQuery, AmlError>)
        ensures
            match r {
                Ok(q) => q.compiled() == query && capture_index(query, FUNC_NAME_CAPTURE@) == Some(
                    q.function_index(),
                ),
                Err(e) => is_named_capture(
                    Err(e),
                    query,
                    FUNC_NAME_CAPTURE@,
                    FUNC_NAME_CAPTURE@,
                ),
            },
    {
        let func_name_idx = capture_named(&query, FUNC_NAME_CAPTURE, FUNC_NAME_CAPTURE)?;
        Ok(AmQuery { query, func_name_idx })
    }

    /// Compiles the query for the decorator called `decorator_name`. It is
    /// built exactly when its text is a query that has the capture name of
    /// a function's name, and is then read by the index of that name.
    /// Where it is not built, the error tells why: the text is no query, or
    /// the name is missing.
    pub fn try_new(decorator_name: &str) -> (r: Result<AmQuery, AmlError>)
        ensures
            r is Ok <==> query_loads(
                Language::Python,
                Self::query_text(decorator_name@),
                function_names(),
            ),
            match r {
                Ok(q) => q.reads(Self::query_text(decorator_name@)),
                Err(e) => is_query_failure(
                    e,
                    Language::Python,
                    Self::query_text(decorator_name@),
                    function_names(),
                ),
            },
    {
        let text = AmQuery::text_for(decorator_name);
        let query = new_query(Language::Python, text.as_str())?;
        proof {
            one_name_looked_up(query, Language::Python, text@, FUNC_NAME_CAPTURE@, FUNC_NAME_CAPTURE@);
        }
        AmQuery::with_query(query)
    }

    /// Lists the decorated functions under `root`, a node of the tree parsed
    /// from `source`.
    pub fn list_function_names_under(
        &self,
        file_name: &str,
        root: tree_sitter::Node,
        source: &str,
        module_name: &str,
    ) -> (list: Vec<FunctionInfo>)
        ensures
            infos_view(list@) == self.listed(file_name@, root, source@, module_name@),
            uniform(infos_view(list@), true),
            all_well_ranged(infos_view(list@)),
    {
        list_under(&self.query, self.func_name_idx, file_name, root, source, module_name, true)
    }

    /// Parses `source` and lists its decorated functions.
    pub fn list_function_names(&self, file_name: &str, source: &str, module_name: &str) -> (r:
        Result<Vec<FunctionInfo>, AmlError>)
        ensures
            r is Ok <==> grammar_loads(Language::Python),
            match r {
                Ok(list) => exists|tree: &tree_sitter::Tree|
                    parses(tree, Language::Python, source@) && infos_view(list@) == self.listed(
                        file_name@,
                        tree_root(tree),
                        source@,
                        module_name@,
                    ),
                Err(e) => is_parse_failure(e, Language::Python),
            },
            r matches Ok(list) ==> uniform(infos_view(list@), true) && all_well_ranged(
                infos_view(list@),
            ),
    {
        let tree = parse(Language::Python, source)?;
        Ok(self.list_function_names_under(file_name, root_of(&tree), source, module_name))
    }
}

/// The query for the import of the decorator.
#[derive(Debug)]
pub struct AmImportQuery {
    query: tree_sitter::Query,
    import_alias_idx: u32,
}

/// The name of the decorator that the matches of the import query give: with
/// exactly one match, the alias that it captures, or the plain name when it
/// captures none. Anything else is a failure.
pub open spec fn decorator_of(found: Seq<Seq<Capture>>, alias: u32, source: Seq<char>) -> Result<
    Seq<char>,
    (),
> {
    if found.len() != 1 {
        Err(())
    } else {
        match first_capture(found[0], alias) {
            None => Ok(DECORATOR@),
            Some(node) => match node_text(node, source) {
                Some(name) => Ok(name),
                None => Err(()),
            },
        }
    }
}

impl AmImportQuery {
    /// The compiled query.
    pub closed spec fn compiled(&self) -> tree_sitter::Query {
        self.query
    }

    /// The index of the capture of the alias.
    pub closed spec fn alias_index(&self) -> u32 {
        self.import_alias_idx
    }

    /// Takes a compiled query and looks up the capture name in it.
    pub fn with_query(query: tree_sitter::Query) -> (r: Result<AmImportQuery, AmlError>)
        ensures
            match r {
                Ok(q) => q.compiled() == query && capture_index(query, IMPORT_ALIAS_CAPTURE@)
                    == Some(q.alias_index()),
                Err(e) => is_named_capture(
                    Err(e),
                    query,
                    IMPORT_ALIAS_CAPTURE@,
                    IMPORT_ALIAS_CAPTURE@,
                ),
            },
    {
        let import_alias_idx = capture_named(&query, IMPORT_ALIAS_CAPTURE, IMPORT_ALIAS_CAPTURE)?;
        Ok(AmImportQuery { query, import_alias_idx })
    }

    /// Whether this is the query for the import, read by the index that
    /// its text has for the alias.
    pub open spec fn reads(&self) -> bool {
        compiled_from(self.compiled(), Language::Python, IMPORT_QUERY@) && capture_index(
            self.compiled(),
            IMPORT_ALIAS_CAPTURE@,
        ) == Some(self.alias_index())
    }

    /// Compiles the query. It is built exactly when its text is a query
    /// that has the capture name of the alias, and is then read by the
    /// index of that name. Where it is not built, the error tells why: the
    /// text is no query, or the name is missing.
    pub fn try_new() -> (r: Result<AmImportQuery, AmlError>)
        ensures
            r is Ok <==> query_loads(Language::Python, IMPORT_QUERY@, import_names()),
            match r {
                Ok(q) => q.reads(),
                Err(e) => is_query_failure(e, Language::Python, IMPORT_QUERY@, import_names()),
            },
    {
        let query = new_query(Language::Python, IMPORT_QUERY)?;
        proof {
            one_name_looked_up(query, Language::Python, IMPORT_QUERY@, IMPORT_ALIAS_CAPTURE@, IMPORT_ALIAS_CAPTURE@);
        }
        AmImportQuery::with_query(query)
    }

    /// The name of the decorator as the imports under `root` give it.
    pub fn get_decorator_name_under(&self, root: tree_sitter::Node, source: &str) -> (r: Result<
        String,
        AmlError,
    >)
        ensures
            match r {
                Ok(name) => decorator_of(
                    query_matches(self.compiled(), root, source@),
                    self.alias_index(),
                    source@,
                ) == Ok::<_, ()>(name@),
                Err(e) => e == AmlError::InvalidText && decorator_of(
                    query_matches(self.compiled(), root, source@),
                    self.alias_index(),
                    source@,
                ) is Err,
            },
    {
        let found = run_query(&self.query, root, source);
        if found.len() != 1 {
            return Err(AmlError::InvalidText);
        }
        assert(matches_view(found@)[0] == found@[0]@);
        match first_node(&found[0], self.import_alias_idx) {
            None => Ok(DECORATOR.to_owned()),
            Some(node) => match text_of(node, source) {
                Some(name) => Ok(name),
                None => Err(AmlError::InvalidText),
            },
        }
    }

    /// The name of the decorator as the imports of a parsed source give
    /// it.
    pub open spec fn decorator(&self, root: tree_sitter::Node, source: Seq<char>) -> Result<
        Seq<char>,
        (),
    > {
        decorator_of(query_matches(self.compiled(), root, source), self.alias_index(), source)
    }

    /// Parses `source` and gives the name under which it imports the
    /// decorator: the name that the imports of a parse of the source give.
    /// The call fails where the parser does not accept the grammar, and
    /// where the parse does not give a name.
    pub fn get_decorator_name(&self, source: &str) -> (r: Result<String, AmlError>)
        ensures
            match r {
                Ok(name) => exists|tree: &tree_sitter::Tree|
                    parses(tree, Language::Python, source@) && self.decorator(
                        tree_root(tree),
                        source@,
                    ) == Ok::<_, ()>(name@),
                Err(e) => decorator_failure(*self, source@, e),
            },
    {
        let tree = parse(Language::Python, source)?;
        self.get_decorator_name_under(root_of(&tree), source)
    }
}

/// The query for every function of a Python source.
#[derive(Debug)]
pub struct AllFunctionsQuery {
    query: tree_sitter::Query,
    func_name_idx: u32,
}

impl AllFunctionsQuery {
    /// The compiled query.
    pub closed spec fn compiled(&self) -> tree_sitter::Query {
        self.query
    }

    /// The index of the capture of a function's name.
    pub closed spec fn function_index(&self) -> u32 {
        self.func_name_idx
    }

    /// What the query lists under `root` for a file of the module `module`.
    pub open spec fn listed(
        &self,
        file: Seq<char>,
        root: tree_sitter::Node,
        source: Seq<char>,
        module: Seq<char>,
    ) -> Seq<FunctionInfoView> {
        listed_under(self.compiled(), self.function_index(), file, root, source, module, false)
    }

    /// Takes a compiled query and looks up the capture name in it.
    pub fn with_query(query: tree_sitter::Query) -> (r: Result<AllFunctionsQuery, AmlError>)
        ensures
            match r {
                Ok(q) => q.compiled() == query && capture_index(query, FUNC_NAME_CAPTURE@) == Some(
                    q.function_index(),
                ),
                Err(e) => is_named_capture(
                    Err(e),
                    query,
                    FUNC_NAME_CAPTURE@,
                    FUNC_NAME_CAPTURE@,
                ),
            },
    {
        let func_name_idx = capture_named(&query, FUNC_NAME_CAPTURE, FUNC_NAME_CAPTURE)?;
        Ok(AllFunctionsQuery { query, func_name_idx })
    }

    /// Whether this is the query for every function, read by the index
    /// that its text has for the name of a function.
    pub open spec fn reads(&self) -> bool {
        compiled_from(self.compiled(), Language::Python, ALL_FUNCTIONS_QUERY@) && capture_index(
            self.compiled(),
            FUNC_NAME_CAPTURE@,
        ) == Some(self.function_index())
    }

    /// Compiles the query. It is built exactly when its text is a query
    /// that has the capture name of a function's name, and is then read by
    /// the index of that name. Where it is not built, the error tells why:
    /// the text is no query, or the name is missing.
    pub fn try_new() -> (r: Result<AllFunctionsQuery, AmlError>)
        ensures
            r is Ok <==> query_loads(Language::Python, ALL_FUNCTIONS_QUERY@, function_names()),
            match r {
                Ok(q) => q.reads(),
                Err(e) => is_query_failure(
                    e,
                    Language::Python,
                    ALL_FUNCTIONS_QUERY@,
                    function_names(),
                ),
            },
    {
        let query = new_query(Language::Python, ALL_FUNCTIONS_QUERY)?;
        proof {
            one_name_looked_up(query, Language::Python, ALL_FUNCTIONS_QUERY@, FUNC_NAME_CAPTURE@, FUNC_NAME_CAPTURE@);
        }
        AllFunctionsQuery::with_query(query)
    }

    /// Lists the functions defined under `root`, a node of the tree parsed
    /// from `source`.
    pub fn list_function_names_under(
        &self,
        file_name: &str,
        root: tree_sitter::Node,
        source: &str,
        module_name: &str,
    ) -> (list: Vec<FunctionInfo>)
        ensures
            infos_view(list@) == self.listed(file_name@, root, source@, module_name@),
            uniform(infos_view(list@), false),
            all_well_ranged(infos_view(list@)),
    {
        list_under(&self.query, self.func_name_idx, file_name, root, source, module_name, false)
    }

    /// Parses `source` and lists the functions it defines.
    pub fn list_function_names(&self, file_name: &str, source: &str, module_name: &str) -> (r:
        Result<Vec<FunctionInfo>, AmlError>)
        ensures
            r is Ok <==> grammar_loads(Language::Python),
            match r {
                Ok(list) => exists|tree: &tree_sitter::Tree|
                    parses(tree, Language::Python, source@) && infos_view(list@) == self.listed(
                        file_name@,
                        tree_root(tree),
                        source@,
                        module_name@,
                    ),
                Err(e) => is_parse_failure(e, Language::Python),
            },
            r matches Ok(list) ==> uniform(infos_view(list@), false) && all_well_ranged(
                infos_view(list@),
            ),
    {
        let tree = parse(Language::Python, source)?;
        Ok(self.list_function_names_under(file_name, root_of(&tree), source, module_name))
    }
}

/// Whether `listing` is what a file of a project adds to the listing of all
/// functions: what `query` lists under the root of a parse of the file, as
/// functions of the module of the file, and nothing where the file has no
/// parse, the parser not accepting the grammar.
pub open spec fn file_listing(
    query: tree_sitter::Query,
    function: u32,
    file: SourceFile,
    listing: Seq<FunctionInfoView>,
) -> bool {
    if grammar_loads(Language::Python) {
        exists|tree: &tree_sitter::Tree|
            parses(tree, Language::Python, file.source@) && listing == listed_under(
                query,
                function,
                file.file_name@,
                tree_root(tree),
                file.source@,
                file.module@,
                false,
            )
    } else {
        listing.len() == 0
    }
}

/// Whether `list` is the listing of all functions of a project by `query`:
/// one record per function, the last of those that the files give for it,
/// file by file.
pub open spec fn project_listing(
    query: tree_sitter::Query,
    function: u32,
    project: Seq<SourceFile>,
    list: Seq<FunctionInfoView>,
) -> bool {
    exists|found: Seq<Seq<FunctionInfoView>>|
        {
            &&& found.len() == project.len()
            &&& forall|k: int|
                0 <= k < found.len() ==> file_listing(query, function, project[k], #[trigger] found[k])
            &&& list == keyed(flat(found))
        }
}

/// The file name under which the functions of a single source are listed.
pub const SINGLE_FILE: &'static str = "<single file>";

/// The analysis of Python sources.
#[derive(Clone, Copy, Debug, Default)]
pub struct Impl {}

/// Whether `error` is what finding the name of the decorator in a source
/// fails with: the parser does not accept the grammar, or a parse of the
/// source does not import the decorator exactly once under a name that can
/// be read.
pub open spec fn decorator_failure(imports: AmImportQuery, source: Seq<char>, error: AmlError)
    -> bool {
    if grammar_loads(Language::Python) {
        error == AmlError::InvalidText && exists|tree: &tree_sitter::Tree|
            parses(tree, Language::Python, source) && imports.decorator(tree_root(tree), source)
                is Err
    } else {
        error == AmlError::CreateParser
    }
}

/// Whether `listing` is what the query for the decorator called
/// `decorator` lists under `root`.
pub open spec fn listed_with(
    decorator: Seq<char>,
    file: Seq<char>,
    root: tree_sitter::Node,
    source: Seq<char>,
    module: Seq<char>,
    listing: Seq<FunctionInfoView>,
) -> bool {
    exists|query: AmQuery|
        #[trigger] query.reads(AmQuery::query_text(decorator)) && listing == query.listed(
            file,
            root,
            source,
            module,
        )
}

/// Whether the functions that carry the decorator are listed under `root`:
/// the imports under it give no name for the decorator, or the query for
/// that name can be made.
pub open spec fn lists_decorated(imports: AmImportQuery, root: tree_sitter::Node, source: Seq<char>)
    -> bool {
    match imports.decorator(root, source) {
        Ok(decorator) => query_loads(
            Language::Python,
            AmQuery::query_text(decorator),
            function_names(),
        ),
        Err(_) => true,
    }
}

/// Whether `listing` lists the functions under `root` that carry the
/// decorator: what the query for the decorator lists, the decorator being
/// known under the name that the imports under `root` give, and nothing
/// where they give none.
pub open spec fn decorated_under(
    imports: AmImportQuery,
    file: Seq<char>,
    root: tree_sitter::Node,
    source: Seq<char>,
    module: Seq<char>,
    listing: Seq<FunctionInfoView>,
) -> bool {
    match imports.decorator(root, source) {
        Ok(decorator) => listed_with(decorator, file, root, source, module, listing),
        Err(_) => listing.len() == 0,
    }
}

/// Whether `error` is what listing the functions under `root` that carry
/// the decorator fails with: the error of the query for the decorator,
/// which cannot be made.
pub open spec fn decorated_failure(
    imports: AmImportQuery,
    root: tree_sitter::Node,
    source: Seq<char>,
    error: AmlError,
) -> bool {
    match imports.decorator(root, source) {
        Ok(decorator) => is_query_failure(
            error,
            Language::Python,
            AmQuery::query_text(decorator),
            function_names(),
        ),
        Err(_) => false,
    }
}

/// Whether `listing` is what a file of a project adds to the listing of
/// instrumented functions: the decorated functions of a parse of the file,
/// and nothing where the file has no parse or the query for its decorator
/// cannot be made.
pub open spec fn decorated_listing(
    imports: AmImportQuery,
    file: SourceFile,
    listing: Seq<FunctionInfoView>,
) -> bool {
    if grammar_loads(Language::Python) {
        exists|tree: &tree_sitter::Tree|
            parses(tree, Language::Python, file.source@) && if lists_decorated(
                imports,
                tree_root(tree),
                file.source@,
            ) {
                decorated_under(
                    imports,
                    file.file_name@,
                    tree_root(tree),
                    file.source@,
                    file.module@,
                    listing,
                )
            } else {
                listing.len() == 0
            }
    } else {
        listing.len() == 0
    }
}

/// Whether `list` is the listing of the instrumented functions of a
/// project: one record per function, the last of those that the files give
/// for it, file by file.
pub open spec fn decorated_project(
    imports: AmImportQuery,
    project: Seq<SourceFile>,
    list: Seq<FunctionInfoView>,
) -> bool {
    exists|found: Seq<Seq<FunctionInfoView>>|
        {
            &&& found.len() == project.len()
            &&& forall|k: int|
                0 <= k < found.len() ==> decorated_listing(imports, project[k], #[trigger] found[k])
            &&& list == keyed(flat(found))
        }
}

/// Whether `listing` is the listing of the decorated functions of a single
/// source: the decorated functions of a parse of the source, and nothing
/// where the source has no parse.
pub open spec fn single_listing(
    imports: AmImportQuery,
    source: Seq<char>,
    listing: Seq<FunctionInfoView>,
) -> bool {
    if grammar_loads(Language::Python) {
        exists|tree: &tree_sitter::Tree|
            {
                &&& parses(tree, Language::Python, source)
                &&& lists_decorated(imports, tree_root(tree), source)
                &&& decorated_under(imports, SINGLE_FILE@, tree_root(tree), source, ""@, listing)
            }
    } else {
        listing.len() == 0
    }
}

/// Whether `error` is what the listing of the decorated functions of a
/// single source fails with: the error of the query for the decorator of a
/// parse of the source, which cannot be made.
pub open spec fn single_failure(imports: AmImportQuery, source: Seq<char>, error: AmlError)
    -> bool {
    grammar_loads(Language::Python) && exists|tree: &tree_sitter::Tree|
        {
            &&& parses(tree, Language::Python, source)
            &&& !lists_decorated(imports, tree_root(tree), source)
            &&& decorated_failure(imports, tree_root(tree), source, error)
        }
}

/// Lists the functions under `root` that carry the decorator: finds the
/// name under which the source imports the decorator, makes the query for
/// that name and lists what it finds. A source that gives no name for the
/// decorator has no such function. The listing fails exactly when the query
/// for the decorator cannot be made.
fn list_decorated(
    imports: &AmImportQuery,
    file_name: &str,
    root: tree_sitter::Node,
    source: &str,
    module_name: &str,
) -> (r: Result<Vec<FunctionInfo>, AmlError>)
    ensures
        r is Ok <==> lists_decorated(*imports, root, source@),
        match r {
            Ok(list) => uniform(infos_view(list@), true) && decorated_under(
                *imports,
                file_name@,
                root,
                source@,
                module_name@,
                infos_view(list@),
            ),
            Err(e) => decorated_failure(*imports, root, source@, e),
        },
{
    let decorator_name = match imports.get_decorator_name_under(root, source) {
        Ok(name) => name,
        Err(_) => {
            let list: Vec<FunctionInfo> = Vec::new();
            assert(infos_view(list@).len() == 0);
            return Ok(list);
        },
    };
    let query = AmQuery::try_new(decorator_name.as_str())?;
    let list = query.list_function_names_under(file_name, root, source, module_name);
    assert(query.reads(AmQuery::query_text(decorator_name@)));
    Ok(list)
}

impl ListAmFunctions for Impl {
    open spec fn lists_instrumented(project: Seq<SourceFile>) -> bool {
        query_loads(Language::Python, IMPORT_QUERY@, import_names())
    }

    open spec fn lists_defined(project: Seq<SourceFile>) -> bool {
        query_loads(Language::Python, ALL_FUNCTIONS_QUERY@, function_names())
    }

    open spec fn instrumented_in(project: Seq<SourceFile>, list: Seq<FunctionInfoView>) -> bool {
        exists|imports: AmImportQuery|
            imports.reads() && #[trigger] decorated_project(imports, project, list)
    }

    open spec fn defined_in(project: Seq<SourceFile>, list: Seq<FunctionInfoView>) -> bool {
        exists|query: AllFunctionsQuery|
            query.reads() && #[trigger] project_listing(
                query.compiled(),
                query.function_index(),
                project,
                list,
            )
    }

    open spec fn instrumented_in_source(source: Seq<char>, list: Seq<FunctionInfoView>) -> bool {
        exists|imports: AmImportQuery|
            imports.reads() && #[trigger] single_listing(imports, source, list)
    }

    open spec fn defined_in_source(source: Seq<char>, list: Seq<FunctionInfoView>) -> bool {
        exists|query: AllFunctionsQuery, tree: &tree_sitter::Tree|
            {
                &&& query.reads()
                &&& parses(tree, Language::Python, source)
                &&& list == #[trigger] query.listed(SINGLE_FILE@, tree_root(tree), source, ""@)
            }
    }

    open spec fn instrumented_in_failure(project: Seq<SourceFile>, error: AmlError) -> bool {
        is_query_failure(error, Language::Python, IMPORT_QUERY@, import_names())
    }

    open spec fn defined_in_failure(project: Seq<SourceFile>, error: AmlError) -> bool {
        is_query_failure(error, Language::Python, ALL_FUNCTIONS_QUERY@, function_names())
    }

    open spec fn instrumented_failure(source: Seq<char>, error: AmlError) -> bool {
        if query_loads(Language::Python, IMPORT_QUERY@, import_names()) {
            exists|imports: AmImportQuery|
                imports.reads() && #[trigger] single_failure(imports, source, error)
        } else {
            is_query_failure(error, Language::Python, IMPORT_QUERY@, import_names())
        }
    }

    open spec fn defined_failure(source: Seq<char>, error: AmlError) -> bool {
        if query_loads(Language::Python, ALL_FUNCTIONS_QUERY@, function_names()) {
            is_parse_failure(error, Language::Python)
        } else {
            is_query_failure(error, Language::Python, ALL_FUNCTIONS_QUERY@, function_names())
        }
    }

    /// The listing of the project by the queries for the decorator. A file
    /// adds nothing where it has no parse, and where the query for its
    /// decorator cannot be made.
    fn list_autometrics_functions(&mut self, project: &Vec<SourceFile>) -> (r: Result<
        Vec<FunctionInfo>,
        AmlError,
    >)
    {
        let import_query = AmImportQuery::try_new()?;
        let mut list: Vec<FunctionInfo> = Vec::new();
        let ghost mut found: Seq<Seq<FunctionInfoView>> = Seq::empty();
        let mut i: usize = 0;
        assert(infos_view(list@) == flat(found));
        while i < project.len()
            invariant
                i <= project.len(),
                found.len() == i,
                forall|k: int|
                    0 <= k < found.len() ==> decorated_listing(
                        import_query,
                        project@[k],
                        #[trigger] found[k],
                    ),
                infos_view(list@) == flat(found),
                uniform(infos_view(list@), true),
            decreases project.len() - i,
        {
            let file = &project[i];
            let mut names = match parse(Language::Python, file.source.as_str()) {
                Ok(tree) => match list_decorated(
                    &import_query,
                    file.file_name.as_str(),
                    root_of(&tree),
                    file.source.as_str(),
                    file.module.as_str(),
                ) {
                    Ok(names) => names,
                    Err(_) => Vec::new(),
                },
                Err(_) => Vec::new(),
            };
            let ghost before = infos_view(list@);
            let ghost added = infos_view(names@);
            assert(decorated_listing(import_query, project@[i as int], added));
            list.append(&mut names);
            proof {
                uniform_joined(before, added, true);
                assert(infos_view(list@) == before + added);
                assert(found.push(added).drop_last() == found);
                found = found.push(added);
            }
            i += 1;
        }
        proof {
            crate::merge::keyed_uniform(infos_view(list@), true);
        }
        let list = crate::merge::key_functions(list);
        assert(decorated_project(import_query, project@, infos_view(list@)));
        Ok(list)
    }

    /// The listing of the project by the query for all functions.
    fn list_all_function_definitions(&mut self, project: &Vec<SourceFile>) -> (r: Result<
        Vec<FunctionInfo>,
        AmlError,
    >)
    {
        let query = AllFunctionsQuery::try_new()?;
        let mut list: Vec<FunctionInfo> = Vec::new();
        let ghost mut found: Seq<Seq<FunctionInfoView>> = Seq::empty();
        let mut i: usize = 0;
        assert(infos_view(list@) == flat(found));
        while i < project.len()
            invariant
                i <= project.len(),
                found.len() == i,
                forall|k: int|
                    0 <= k < found.len() ==> file_listing(
                        query.query,
                        query.func_name_idx,
                        project@[k],
                        #[trigger] found[k],
                    ),
                infos_view(list@) == flat(found),
                uniform(infos_view(list@), false),
            decreases project.len() - i,
        {
            let file = &project[i];
            let mut names = match parse(Language::Python, file.source.as_str()) {
                Ok(tree) => query.list_function_names_under(
                    file.file_name.as_str(),
                    root_of(&tree),
                    file.source.as_str(),
                    file.module.as_str(),
                ),
                Err(_) => Vec::new(),
            };
            let ghost before = infos_view(list@);
            let ghost added = infos_view(names@);
            list.append(&mut names);
            proof {
                uniform_joined(before, added, false);
                assert(infos_view(list@) == before + added);
                assert(found.push(added).drop_last() == found);
                found = found.push(added);
            }
            i += 1;
        }
        proof {
            crate::merge::keyed_uniform(infos_view(list@), false);
        }
        let list = crate::merge::key_functions(list);
        assert(project_listing(query.query, query.func_name_idx, project@, infos_view(list@)));
        Ok(list)
    }

    /// The listing of the source by the query for the decorator, as
    /// functions of the module without a name. A source that has no parse,
    /// or in which the name of the decorator cannot be found, has no
    /// instrumented function. The listing fails when the query for the
    /// import or the query for the decorator cannot be made.
    fn list_autometrics_functions_in_single_file(&mut self, source_code: &str) -> (r: Result<
        Vec<FunctionInfo>,
        AmlError,
    >)
    {
        let import_query = AmImportQuery::try_new()?;
        let tree = match parse(Language::Python, source_code) {
            Ok(tree) => tree,
            Err(_) => {
                let list: Vec<FunctionInfo> = Vec::new();
                assert(infos_view(list@).len() == 0);
                assert(single_listing(import_query, source_code@, infos_view(list@)));
                return Ok(list);
            },
        };
        match list_decorated(&import_query, SINGLE_FILE, root_of(&tree), source_code, "") {
            Ok(list) => {
                assert(single_listing(import_query, source_code@, infos_view(list@)));
                Ok(list)
            },
            Err(e) => {
                assert(single_failure(import_query, source_code@, e));
                Err(e)
            },
        }
    }

    /// The listing of the source by the query for all functions, as
    /// functions of the module without a name.
    fn list_all_function_definitions_in_single_file(&mut self, source_code: &str) -> (r: Result<
        Vec<FunctionInfo>,
        AmlError,
    >)
        ensures
            r is Ok <==> query_loads(Language::Python, ALL_FUNCTIONS_QUERY@, function_names())
                && grammar_loads(Language::Python),
    {
        let query = AllFunctionsQuery::try_new()?;
        query.list_function_names(SINGLE_FILE, source_code, "")
    }
}

} // verus!
