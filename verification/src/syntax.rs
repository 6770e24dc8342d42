//! The boundary to the tree-sitter parsing library: its types, what its
//! functions are trusted to return, and the small verified steps that every
//! analysis shares.

use crate::model::{AmlError, Language, Position};
use crate::text::ends_with;
use vstd::prelude::*;
use vstd::string::StringExecFns;
use vstd::utf8::{decode_utf8, encode_utf8, valid_utf8};

verus! {

/// `tree_sitter::Tree`, a parsed source. Nothing of its inside is known here.
#[verifier::external_type_specification]
#[verifier::external_body]
pub struct ExTree(tree_sitter::Tree);

/// `tree_sitter::Node`, a node of a parsed source. What is known of a node is
/// what the functions below give of it.
#[verifier::external_type_specification]
#[verifier::external_body]
pub struct ExNode<'a>(tree_sitter::Node<'a>);

/// `tree_sitter::Query`, a compiled query. Nothing of its inside is known
/// here.
#[verifier::external_type_specification]
#[verifier::external_body]
pub struct ExQuery(tree_sitter::Query);

/// `tree_sitter::Parser`, carried from its making to its use.
#[verifier::external_type_specification]
#[verifier::external_body]
pub struct ExParser(tree_sitter::Parser);

/// `tree_sitter::LanguageError`, the refusal of a grammar.
#[verifier::external_type_specification]
#[verifier::external_body]
pub struct ExLanguageError(tree_sitter::LanguageError);

/// `tree_sitter::QueryError`, the refusal of a query text.
#[verifier::external_type_specification]
#[verifier::external_body]
pub struct ExQueryError(tree_sitter::QueryError);

/// One captured node of a query match, with the index of its capture name.
pub struct Capture<'t> {
    pub index: u32,
    pub node: tree_sitter::Node<'t>,
}

/// The name of a node's grammar rule, as `Node::kind` gives it.
pub uninterp spec fn node_kind(node: tree_sitter::Node) -> Seq<char>;

/// The chain of nodes above a node, nearest first, ending with the root of
/// its tree. `Node::parent` gives its first element.
pub uninterp spec fn node_ancestors(node: tree_sitter::Node) -> Seq<tree_sitter::Node>;

/// The number by which `Node`'s `==` tells nodes apart, as `Node::id` gives it.
pub uninterp spec fn node_id(node: tree_sitter::Node) -> usize;

/// Where a node starts, as `Node::start_position` gives it.
pub uninterp spec fn node_start(node: tree_sitter::Node) -> Position;

/// Where a node ends, as `Node::end_position` gives it.
pub uninterp spec fn node_end(node: tree_sitter::Node) -> Position;

/// The offset of a node's first byte, as `Node::start_byte` gives it.
pub uninterp spec fn node_byte_start(node: tree_sitter::Node) -> usize;

/// The offset after a node's last byte, as `Node::end_byte` gives it.
pub uninterp spec fn node_byte_end(node: tree_sitter::Node) -> usize;

/// A node's named child at an index, as `Node::named_child` gives it.
pub uninterp spec fn node_named_child(node: tree_sitter::Node, index: usize) -> Option<
    tree_sitter::Node,
>;

/// The root node of a tree, as `Tree::root_node` gives it.
pub uninterp spec fn tree_root(tree: &tree_sitter::Tree) -> tree_sitter::Node;

/// The index of a capture name in a query, as `Query::capture_index_for_name`
/// gives it.
pub uninterp spec fn capture_index(query: tree_sitter::Query, name: Seq<char>) -> Option<u32>;

/// The matches of a query under a node of the tree parsed from `source`, in
/// the order in which `QueryCursor::matches` yields them, each with its
/// captures in order.
pub uninterp spec fn cursor_matches(
    query: tree_sitter::Query,
    node: tree_sitter::Node,
    source: Seq<char>,
) -> Seq<Seq<Capture>>;

/// Whether the parser accepts the grammar of a language, which it does
/// when the grammar was generated for its version of the library.
pub uninterp spec fn grammar_loads(language: Language) -> bool;

/// Whether a text is a query on sources of a language, as `Query::new`
/// tells of a text that ends in a line feed.
pub uninterp spec fn query_compiles(language: Language, text: Seq<char>) -> bool;

/// The index that the query compiled from a text has for a capture name, as
/// `Query::capture_index_for_name` gives it for a query that `Query::new`
/// made of the text.
pub uninterp spec fn query_capture(language: Language, text: Seq<char>, name: Seq<char>) -> Option<
    u32,
>;

/// The grammar that a parser was last given with `Parser::set_language`, if
/// it was given one.
pub uninterp spec fn parser_language(parser: tree_sitter::Parser) -> Option<Language>;

/// Whether a parser can give up on a text: it has a time limit, or a flag
/// by which to stop it.
pub uninterp spec fn parser_limited(parser: tree_sitter::Parser) -> bool;

/// Whether a tree is what `Parser::parse` made of a source with the grammar
/// of a language.
pub uninterp spec fn parsed_from(tree: &tree_sitter::Tree, language: Language, source: Seq<char>)
    -> bool;

/// A query text as it is handed to the compiler: as it is where it ends in
/// a line feed, and with a line feed behind it where it does not. White
/// space at its end changes nothing in what a query text says.
pub open spec fn ended(text: Seq<char>) -> Seq<char> {
    if text.len() > 0 && text.last() == '\n' {
        text
    } else {
        text.push('\n')
    }
}

/// Whether `text`, as it is handed to the compiler, is a query on sources
/// of a language.
pub open spec fn is_query(language: Language, text: Seq<char>) -> bool {
    query_compiles(language, ended(text))
}

/// Whether `query` was compiled from `text`: it has the capture names of the
/// text, under their indices.
pub open spec fn compiled_from(query: tree_sitter::Query, language: Language, text: Seq<char>)
    -> bool {
    forall|name: Seq<char>|
        #[trigger] capture_index(query, name) == query_capture(language, ended(text), name)
}

/// Whether the query of `text` has each of the capture names `names`.
pub open spec fn has_captures(
    language: Language,
    text: Seq<char>,
    names: Seq<(Seq<char>, Seq<char>)>,
) -> bool {
    forall|i: int|
        0 <= i < names.len() ==> query_capture(language, ended(text), (#[trigger] names[i]).0)
            is Some
}

/// Whether a query can be made of `text` and read by the capture names
/// `names`: the text is a query, and the query has each of the names.
pub open spec fn query_loads(
    language: Language,
    text: Seq<char>,
    names: Seq<(Seq<char>, Seq<char>)>,
) -> bool {
    is_query(language, text) && has_captures(language, text, names)
}

/// Whether `error` is the failure to make a query of `text` that is read by
/// the capture names `names`: `CreateQuery` where the text is no query, and
/// otherwise the first of the names that the query lacks, told under the
/// name by which it is reported.
pub open spec fn is_query_failure(
    error: AmlError,
    language: Language,
    text: Seq<char>,
    names: Seq<(Seq<char>, Seq<char>)>,
) -> bool {
    if is_query(language, text) {
        exists|at: int|
            {
                &&& 0 <= at < names.len()
                &&& query_capture(language, ended(text), (#[trigger] names[at]).0) is None
                &&& forall|j: int|
                    0 <= j < at ==> query_capture(
                        language,
                        ended(text),
                        (#[trigger] names[j]).0,
                    ) is Some
                &&& error matches AmlError::MissingNamedCapture(reported)
                &&& reported@ == names[at].1
            }
    } else {
        error == AmlError::CreateQuery
    }
}

/// Whether `error` is the failure to parse a source of a language: the
/// parser does not accept the grammar. A parser that has its grammar, and
/// neither a time limit nor a flag by which to stop it, parses every source.
pub open spec fn is_parse_failure(error: AmlError, language: Language) -> bool {
    !grammar_loads(language) && error == AmlError::CreateParser
}

/// Whether `tree` is a parse of `source` as a text of `language`.
pub open spec fn parses(tree: &tree_sitter::Tree, language: Language, source: Seq<char>) -> bool {
    grammar_loads(language) && parsed_from(tree, language, source)
}

/// The matches of a query under a node whose bytes lie in `source`. A node
/// that reaches beyond the source has no matches.
pub open spec fn query_matches(
    query: tree_sitter::Query,
    node: tree_sitter::Node,
    source: Seq<char>,
) -> Seq<Seq<Capture>> {
    if node_byte_end(node) <= encode_utf8(source).len() {
        cursor_matches(query, node, source)
    } else {
        Seq::empty()
    }
}

/// The node directly above a node, if it has one.
pub open spec fn node_parent(node: tree_sitter::Node) -> Option<tree_sitter::Node> {
    if node_ancestors(node).len() == 0 {
        None
    } else {
        Some(node_ancestors(node)[0])
    }
}

/// The number of bytes a node spans.
pub open spec fn node_len(node: tree_sitter::Node) -> nat {
    if node_byte_start(node) <= node_byte_end(node) {
        (node_byte_end(node) - node_byte_start(node)) as nat
    } else {
        0
    }
}

/// The text a node spans in `source`, when its bytes lie in the source and
/// are valid text.
pub open spec fn node_text(node: tree_sitter::Node, source: Seq<char>) -> Option<Seq<char>> {
    let bytes = encode_utf8(source);
    let start = node_byte_start(node) as int;
    let end = node_byte_end(node) as int;
    if start <= end <= bytes.len() && valid_utf8(bytes.subrange(start, end)) {
        Some(decode_utf8(bytes.subrange(start, end)))
    } else {
        None
    }
}

/// The captures of the matches in `found`.
pub open spec fn matches_view<'t>(found: Seq<Vec<Capture<'t>>>) -> Seq<Seq<Capture<'t>>> {
    found.map_values(|m: Vec<Capture<'t>>| m@)
}

/// `Parser::new`: a parser with no grammar yet, no time limit and no flag
/// by which to stop it.
#[verifier::external_body]
pub(crate) fn blank_parser() -> (parser: tree_sitter::Parser)
    ensures
        parser_language(parser) is None,
        !parser_limited(parser),
{
    tree_sitter::Parser::new()
}

/// `Parser::set_language` with the grammar of `language`. The call fails
/// exactly when the grammar was generated for a version of the library that
/// this one does not read, which depends on the grammar alone. Where it
/// succeeds the parser has the grammar, and where it fails the parser is left
/// as it was.
#[verifier::external_body]
pub(crate) fn set_grammar(parser: &mut tree_sitter::Parser, language: Language) -> (r: Result<
    (),
    tree_sitter::LanguageError,
>)
    ensures
        r is Ok == grammar_loads(language),
        r is Ok ==> parser_language(*final(parser)) == Some(language),
        r is Err ==> parser_language(*final(parser)) == parser_language(*old(parser)),
        parser_limited(*final(parser)) == parser_limited(*old(parser)),
{
    parser.set_language(
        match language {
            Language::Rust => tree_sitter_rust::language(),
            Language::Go => tree_sitter_go::language(),
            Language::Typescript => tree_sitter_typescript::language_typescript(),
            Language::Python => tree_sitter_python::language(),
        },
    )
}

/// `Parser::parse` on a whole text, with no earlier tree. The call gives no
/// tree for three reasons: the parser has no grammar, a time limit ran out,
/// or a flag was raised to stop it. A parser that has neither a time limit
/// nor such a flag gives a tree exactly when it has a grammar, and the tree
/// is the parse of the text with that grammar.
#[verifier::external_body]
pub(crate) fn parse_text(parser: &mut tree_sitter::Parser, source: &str) -> (r: Option<
    tree_sitter::Tree,
>)
    requires
        !parser_limited(*old(parser)),
    ensures
        r is Some <==> parser_language(*old(parser)) is Some,
        r matches Some(tree) ==> parser_language(*old(parser)) matches Some(language)
            && parsed_from(&tree, language, source@),
{
    parser.parse(source, None)
}

/// `Tree::root_node`.
#[verifier::external_body]
pub(crate) fn root_of<'t>(tree: &'t tree_sitter::Tree) -> (root: tree_sitter::Node<'t>)
    ensures
        root == tree_root(tree),
{
    tree.root_node()
}

/// `Node::kind`.
#[verifier::external_body]
pub(crate) fn kind_of(node: tree_sitter::Node) -> (kind: &'static str)
    ensures
        kind@ == node_kind(node),
{
    node.kind()
}

/// `Node::parent`: the nearest of the nodes above, and the nodes above it are
/// the rest of the chain.
#[verifier::external_body]
pub(crate) fn parent_of<'t>(node: tree_sitter::Node<'t>) -> (parent: Option<
    tree_sitter::Node<'t>,
>)
    ensures
        parent == node_parent(node),
        parent matches Some(p) ==> node_ancestors(p) == node_ancestors(node).skip(1),
{
    node.parent()
}

/// `Node::id`.
#[verifier::external_body]
pub(crate) fn id_of(node: tree_sitter::Node) -> (id: usize)
    ensures
        id == node_id(node),
{
    node.id()
}

/// `Node::start_position`.
#[verifier::external_body]
pub(crate) fn start_of(node: tree_sitter::Node) -> (start: Position)
    ensures
        start == node_start(node),
{
    let point = node.start_position();
    Position { line: point.row, column: point.column }
}

/// `Node::end_position`. The end of a node is its start moved on by what the
/// node spans, so it does not come before the start; a node that spans
/// nothing ends where it starts.
#[verifier::external_body]
pub(crate) fn end_of(node: tree_sitter::Node) -> (end: Position)
    ensures
        end == node_end(node),
        node_start(node).line < end.line || (node_start(node).line == end.line && node_start(
            node,
        ).column <= end.column),
{
    let point = node.end_position();
    Position { line: point.row, column: point.column }
}

/// `Node::start_byte`.
#[verifier::external_body]
pub(crate) fn byte_start_of(node: tree_sitter::Node) -> (start: usize)
    ensures
        start == node_byte_start(node),
{
    node.start_byte()
}

/// `Node::end_byte`.
#[verifier::external_body]
pub(crate) fn byte_end_of(node: tree_sitter::Node) -> (end: usize)
    ensures
        end == node_byte_end(node),
{
    node.end_byte()
}

/// `Node::named_child`.
#[verifier::external_body]
pub(crate) fn named_child_of<'t>(node: tree_sitter::Node<'t>, index: usize) -> (child: Option<
    tree_sitter::Node<'t>,
>)
    ensures
        child == node_named_child(node, index),
{
    node.named_child(index)
}

/// `Node::utf8_text`: the bytes of the source that the node spans, decoded.
/// The call slices the source, so the node's bytes must lie in it. It fails
/// exactly when those bytes are not valid UTF-8.
#[verifier::external_body]
pub(crate) fn utf8_text_of<'s>(node: tree_sitter::Node, source: &'s str) -> (text: Option<
    &'s str,
>)
    requires
        node_byte_start(node) <= node_byte_end(node) <= encode_utf8(source@).len(),
    ensures
        match text {
            Some(t) => valid_utf8(
                encode_utf8(source@).subrange(
                    node_byte_start(node) as int,
                    node_byte_end(node) as int,
                ),
            ) && encode_utf8(t@) == encode_utf8(source@).subrange(
                node_byte_start(node) as int,
                node_byte_end(node) as int,
            ),
            None => !valid_utf8(
                encode_utf8(source@).subrange(
                    node_byte_start(node) as int,
                    node_byte_end(node) as int,
                ),
            ),
        },
{
    node.utf8_text(source.as_bytes()).ok()
}

/// `Query::new` with the grammar of `language`. The call fails exactly when
/// the text is no query of that grammar, which depends on the grammar and
/// the text alone, and so do the capture names of the query that it makes
/// and their indices. To tell of a name that the grammar does not know, the
/// call looks for the first character behind the name that is no letter, no
/// digit, no `_` and no `-`, and does not return when the name runs to the
/// end of the text: so the text ends in a line feed.
#[verifier::external_body]
pub(crate) fn compile_query(language: Language, text: &str) -> (r: Result<
    tree_sitter::Query,
    tree_sitter::QueryError,
>)
    requires
        text@.len() > 0,
        text@.last() == '\n',
    ensures
        r is Ok == query_compiles(language, text@),
        r matches Ok(query) ==> forall|name: Seq<char>|
            #[trigger] capture_index(query, name) == query_capture(language, text@, name),
{
    tree_sitter::Query::new(
        match language {
            Language::Rust => tree_sitter_rust::language(),
            Language::Go => tree_sitter_go::language(),
            Language::Typescript => tree_sitter_typescript::language_typescript(),
            Language::Python => tree_sitter_python::language(),
        },
        text,
    )
}

/// `Query::capture_index_for_name`.
#[verifier::external_body]
pub(crate) fn capture_index_of(query: &tree_sitter::Query, name: &str) -> (index: Option<u32>)
    ensures
        index == capture_index(*query, name@),
{
    query.capture_index_for_name(name)
}

/// `QueryCursor::matches` on a fresh cursor, run to its end, each match's
/// captures copied out as they come. The cursor reads the text of captured
/// nodes from the source, so the node, which spans all the nodes below it,
/// must not reach beyond the source.
#[verifier::external_body]
pub(crate) fn run_cursor<'t>(
    query: &tree_sitter::Query,
    node: tree_sitter::Node<'t>,
    source: &str,
) -> (found: Vec<Vec<Capture<'t>>>)
    requires
        node_byte_end(node) <= encode_utf8(source@).len(),
    ensures
        matches_view(found@) == cursor_matches(*query, node, source@),
{
    let mut cursor = tree_sitter::QueryCursor::new();
    cursor.matches(query, node, source.as_bytes()).map(
        |m| m.captures.iter().map(|c| Capture { index: c.index, node: c.node }).collect(),
    ).collect()
}

/// Runs a query under a node of the tree parsed from `source`. A node that
/// reaches beyond the source has no matches.
pub fn run_query<'t>(query: &tree_sitter::Query, node: tree_sitter::Node<'t>, source: &str) -> (found:
    Vec<Vec<Capture<'t>>>)
    ensures
        matches_view(found@) == query_matches(*query, node, source@),
{
    if byte_end_of(node) <= source.as_bytes().len() {
        run_cursor(query, node, source)
    } else {
        let found: Vec<Vec<Capture<'t>>> = Vec::new();
        assert(matches_view(found@) == Seq::<Seq<Capture<'t>>>::empty());
        found
    }
}

/// A parser for `language`. None is made exactly when the parser does not
/// accept the grammar.
pub fn new_parser(language: Language) -> (r: Result<tree_sitter::Parser, AmlError>)
    ensures
        r is Ok <==> grammar_loads(language),
        match r {
            Ok(parser) => parser_language(parser) == Some(language) && !parser_limited(parser),
            Err(e) => e == AmlError::CreateParser,
        },
{
    let mut parser = blank_parser();
    match set_grammar(&mut parser, language) {
        Ok(_) => Ok(parser),
        Err(_) => Err(AmlError::CreateParser),
    }
}

/// Parses `source` as a text of `language`. Every source has a tree, one
/// with error nodes where the text departs from the grammar; the parse fails
/// exactly when the parser does not accept the grammar.
pub fn parse(language: Language, source: &str) -> (r: Result<tree_sitter::Tree, AmlError>)
    ensures
        r is Ok <==> grammar_loads(language),
        match r {
            Ok(tree) => parses(&tree, language, source@),
            Err(e) => is_parse_failure(e, language),
        },
{
    let mut parser = new_parser(language)?;
    match parse_text(&mut parser, source) {
        Some(tree) => Ok(tree),
        // A parser that has its grammar gives a tree, so this arm is not taken.
        None => Err(AmlError::Parsing),
    }
}

/// Compiles `text` as a query on sources of `language`, with a line feed
/// behind it where it does not end in one. No query is made exactly when
/// the text is none.
pub fn new_query(language: Language, text: &str) -> (r: Result<tree_sitter::Query, AmlError>)
    ensures
        r is Ok <==> is_query(language, text@),
        match r {
            Ok(query) => compiled_from(query, language, text@),
            Err(e) => e == AmlError::CreateQuery,
        },
{
    proof {
        reveal_strlit("\n");
        assert("\n"@ == seq!['\n']);
        if text@.len() > 0 {
            assert(text@.subrange(text@.len() - 1, text@.len() as int) == seq![text@.last()]);
        }
    }
    let compiled = if ends_with(text, "\n") {
        assert(text@.len() > 0 && text@.last() == '\n') by {
            assert(text@.subrange(text@.len() - 1, text@.len() as int)[0] == '\n');
        }
        compile_query(language, text)
    } else {
        assert(!(text@.len() > 0 && text@.last() == '\n'));
        let whole = text.to_owned().concat("\n");
        assert(whole@ == text@.push('\n'));
        compile_query(language, whole.as_str())
    };
    match compiled {
        Ok(query) => Ok(query),
        Err(_) => Err(AmlError::CreateQuery),
    }
}

/// Whether `r` is what looking up `name` in `query` gives, the missing name
/// told as `reported`.
pub open spec fn is_named_capture(
    r: Result<u32, AmlError>,
    query: tree_sitter::Query,
    name: Seq<char>,
    reported: Seq<char>,
) -> bool {
    match r {
        Ok(index) => capture_index(query, name) == Some(index),
        Err(AmlError::MissingNamedCapture(missing)) => capture_index(query, name) is None
            && missing@ == reported,
        Err(_) => false,
    }
}

/// The index of the capture called `name`, or the error that names
/// `reported` as missing.
pub fn capture_named(query: &tree_sitter::Query, name: &str, reported: &str) -> (r: Result<
    u32,
    AmlError,
>)
    ensures
        is_named_capture(r, *query, name@, reported@),
{
    match capture_index_of(query, name) {
        Some(index) => Ok(index),
        None => Err(AmlError::MissingNamedCapture(reported.to_owned())),
    }
}

/// The one capture name `name`, reported as `reported` when it is missing.
pub open spec fn one_name(name: Seq<char>, reported: Seq<char>) -> Seq<(Seq<char>, Seq<char>)> {
    seq![(name, reported)]
}

/// What looking up one capture name in a query gives is what the text of
/// the query has for the name.
pub proof fn one_name_looked_up(
    query: tree_sitter::Query,
    language: Language,
    text: Seq<char>,
    name: Seq<char>,
    reported: Seq<char>,
)
    requires
        is_query(language, text),
        compiled_from(query, language, text),
    ensures
        capture_index(query, name) is Some <==> query_loads(
            language,
            text,
            one_name(name, reported),
        ),
        forall|e: AmlError| #[trigger]
            is_named_capture(Err(e), query, name, reported) ==> is_query_failure(
                e,
                language,
                text,
                one_name(name, reported),
            ),
{
    let names = one_name(name, reported);
    assert(names[0] == (name, reported));
    assert(capture_index(query, name) == query_capture(language, ended(text), name));
}

/// The capture names of `names`, each with the name under which it is
/// reported when it is missing.
pub open spec fn names_view(names: Seq<(&'static str, &'static str)>) -> Seq<
    (Seq<char>, Seq<char>),
> {
    names.map_values(|pair: (&'static str, &'static str)| (pair.0@, pair.1@))
}

/// `indices` are the indices of the capture names `names` in `query`, in
/// order.
pub open spec fn names_found(
    query: tree_sitter::Query,
    names: Seq<(Seq<char>, Seq<char>)>,
    indices: Seq<u32>,
) -> bool {
    &&& indices.len() == names.len()
    &&& forall|i: int|
        0 <= i < names.len() ==> capture_index(query, (#[trigger] names[i]).0) == Some(
            indices[i],
        )
}

/// `error` reports the first of the capture names `names` that `query`
/// lacks.
pub open spec fn name_missing(
    query: tree_sitter::Query,
    names: Seq<(Seq<char>, Seq<char>)>,
    error: AmlError,
) -> bool {
    exists|i: int|
        {
            &&& 0 <= i < names.len()
            &&& capture_index(query, (#[trigger] names[i]).0) is None
            &&& forall|j: int|
                0 <= j < i ==> capture_index(query, (#[trigger] names[j]).0) is Some
            &&& error matches AmlError::MissingNamedCapture(reported)
            &&& reported@ == names[i].1
        }
}

/// Looks up the capture names `names` in `query`, in order, and stops at the
/// first that is missing.
pub fn capture_indices(query: &tree_sitter::Query, names: &Vec<(&'static str, &'static str)>) -> (r:
    Result<Vec<u32>, AmlError>)
    ensures
        match r {
            Ok(indices) => names_found(*query, names_view(names@), indices@),
            Err(e) => name_missing(*query, names_view(names@), e),
        },
{
    let mut indices: Vec<u32> = Vec::new();
    let mut i: usize = 0;
    while i < names.len()
        invariant
            i <= names.len(),
            indices.len() == i,
            forall|j: int|
                0 <= j < i ==> capture_index(*query, (#[trigger] names_view(names@)[j]).0) == Some(
                    indices@[j],
                ),
        decreases names.len() - i,
    {
        let pair = names[i];
        assert(names_view(names@)[i as int] == (pair.0@, pair.1@));
        match capture_named(query, pair.0, pair.1) {
            Ok(index) => {
                indices.push(index);
            },
            Err(e) => {
                return Err(e);
            },
        }
        i += 1;
    }
    Ok(indices)
}

/// The text a node spans in `source`, or nothing when its bytes do not lie in
/// the source or are not valid text.
pub fn text_of(node: tree_sitter::Node, source: &str) -> (text: Option<String>)
    ensures
        match text {
            Some(t) => node_text(node, source@) == Some(t@),
            None => node_text(node, source@) is None,
        },
{
    let start = byte_start_of(node);
    let end = byte_end_of(node);
    if start <= end && end <= source.as_bytes().len() {
        match utf8_text_of(node, source) {
            Some(t) => {
                proof {
                    vstd::utf8::encode_utf8_decode_utf8(t@);
                }
                Some(t.to_owned())
            },
            None => None,
        }
    } else {
        None
    }
}

/// The first node of a match that was captured under `index`.
pub open spec fn first_capture(captures: Seq<Capture>, index: u32) -> Option<tree_sitter::Node>
    decreases captures.len(),
{
    if captures.len() == 0 {
        None
    } else if captures[0].index == index {
        Some(captures[0].node)
    } else {
        first_capture(captures.skip(1), index)
    }
}

/// The first node of a match that was captured under `index`.
pub fn first_node<'t>(captures: &Vec<Capture<'t>>, index: u32) -> (node: Option<
    tree_sitter::Node<'t>,
>)
    ensures
        node == first_capture(captures@, index),
{
    let mut i: usize = 0;
    assert(captures@.skip(0) == captures@);
    while i < captures.len()
        invariant
            i <= captures.len(),
            first_capture(captures@, index) == first_capture(captures@.skip(i as int), index),
        decreases captures.len() - i,
    {
        if captures[i].index == index {
            return Some(captures[i].node);
        }
        assert(captures@.skip(i as int).skip(1) == captures@.skip(i as int + 1));
        i += 1;
    }
    None
}

/// Tells whether two nodes are the same node of a tree.
pub fn same_node(a: tree_sitter::Node, b: tree_sitter::Node) -> (r: bool)
    ensures
        r == (node_id(a) == node_id(b)),
{
    id_of(a) == id_of(b)
}

} // verus!
