//! What the names of a TypeScript source stand for: the imports of a file,
//! each resolved to the place it comes from.

use crate::paths::{join, parent, path_joined, path_parent, path_without_prefix, strip_prefix};
use crate::text::split_once;
use vstd::hash_map::StringHashMap;
use vstd::prelude::*;
use vstd::string::{StringExecFns, StrSliceExecFns};

verus! {

/// The source of an import as the import statement writes it.
#[derive(Debug, Default, PartialEq, Eq)]
pub struct Source(String);

/// The place an import comes from. It begins with `ext://` when the import
/// comes from outside the project, and with `sibling://` when it comes from a
/// folder beside the project.
#[derive(Debug, Default, PartialEq, Eq)]
pub struct CanonicalSource(String);

/// A name in a source file.
#[derive(Debug, Default, Hash, PartialEq, Eq)]
pub struct Identifier(String);

impl View for Source {
    type V = Seq<char>;

    closed spec fn view(&self) -> Seq<char> {
        self.0@
    }
}

impl View for CanonicalSource {
    type V = Seq<char>;

    closed spec fn view(&self) -> Seq<char> {
        self.0@
    }
}

impl View for Identifier {
    type V = Seq<char>;

    closed spec fn view(&self) -> Seq<char> {
        self.0@
    }
}

impl Clone for Source {
    fn clone(&self) -> (copy: Self)
        ensures
            copy@ == self@,
    {
        Source(self.0.clone())
    }
}

impl Clone for CanonicalSource {
    fn clone(&self) -> (copy: Self)
        ensures
            copy@ == self@,
    {
        CanonicalSource(self.0.clone())
    }
}

impl Clone for Identifier {
    fn clone(&self) -> (copy: Self)
        ensures
            copy@ == self@,
    {
        Identifier(self.0.clone())
    }
}

impl From<&str> for Source {
    fn from(value: &str) -> (source: Source)
        ensures
            source@ == value@,
    {
        Source::new(value)
    }
}

/// What the conversion gives is told by the contract of `from`, over views:
/// a contract has no other way to name the text that a value holds.
impl vstd::std_specs::convert::FromSpecImpl<&str> for Source {
    open spec fn obeys_from_spec() -> bool {
        false
    }

    open spec fn from_spec(value: &str) -> Source {
        arbitrary()
    }
}

impl From<&str> for CanonicalSource {
    fn from(value: &str) -> (source: CanonicalSource)
        ensures
            source@ == value@,
    {
        CanonicalSource::new(value)
    }
}

/// What the conversion gives is told by the contract of `from`, over views:
/// a contract has no other way to name the text that a value holds.
impl vstd::std_specs::convert::FromSpecImpl<&str> for CanonicalSource {
    open spec fn obeys_from_spec() -> bool {
        false
    }

    open spec fn from_spec(value: &str) -> CanonicalSource {
        arbitrary()
    }
}

impl From<&str> for Identifier {
    fn from(value: &str) -> (identifier: Identifier)
        ensures
            identifier@ == value@,
    {
        Identifier::new(value)
    }
}

/// What the conversion gives is told by the contract of `from`, over views:
/// a contract has no other way to name the text that a value holds.
impl vstd::std_specs::convert::FromSpecImpl<&str> for Identifier {
    open spec fn obeys_from_spec() -> bool {
        false
    }

    open spec fn from_spec(value: &str) -> Identifier {
        arbitrary()
    }
}

/// The place that the import source `source` stands for, seen from the
/// directory `location`.
///
/// With no directory left the source is a sibling of the project. A leading
/// `..` is dropped, which shortens the source, and what is left is resolved
/// from the directory above. A leading `.` is replaced by the directory.
/// Anything else comes from outside the project.
pub open spec fn canonical(source: Seq<char>, location: Option<Seq<char>>) -> Seq<char>
    decreases source.len(),
{
    match location {
        None => "sibling://"@ + source,
        Some(directory) => if directory.len() == 0 {
            "sibling://"@ + source
        } else {
            match path_without_prefix(source, ".."@) {
                Some(rest) if rest.len() < source.len() => canonical(rest, path_parent(directory)),
                _ => match path_without_prefix(source, "."@) {
                    Some(below) => path_joined(directory, below),
                    None => "ext://"@ + source,
                },
            }
        },
    }
}

/// Computes [`canonical`].
fn canonical_of(source: &str, location: Option<&str>) -> (place: String)
    ensures
        place@ == canonical(
            source@,
            match location {
                Some(l) => Some(l@),
                None => None,
            },
        ),
    decreases source@.len(),
{
    let directory = match location {
        Some(directory) => directory,
        None => {
            return "sibling://".to_owned().concat(source);
        },
    };
    if directory.unicode_len() == 0 {
        return "sibling://".to_owned().concat(source);
    }
    match strip_prefix(source, "..") {
        Some(rest) => {
            if rest.as_str().unicode_len() < source.unicode_len() {
                return match parent(directory) {
                    Some(above) => canonical_of(rest.as_str(), Some(above.as_str())),
                    None => canonical_of(rest.as_str(), None),
                };
            }
        },
        None => {},
    }
    match strip_prefix(source, ".") {
        Some(below) => join(directory, below.as_str()),
        None => "ext://".to_owned().concat(source),
    }
}

impl Source {
    /// The source that an import statement writes as `text`.
    pub fn new(text: &str) -> (source: Source)
        ensures
            source@ == text@,
    {
        Source(text.to_owned())
    }

    /// The text of the source.
    pub fn to_string(&self) -> (text: String)
        ensures
            text@ == self@,
    {
        self.0.clone()
    }

    /// Resolves the source of an import statement that stands in the
    /// directory `import_statement_location`.
    pub fn into_canonical(self, import_statement_location: Option<&str>) -> (place:
        CanonicalSource)
        ensures
            place@ == canonical(
                self@,
                match import_statement_location {
                    Some(l) => Some(l@),
                    None => None,
                },
            ),
    {
        CanonicalSource(canonical_of(self.0.as_str(), import_statement_location))
    }
}

impl CanonicalSource {
    /// The place that is written as `text`.
    pub fn new(text: &str) -> (place: CanonicalSource)
        ensures
            place@ == text@,
    {
        CanonicalSource(text.to_owned())
    }

    /// The text of the place.
    pub fn to_string(&self) -> (text: String)
        ensures
            text@ == self@,
    {
        self.0.clone()
    }
}

impl Identifier {
    /// The name that is written as `text`.
    pub fn new(text: &str) -> (identifier: Identifier)
        ensures
            identifier@ == text@,
    {
        Identifier(text.to_owned())
    }

    /// The text of the name.
    pub fn to_string(&self) -> (text: String)
        ensures
            text@ == self@,
    {
        self.0.clone()
    }
}

/// The imports that are in force in one source file.
pub struct ImportsMap {
    namespaced_imports: StringHashMap<CanonicalSource>,
    /// Maps a name to itself and its source, and an alias to the name it
    /// stands for and its source.
    named_imports: StringHashMap<(Identifier, CanonicalSource)>,
}

/// Whether `at` is the place of the first dot in `name`.
pub open spec fn first_dot(name: Seq<char>, at: int) -> bool {
    &&& 0 <= at < name.len()
    &&& name[at] == '.'
    &&& forall|j: int| 0 <= j < at ==> name[j] != '.'
}

/// Whether the part of `name` before its first dot is a known namespace.
pub open spec fn in_namespace(namespaces: Map<Seq<char>, Seq<char>>, name: Seq<char>) -> bool {
    name.contains('.') && namespaces.contains_key(
        name.take(choose|at: int| first_dot(name, at)),
    )
}

/// What a name resolves to: for `namespace.member` with a known namespace,
/// the member and the place of the namespace; for any other name, with a dot
/// or without, what the whole name was imported as.
pub open spec fn resolved(
    namespaces: Map<Seq<char>, Seq<char>>,
    names: Map<Seq<char>, (Seq<char>, Seq<char>)>,
    name: Seq<char>,
) -> Option<(Seq<char>, Seq<char>)> {
    if in_namespace(namespaces, name) {
        let at = choose|at: int| first_dot(name, at);
        Some((name.skip(at + 1), namespaces[name.take(at)]))
    } else if names.contains_key(name) {
        Some(names[name])
    } else {
        None
    }
}

/// The parts around a dot that has no dot before it are the parts around the
/// first dot.
pub proof fn first_dot_splits(name: Seq<char>, before: Seq<char>, after: Seq<char>)
    requires
        before + seq!['.'] + after == name,
        !before.contains('.'),
    ensures
        name.contains('.'),
        first_dot(name, before.len() as int),
        forall|at: int| first_dot(name, at) ==> at == before.len(),
        name.take(before.len() as int) == before,
        name.skip(before.len() as int + 1) == after,
{
    let at = before.len() as int;
    assert(name[at] == '.');
    assert forall|j: int| 0 <= j < at implies name[j] != '.' by {
        assert(name[j] == before[j]);
    }
    assert(name.take(at) == before);
    assert(name.skip(at + 1) == after);
}

impl ImportsMap {
    /// The places of the namespaces, by alias.
    pub closed spec fn namespaces(&self) -> Map<Seq<char>, Seq<char>> {
        self.namespaced_imports@.map_values(|place: CanonicalSource| place@)
    }

    /// The imported names: for each local name, the name in its source and
    /// the place of the source.
    pub closed spec fn names(&self) -> Map<Seq<char>, (Seq<char>, Seq<char>)> {
        self.named_imports@.map_values(|entry: (Identifier, CanonicalSource)| (entry.0@, entry.1@))
    }

    /// A map without imports.
    pub fn new() -> (map: ImportsMap)
        ensures
            map.namespaces() == Map::<Seq<char>, Seq<char>>::empty(),
            map.names() == Map::<Seq<char>, (Seq<char>, Seq<char>)>::empty(),
    {
        let map = ImportsMap {
            namespaced_imports: StringHashMap::new(),
            named_imports: StringHashMap::new(),
        };
        assert(map.namespaces() =~= Map::<Seq<char>, Seq<char>>::empty());
        assert(map.names() =~= Map::<Seq<char>, (Seq<char>, Seq<char>)>::empty());
        map
    }

    /// The place of the namespace `namespace`, if it was imported.
    pub fn find_namespace(&self, namespace: &Identifier) -> (place: Option<CanonicalSource>)
        ensures
            match place {
                Some(p) => self.namespaces().contains_key(namespace@) && p@
                    == self.namespaces()[namespace@],
                None => !self.namespaces().contains_key(namespace@),
            },
    {
        match self.namespaced_imports.get(namespace.0.as_str()) {
            Some(place) => Some(place.clone()),
            None => None,
        }
    }

    /// What `ident` was imported as, and from where, if it was imported by
    /// name.
    pub fn find_identifier(&self, ident: &Identifier) -> (entry: Option<
        (Identifier, CanonicalSource),
    >)
        ensures
            match entry {
                Some(e) => self.names().contains_key(ident@) && (e.0@, e.1@)
                    == self.names()[ident@],
                None => !self.names().contains_key(ident@),
            },
    {
        match self.named_imports.get(ident.0.as_str()) {
            Some(entry) => Some((entry.0.clone(), entry.1.clone())),
            None => None,
        }
    }

    /// Records a namespace import and returns the place that the alias stood
    /// for before.
    pub fn add_namespace(&mut self, namespace: Identifier, source: CanonicalSource) -> (before:
        Option<CanonicalSource>)
        ensures
            final(self).namespaces() == old(self).namespaces().insert(namespace@, source@),
            final(self).names() == old(self).names(),
            match before {
                Some(p) => old(self).namespaces().contains_key(namespace@) && p@ == old(
                    self,
                ).namespaces()[namespace@],
                None => !old(self).namespaces().contains_key(namespace@),
            },
    {
        let before = self.find_namespace(&namespace);
        self.namespaced_imports.insert(namespace.0, source);
        assert(self.namespaces() =~= old(self).namespaces().insert(namespace@, source@));
        before
    }

    /// Records the import of a name under that name and returns what the
    /// name stood for before.
    pub fn add_named_import(&mut self, import: Identifier, source: CanonicalSource) -> (before:
        Option<(Identifier, CanonicalSource)>)
        ensures
            final(self).names() == old(self).names().insert(import@, (import@, source@)),
            final(self).namespaces() == old(self).namespaces(),
            match before {
                Some(e) => old(self).names().contains_key(import@) && (e.0@, e.1@) == old(
                    self,
                ).names()[import@],
                None => !old(self).names().contains_key(import@),
            },
    {
        let alias = import.clone();
        self.add_aliased_import(alias, import, source)
    }

    /// Records the import of `name_in_source` under the name `alias` and
    /// returns what the alias stood for before.
    pub fn add_aliased_import(
        &mut self,
        alias: Identifier,
        name_in_source: Identifier,
        source: CanonicalSource,
    ) -> (before: Option<(Identifier, CanonicalSource)>)
        ensures
            final(self).names() == old(self).names().insert(alias@, (name_in_source@, source@)),
            final(self).namespaces() == old(self).namespaces(),
            match before {
                Some(e) => old(self).names().contains_key(alias@) && (e.0@, e.1@) == old(
                    self,
                ).names()[alias@],
                None => !old(self).names().contains_key(alias@),
            },
    {
        let before = self.find_identifier(&alias);
        self.named_imports.insert(alias.0, (name_in_source, source));
        assert(self.names() =~= old(self).names().insert(alias@, (name_in_source@, source@)));
        before
    }

    /// The name in its source and the place of the source that `ident`
    /// stands for.
    pub fn resolve_ident(&self, ident: Identifier) -> (entry: Option<
        (Identifier, CanonicalSource),
    >)
        ensures
            match entry {
                Some(e) => resolved(self.namespaces(), self.names(), ident@) == Some((e.0@, e.1@)),
                None => resolved(self.namespaces(), self.names(), ident@) is None,
            },
    {
        match split_once(ident.0.as_str(), '.') {
            Some((namespace, member)) => {
                proof {
                    first_dot_splits(ident@, namespace@, member@);
                }
                match self.find_namespace(&Identifier(namespace)) {
                    Some(place) => Some((Identifier(member), place)),
                    None => self.find_identifier(&ident),
                }
            },
            None => self.find_identifier(&ident),
        }
    }
}

impl Default for ImportsMap {
    fn default() -> (map: ImportsMap)
        ensures
            map.namespaces() == Map::<Seq<char>, Seq<char>>::empty(),
            map.names() == Map::<Seq<char>, (Seq<char>, Seq<char>)>::empty(),
    {
        ImportsMap::new()
    }
}

} // verus!
