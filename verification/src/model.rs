//! The records that an analysis hands out: identifiers, locations, and the
//! errors an analysis can end with.

use vstd::prelude::*;
use vstd::string::StringExecFns;

verus! {

/// A position in a file. Lines and columns are counted from zero, columns in
/// bytes.
#[derive(Copy, Debug, Default, PartialEq, Eq, PartialOrd, Ord, Hash, Structural)]
pub struct Position {
    pub line: usize,
    pub column: usize,
}

impl Clone for Position {
    fn clone(&self) -> (copy: Self)
        ensures
            copy == *self,
    {
        Position { line: self.line, column: self.column }
    }
}

/// A stretch of a file. The start is inclusive and the end exclusive, so one
/// character spans one column.
#[derive(Copy, Debug, Default, PartialEq, Eq, PartialOrd, Ord, Hash, Structural)]
pub struct Range {
    /// Inclusive start of the range.
    pub start: Position,
    /// Exclusive end of the range.
    pub end: Position,
}

impl Clone for Range {
    fn clone(&self) -> (copy: Self)
        ensures
            copy == *self,
    {
        Range { start: self.start, end: self.end }
    }
}

impl Range {
    /// The end does not come before the start.
    pub open spec fn well_formed(self) -> bool {
        self.start.line < self.end.line || (self.start.line == self.end.line && self.start.column
            <= self.end.column)
    }

    /// The range holds at least one character: its end lies on a later line
    /// than its start, or on the same line at a later column.
    pub open spec fn non_empty(self) -> bool {
        self.end.line > self.start.line || (self.end.line == self.start.line && self.end.column
            > self.start.column)
    }
}

/// A stretch of a named file. The file name is relative to the project root.
#[derive(Debug, Default, PartialEq, Eq, PartialOrd, Ord, Hash)]
pub struct Location {
    pub file: String,
    pub range: Range,
}

/// What a [`Location`] is to a contract.
pub struct LocationView {
    pub file: Seq<char>,
    pub range: Range,
}

impl View for Location {
    type V = LocationView;

    open spec fn view(&self) -> LocationView {
        LocationView { file: self.file@, range: self.range }
    }
}

impl Clone for Location {
    fn clone(&self) -> (copy: Self)
        ensures
            copy@ == self@,
    {
        Location { file: self.file.clone(), range: self.range }
    }
}

impl Location {
    /// The location of `range` in the file called `file`.
    pub fn new(file: &str, range: Range) -> (location: Location)
        ensures
            location@.file == file@,
            location@.range == range,
    {
        Location { file: file.to_owned(), range }
    }

    /// Tells whether two locations name the same stretch of the same file.
    pub fn same_as(&self, other: &Location) -> (r: bool)
        ensures
            r == (self@ == other@),
    {
        self.file == other.file && self.range == other.range
    }
}

/// The key under which a function is known: the module it lives in, and its
/// name, prefixed by the owning type where there is one.
#[derive(Debug, Default, PartialEq, Eq, PartialOrd, Ord, Hash)]
pub struct FunctionId {
    /// The name of the module.
    pub module: String,
    /// The name of the function.
    pub function: String,
}

/// What a [`FunctionId`] is to a contract.
pub struct FunctionIdView {
    pub module: Seq<char>,
    pub function: Seq<char>,
}

impl View for FunctionId {
    type V = FunctionIdView;

    open spec fn view(&self) -> FunctionIdView {
        FunctionIdView { module: self.module@, function: self.function@ }
    }
}

impl Clone for FunctionId {
    fn clone(&self) -> (copy: Self)
        ensures
            copy@ == self@,
    {
        FunctionId { module: self.module.clone(), function: self.function.clone() }
    }
}

impl FunctionId {
    /// The identifier of `function` in `module`.
    pub fn new(module: &str, function: &str) -> (id: FunctionId)
        ensures
            id@.module == module@,
            id@.function == function@,
    {
        FunctionId { module: module.to_owned(), function: function.to_owned() }
    }

    /// Tells whether two identifiers are the same key.
    pub fn same_as(&self, other: &FunctionId) -> (r: bool)
        ensures
            r == (self@ == other@),
    {
        self.module == other.module && self.function == other.function
    }
}

impl From<(&str, &str)> for FunctionId {
    fn from(pair: (&str, &str)) -> (id: FunctionId)
        ensures
            id@.module == pair.0@,
            id@.function == pair.1@,
    {
        FunctionId::new(pair.0, pair.1)
    }
}

/// What the conversion gives is told by the contract of `from`, over views:
/// a contract has no other way to name the text that a value holds.
impl vstd::std_specs::convert::FromSpecImpl<(&str, &str)> for FunctionId {
    open spec fn obeys_from_spec() -> bool {
        false
    }

    open spec fn from_spec(pair: (&str, &str)) -> FunctionId {
        arbitrary()
    }
}

/// What is known of one function: where it is defined and where it is
/// instrumented.
#[derive(Debug, Default, PartialEq, Eq, PartialOrd, Ord, Hash)]
pub struct FunctionInfo {
    pub id: FunctionId,
    /// Where the function is defined.
    pub definition: Option<Location>,
    /// Where the function is instrumented, for example where the wrapper is
    /// called.
    pub instrumentation: Option<Location>,
}

/// What a [`FunctionInfo`] is to a contract.
pub struct FunctionInfoView {
    pub id: FunctionIdView,
    pub definition: Option<LocationView>,
    pub instrumentation: Option<LocationView>,
}

/// The view of a location that may be absent.
pub open spec fn location_view(location: Option<Location>) -> Option<LocationView> {
    match location {
        Some(l) => Some(l@),
        None => None,
    }
}

impl View for FunctionInfo {
    type V = FunctionInfoView;

    open spec fn view(&self) -> FunctionInfoView {
        FunctionInfoView {
            id: self.id@,
            definition: location_view(self.definition),
            instrumentation: location_view(self.instrumentation),
        }
    }
}

/// Copies a location that may be absent.
pub fn clone_location(location: &Option<Location>) -> (copy: Option<Location>)
    ensures
        location_view(copy) == location_view(*location),
{
    match location {
        Some(l) => Some(l.clone()),
        None => None,
    }
}

impl Clone for FunctionInfo {
    fn clone(&self) -> (copy: Self)
        ensures
            copy@ == self@,
    {
        FunctionInfo {
            id: self.id.clone(),
            definition: clone_location(&self.definition),
            instrumentation: clone_location(&self.instrumentation),
        }
    }
}

/// The line on which the definition of a function starts, or zero when the
/// definition is not known.
pub open spec fn line_of(info: FunctionInfoView) -> usize {
    match info.definition {
        Some(l) => l.range.start.line,
        None => 0,
    }
}

impl FunctionInfo {
    /// The line on which the definition starts, or zero when the definition
    /// is not known.
    pub fn start_line(&self) -> (line: usize)
        ensures
            line == line_of(self@),
    {
        match &self.definition {
            Some(l) => l.range.start.line,
            None => 0,
        }
    }

    /// The text `module: M, function: F` that names the function.
    pub open spec fn label(self) -> Seq<char> {
        "module: "@ + self.id.module@ + ", function: "@ + self.id.function@
    }

    /// Renders the function as `module: M, function: F`.
    pub fn to_string(&self) -> (text: String)
        ensures
            text@ == self.label(),
    {
        let mut text = "module: ".to_owned();
        text.append(self.id.module.as_str());
        text.append(", function: ");
        text.append(self.id.function.as_str());
        text
    }
}

/// The views of a list of functions, in the order of the list.
pub open spec fn infos_view(list: Seq<FunctionInfo>) -> Seq<FunctionInfoView> {
    list.map_values(|info: FunctionInfo| info@)
}

/// Every record of the list is defined, and instrumented exactly when
/// `instrumented` says so.
pub open spec fn uniform(list: Seq<FunctionInfoView>, instrumented: bool) -> bool {
    forall|i: int|
        0 <= i < list.len() ==> (#[trigger] list[i]).definition is Some && (
        list[i].instrumentation is Some <==> instrumented)
}

/// Every record of the list is instrumented.
pub open spec fn all_instrumented(list: Seq<FunctionInfoView>) -> bool {
    forall|i: int| 0 <= i < list.len() ==> (#[trigger] list[i]).instrumentation is Some
}

/// Every record of the list is defined and not instrumented.
pub open spec fn all_defined(list: Seq<FunctionInfoView>) -> bool {
    uniform(list, false)
}

/// Every record of the list has at least one of its two locations.
pub open spec fn all_located(list: Seq<FunctionInfoView>) -> bool {
    forall|i: int|
        0 <= i < list.len() ==> (#[trigger] list[i]).definition is Some
            || list[i].instrumentation is Some
}

/// Every location of the record spans a stretch whose end does not come
/// before its start.
pub open spec fn well_ranged(info: FunctionInfoView) -> bool {
    &&& info.definition matches Some(l) ==> l.range.well_formed()
    &&& info.instrumentation matches Some(l) ==> l.range.well_formed()
}

/// Every location of every record of the list spans a stretch whose end
/// does not come before its start.
pub open spec fn all_well_ranged(list: Seq<FunctionInfoView>) -> bool {
    forall|i: int| 0 <= i < list.len() ==> well_ranged(#[trigger] list[i])
}

/// What an analysis can end with instead of a result.
#[derive(Debug, PartialEq, Eq)]
pub enum AmlError {
    /// The parser did not accept the grammar.
    CreateParser,
    /// The query text did not compile against the grammar.
    CreateQuery,
    /// The query lacks a capture name that the analysis reads.
    MissingNamedCapture(String),
    /// The source could not be parsed.
    Parsing,
    /// A stretch of the source is not valid text.
    InvalidText,
    /// The path to the project cannot be used.
    InvalidPath,
    /// The file system refused an operation.
    IO,
}

/// The languages that can be analysed.
#[derive(Debug, Clone, Copy, PartialEq, Eq, Structural)]
pub enum Language {
    Rust,
    Go,
    Typescript,
    Python,
}

} // verus!
