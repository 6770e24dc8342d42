//! Which entries of a walk through a project are its source files, and the
//! module that the functions of a source file belong to.

use crate::model::Language;
use crate::paths::{
    extension, file_name, main_separator, path_extension, path_file_name,
    path_without_extension, path_without_prefix, strip_prefix, without_extension,
};
use crate::project::SourceFile;
use crate::roots::{PathPart, PathPartView, WalkEntry, WalkEntryView, hidden_name};
use crate::text::{
    ends_with, join, joined, occurs_at, replace_char, same_text, starts_with, strip_suffix,
    texts_view, with_replaced,
};
use vstd::prelude::*;
use vstd::string::StringExecFns;

verus! {

/// The directory of build products at the top of a Rust project.
pub const RUST_TARGET: &'static str = "target";

/// The directory of dependencies of a TypeScript project.
pub const NODE_MODULES: &'static str = "node_modules";

/// The directory of the sources of a Rust crate.
pub const RUST_SOURCES: &'static str = "src";

/// The stem of the file that holds a Rust module of the name of its
/// directory.
pub const RUST_MODULE_FILE: &'static str = "mod";

/// The suffix of a Rust source file.
pub const RUST_SUFFIX: &'static str = ".rs";

/// The suffix of a Go source file.
pub const GO_SUFFIX: &'static str = ".go";

/// Whether a language passes over a step of a path that lies `depth` steps
/// below the root of the project: every language passes over names that
/// begin with a dot, Rust over `target` right below the root, TypeScript
/// over `node_modules`.
pub open spec fn passed_over(language: Language, name: Seq<char>, depth: int) -> bool {
    hidden_name(name) || match language {
        Language::Rust => depth == 1 && name == RUST_TARGET@,
        Language::Typescript => name == NODE_MODULES@,
        _ => false,
    }
}

/// Whether the name or the path of a file makes it a source file of a
/// language.
pub open spec fn source_name(language: Language, name: Seq<char>, path: Seq<char>) -> bool {
    match language {
        Language::Rust => occurs_at(name, RUST_SUFFIX@, name.len() - RUST_SUFFIX@.len()),
        Language::Go => occurs_at(name, GO_SUFFIX@, name.len() - GO_SUFFIX@.len()),
        Language::Python => path_extension(path) == Some("py"@) || path_extension(path) == Some(
            "py3"@,
        ),
        Language::Typescript => path_extension(path) == Some("js"@) || path_extension(path)
            == Some("jsx"@) || path_extension(path) == Some("ts"@) || path_extension(path) == Some(
            "tsx"@,
        ) || path_extension(path) == Some("mjs"@),
    }
}

/// Whether a language hides an entry.
pub open spec fn hides(language: Language, entry: WalkEntryView) -> bool {
    passed_over(language, entry.file_name(), entry.depth())
}

/// Whether an entry is one that a walk for the sources of a language
/// follows: it is not hidden, and is a directory or a source file.
pub open spec fn valid(language: Language, entry: WalkEntryView) -> bool {
    !hides(language, entry) && (entry.dir_entry || source_name(
        language,
        entry.file_name(),
        entry.path,
    ))
}

/// Tells whether a language passes over a step of a path.
fn is_passed_over(language: Language, name: &str, depth: usize) -> (r: bool)
    ensures
        r == passed_over(language, name@, depth as int),
{
    if starts_with(name, ".") {
        return true;
    }
    match language {
        Language::Rust => depth == 1 && same_text(name, RUST_TARGET),
        Language::Typescript => same_text(name, NODE_MODULES),
        _ => false,
    }
}

/// Tells whether a language hides an entry.
pub fn is_hidden(language: Language, entry: &WalkEntry) -> (r: bool)
    ensures
        r == hides(language, entry@),
{
    let depth = if entry.parts.len() == 0 {
        0
    } else {
        entry.parts.len() - 1
    };
    is_passed_over(language, entry.file_name(), depth)
}

/// Tells whether a file is a source file of a language.
fn is_source_name(language: Language, name: &str, path: &str) -> (r: bool)
    ensures
        r == source_name(language, name@, path@),
{
    match language {
        Language::Rust => ends_with(name, RUST_SUFFIX),
        Language::Go => ends_with(name, GO_SUFFIX),
        Language::Python => match extension(path) {
            Some(ext) => same_text(ext.as_str(), "py") || same_text(ext.as_str(), "py3"),
            None => false,
        },
        Language::Typescript => match extension(path) {
            Some(ext) => same_text(ext.as_str(), "js") || same_text(ext.as_str(), "jsx")
                || same_text(ext.as_str(), "ts") || same_text(ext.as_str(), "tsx") || same_text(
                ext.as_str(),
                "mjs",
            ),
            None => false,
        },
    }
}

/// Tells whether an entry is one that a walk for the sources of a language
/// follows.
pub fn is_valid(language: Language, entry: &WalkEntry) -> (r: bool)
    ensures
        r == valid(language, entry@),
{
    if is_hidden(language, entry) {
        return false;
    }
    entry.dir_entry || is_source_name(language, entry.file_name(), entry.path.as_str())
}

/// Whether a walk for the sources of a language lists an entry: the walk
/// passes over no step of its path, the entry is a directory or a source
/// file, and no exclusion pattern leaves it out.
pub open spec fn listed(language: Language, entry: WalkEntryView) -> bool {
    &&& forall|k: int|
        0 <= k < entry.parts.len() ==> !passed_over(language, (#[trigger] entry.parts[k]).name, k)
    &&& valid(language, entry)
    &&& !entry.excluded
}

/// Tells whether a walk for the sources of a language lists an entry.
pub fn is_listed(language: Language, entry: &WalkEntry) -> (r: bool)
    ensures
        r == listed(language, entry@),
{
    if entry.excluded || !is_valid(language, entry) {
        return false;
    }
    let mut k: usize = 0;
    while k < entry.parts.len()
        invariant
            k <= entry.parts.len(),
            forall|j: int|
                0 <= j < k ==> !passed_over(language, (#[trigger] entry@.parts[j]).name, j),
        decreases entry.parts.len() - k,
    {
        assert(entry@.parts[k as int] == entry.parts@[k as int]@);
        if is_passed_over(language, entry.parts[k].name.as_str(), k) {
            return false;
        }
        k += 1;
    }
    true
}

/// What a step of a path adds to the module of a Rust source file: a
/// directory its name with underscores for dashes, unless it is `src`; a
/// file its name without `.rs`, unless that is `mod`; anything else nothing.
pub open spec fn rust_segment(part: PathPartView) -> Option<Seq<char>> {
    if part.is_dir {
        if part.name != RUST_SOURCES@ {
            Some(with_replaced(part.name, '-', "_"@))
        } else {
            None
        }
    } else if part.is_file && occurs_at(
        part.name,
        RUST_SUFFIX@,
        part.name.len() - RUST_SUFFIX@.len(),
    ) && part.name.subrange(0, part.name.len() - RUST_SUFFIX@.len()) != RUST_MODULE_FILE@ {
        Some(part.name.subrange(0, part.name.len() - RUST_SUFFIX@.len()))
    } else {
        None
    }
}

/// What a step of a path adds to the module of a TypeScript source file: a
/// directory or a file its name, anything else nothing.
pub open spec fn typescript_segment(part: PathPartView) -> Option<Seq<char>> {
    if part.is_dir || part.is_file {
        Some(part.name)
    } else {
        None
    }
}

/// What a step of a path adds to the module of a source file.
pub open spec fn segment(language: Language, part: PathPartView) -> Option<Seq<char>> {
    match language {
        Language::Rust => rust_segment(part),
        Language::Typescript => typescript_segment(part),
        _ => None,
    }
}

/// What the steps from `from` on add to the module of a source file, top
/// first.
pub open spec fn segments(language: Language, parts: Seq<PathPartView>, from: int) -> Seq<
    Seq<char>,
>
    decreases parts.len(),
{
    if parts.len() <= from || parts.len() == 0 {
        Seq::empty()
    } else {
        match segment(language, parts.last()) {
            Some(name) => segments(language, parts.drop_last(), from).push(name),
            None => segments(language, parts.drop_last(), from),
        }
    }
}

/// The module of a Rust source file: what the steps below the root of the
/// project add, joined by `::`.
pub open spec fn rust_module(entry: WalkEntryView) -> Seq<char> {
    joined(segments(Language::Rust, entry.parts, 1), "::"@)
}

/// The module of a TypeScript source file: what the steps from the second
/// below the root of the project add, joined by `/`.
pub open spec fn typescript_module(entry: WalkEntryView) -> Seq<char> {
    joined(segments(Language::Typescript, entry.parts, 2), "/"@)
}

/// The module of a Python source file: the name of the root of the project
/// and, behind a dot, the path of the file from the root without its
/// extension and with a dot for every `separator`.
pub open spec fn python_module(root_name: Seq<char>, file_name: Seq<char>, separator: char) -> Seq<
    char,
> {
    root_name + "."@ + with_replaced(path_without_extension(file_name), separator, "."@)
}

/// Reads what a step of a path adds to the module of a source file.
fn read_segment(language: Language, part: &PathPart) -> (name: Option<String>)
    ensures
        match name {
            Some(n) => segment(language, part@) == Some(n@),
            None => segment(language, part@) is None,
        },
{
    match language {
        Language::Rust => {
            if part.is_dir {
                if !same_text(part.name.as_str(), RUST_SOURCES) {
                    Some(replace_char(part.name.as_str(), '-', "_"))
                } else {
                    None
                }
            } else if part.is_file {
                match strip_suffix(part.name.as_str(), RUST_SUFFIX) {
                    Some(stem) => {
                        assert(part.name@.subrange(0, part.name@.len() - RUST_SUFFIX@.len())
                            == stem@);
                        assert(part.name@.subrange(
                            part.name@.len() - RUST_SUFFIX@.len(),
                            part.name@.len() as int,
                        ) == RUST_SUFFIX@);
                        if !same_text(stem.as_str(), RUST_MODULE_FILE) {
                            Some(stem)
                        } else {
                            None
                        }
                    },
                    None => None,
                }
            } else {
                None
            }
        },
        Language::Typescript => {
            if part.is_dir || part.is_file {
                Some(part.name.clone())
            } else {
                None
            }
        },
        _ => None,
    }
}

/// Reads what the steps from `from` on add to the module of a source file.
fn read_segments(language: Language, entry: &WalkEntry, from: usize) -> (names: Vec<String>)
    ensures
        texts_view(names@) == segments(language, entry@.parts, from as int),
{
    let ghost parts = entry@.parts;
    let mut names: Vec<String> = Vec::new();
    let mut k: usize = from;
    if from >= entry.parts.len() {
        assert(texts_view(names@) == Seq::<Seq<char>>::empty());
        return names;
    }
    assert(texts_view(names@) == Seq::<Seq<char>>::empty());
    assert(segments(language, parts.take(from as int), from as int) == Seq::<Seq<char>>::empty());
    while k < entry.parts.len()
        invariant
            from <= k <= entry.parts.len(),
            parts == entry@.parts,
            texts_view(names@) == segments(language, parts.take(k as int), from as int),
        decreases entry.parts.len() - k,
    {
        proof {
            assert(parts.take(k as int + 1).drop_last() == parts.take(k as int));
            assert(parts.take(k as int + 1).last() == entry.parts@[k as int]@);
        }
        match read_segment(language, &entry.parts[k]) {
            Some(name) => {
                let ghost before = names@;
                names.push(name);
                assert(texts_view(names@) == texts_view(before).push(name@));
            },
            None => {},
        }
        k += 1;
    }
    assert(parts.take(entry.parts.len() as int) == parts);
    names
}

/// The module of a Rust source file.
pub fn fully_qualified_module_name(entry: &WalkEntry) -> (module: String)
    ensures
        module@ == rust_module(entry@),
{
    join(&read_segments(Language::Rust, entry, 1), "::")
}

/// The module of a TypeScript source file.
pub fn qualified_module_name(entry: &WalkEntry) -> (module: String)
    ensures
        module@ == typescript_module(entry@),
{
    join(&read_segments(Language::Typescript, entry, 2), "/")
}

/// The module of a Python source file whose path has its components
/// separated by `separator`.
pub fn python_module_name_with(root_name: &str, file_name: &str, separator: char) -> (module:
    String)
    ensures
        module@ == python_module(root_name@, file_name@, separator),
{
    let relative = replace_char(without_extension(file_name).as_str(), separator, ".");
    root_name.to_owned().concat(".").concat(relative.as_str())
}

/// The module of a Python source file, its path read with the separator of
/// the platform.
pub fn python_module_name(root_name: &str, file_name: &str) -> (module: String)
    ensures
        exists|separator: char|
            #[trigger] python_module(root_name@, file_name@, separator) == module@,
{
    python_module_name_with(root_name, file_name, main_separator())
}

/// The name of the root of a project: the last component of its path, or
/// the empty name when the path has none.
pub open spec fn root_name(project_root: Seq<char>) -> Seq<char> {
    match path_file_name(project_root) {
        Some(name) => name,
        None => Seq::empty(),
    }
}

/// The module that the functions of a source file belong to, given the path
/// of the file from the root of the project and the character that
/// separates the components of a path. A Go source names its package itself.
pub open spec fn module_of(
    language: Language,
    project_root: Seq<char>,
    entry: WalkEntryView,
    file_name: Seq<char>,
    separator: char,
) -> Seq<char> {
    match language {
        Language::Rust => rust_module(entry),
        Language::Typescript => typescript_module(entry),
        Language::Python => python_module(root_name(project_root), file_name, separator),
        Language::Go => Seq::empty(),
    }
}

/// A source file of a project of the language `language`, from its entry
/// in the walk through the project and its text, its module told with the
/// separator of the platform. An entry whose path does not start with the
/// root of the project gives nothing.
pub fn source_file(
    language: Language,
    project_root: &str,
    entry: &WalkEntry,
    source: String,
) -> (file: Option<SourceFile>)
    ensures
        match file {
            Some(f) => {
                &&& path_without_prefix(entry@.path, project_root@) == Some(f.file_name@)
                &&& f.path@ == entry@.path
                &&& f.source@ == source@
                &&& exists|separator: char|
                    #[trigger] module_of(
                        language,
                        project_root@,
                        entry@,
                        f.file_name@,
                        separator,
                    ) == f.module@
            },
            None => path_without_prefix(entry@.path, project_root@) is None,
        },
{
    let relative = match strip_prefix(entry.path.as_str(), project_root) {
        Some(name) => name,
        None => {
            return None;
        },
    };
    let separator = main_separator();
    let module = match language {
        Language::Rust => fully_qualified_module_name(entry),
        Language::Typescript => qualified_module_name(entry),
        Language::Python => {
            let root = match file_name(project_root) {
                Some(name) => name,
                None => String::new(),
            };
            python_module_name_with(root.as_str(), relative.as_str(), separator)
        },
        Language::Go => String::new(),
    };
    let file = SourceFile { path: entry.path.clone(), file_name: relative, module, source };
    assert(module_of(language, project_root@, entry@, file.file_name@, separator)
        == file.module@);
    assert(exists|separator: char|
        #[trigger] module_of(language, project_root@, entry@, file.file_name@, separator)
            == file.module@);
    Some(file)
}

} // verus!
