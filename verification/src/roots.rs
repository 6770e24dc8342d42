//! Finding the roots of the projects under a directory from the entries of
//! a walk through it.

use crate::model::Language;
use crate::paths::{file_name, parent, path_file_name, path_parent};
use crate::text::{occurs_at, same_text, starts_with};
use vstd::prelude::*;

verus! {

/// One step of the path from the start of a walk to an entry.
#[derive(Debug, Default, PartialEq, Eq)]
pub struct PathPart {
    /// The name of the file or directory.
    pub name: String,
    /// Whether the path up to here leads to a directory.
    pub is_dir: bool,
    /// Whether the path up to here leads to a file.
    pub is_file: bool,
}

/// What a [`PathPart`] is to a contract.
pub struct PathPartView {
    pub name: Seq<char>,
    pub is_dir: bool,
    pub is_file: bool,
}

impl View for PathPart {
    type V = PathPartView;

    open spec fn view(&self) -> PathPartView {
        PathPartView { name: self.name@, is_dir: self.is_dir, is_file: self.is_file }
    }
}

/// An entry of a walk through a directory.
#[derive(Debug, Default, PartialEq, Eq)]
pub struct WalkEntry {
    /// The path of the entry.
    pub path: String,
    /// The steps from the start of the walk to the entry: first the
    /// directory where the walk started, last the entry itself.
    pub parts: Vec<PathPart>,
    /// Whether the entry is a file.
    pub file_entry: bool,
    /// Whether the entry is a directory.
    pub dir_entry: bool,
    /// Whether an exclusion pattern of the caller leaves the entry out.
    pub excluded: bool,
}

/// What a [`WalkEntry`] is to a contract.
pub struct WalkEntryView {
    pub path: Seq<char>,
    pub parts: Seq<PathPartView>,
    pub file_entry: bool,
    pub dir_entry: bool,
    pub excluded: bool,
}

impl View for WalkEntry {
    type V = WalkEntryView;

    open spec fn view(&self) -> WalkEntryView {
        WalkEntryView {
            path: self.path@,
            parts: self.parts@.map_values(|part: PathPart| part@),
            file_entry: self.file_entry,
            dir_entry: self.dir_entry,
            excluded: self.excluded,
        }
    }
}

/// The views of a list of entries.
pub open spec fn entries_view(entries: Seq<WalkEntry>) -> Seq<WalkEntryView> {
    entries.map_values(|entry: WalkEntry| entry@)
}

impl WalkEntryView {
    /// How many steps below the start of the walk the entry lies.
    pub open spec fn depth(self) -> int {
        self.parts.len() - 1
    }

    /// The name of the entry.
    pub open spec fn file_name(self) -> Seq<char> {
        if self.parts.len() > 0 {
            self.parts.last().name
        } else {
            Seq::empty()
        }
    }
}

impl WalkEntry {
    /// The name of the entry, or the empty name for an entry without steps.
    pub fn file_name(&self) -> (name: &str)
        ensures
            name@ == self@.file_name(),
    {
        if self.parts.len() > 0 {
            assert(self@.parts.last() == self.parts@[self.parts.len() - 1]@);
            self.parts[self.parts.len() - 1].name.as_str()
        } else {
            proof {
                reveal_strlit("");
            }
            assert(""@ == Seq::<char>::empty());
            ""
        }
    }
}

/// The name under which a walk knows what lies at a path: the last
/// component of the path, or the whole path when it ends in none.
pub open spec fn step_name(path: Seq<char>) -> Seq<char> {
    match path_file_name(path) {
        Some(name) => name,
        None => path,
    }
}

/// The path that lies `steps` components above a path, if it has so many.
pub open spec fn above(path: Seq<char>, steps: nat) -> Option<Seq<char>>
    decreases steps,
{
    if steps == 0 {
        Some(path)
    } else {
        match path_parent(path) {
            Some(shorter) => above(shorter, (steps - 1) as nat),
            None => None,
        }
    }
}

/// The name of the component that lies `steps` components above a path.
pub open spec fn step_above(path: Seq<char>, steps: int) -> Option<Seq<char>> {
    if steps < 0 {
        None
    } else {
        match above(path, steps as nat) {
            Some(component) => Some(step_name(component)),
            None => None,
        }
    }
}

/// Whether `start` lies `steps` components above a path.
pub open spec fn starts_above(path: Seq<char>, steps: int, start: Seq<char>) -> bool {
    steps >= 0 && above(path, steps as nat) == Some(start)
}

/// Whether a path lies below `start`, or is it.
pub open spec fn lies_below(path: Seq<char>, start: Seq<char>) -> bool {
    exists|steps: int| #[trigger] starts_above(path, steps, start)
}

/// Whether the steps of an entry are those of a walk from `start` to its
/// path: `start` lies as many components above the path as the entry lies
/// below the start, each step has the name of the component that it stands
/// for, and what lies above the entry is a directory.
pub open spec fn walked_from(entry: WalkEntryView, start: Seq<char>) -> bool {
    &&& entry.parts.len() > 0
    &&& starts_above(entry.path, entry.depth(), start)
    &&& forall|j: int|
        0 <= j < entry.parts.len() ==> step_above(entry.path, entry.depth() - j) == Some(
            (#[trigger] entry.parts[j]).name,
        )
    &&& forall|j: int| 0 <= j < entry.depth() ==> (#[trigger] entry.parts[j]).is_dir
}

/// One component further up is the component above.
proof fn above_the_next(path: Seq<char>, steps: nat)
    ensures
        above(path, steps + 1) == match above(path, steps) {
            Some(component) => path_parent(component),
            None => None,
        },
    decreases steps,
{
    reveal_with_fuel(above, 3);
    if steps > 0 {
        match path_parent(path) {
            Some(shorter) => {
                above_the_next(shorter, (steps - 1) as nat);
            },
            None => {},
        }
    }
}

/// Above a path that has nothing above it lies nothing.
proof fn nothing_further_above(path: Seq<char>, steps: nat, further: nat)
    requires
        above(path, steps) is None,
        steps <= further,
    ensures
        above(path, further) is None,
    decreases further - steps,
{
    if steps < further {
        above_the_next(path, steps);
        nothing_further_above(path, steps + 1, further);
    }
}

/// Whether `names` are the names of the components from a path upwards,
/// none of which is `start`.
pub open spec fn names_upwards(path: Seq<char>, names: Seq<String>, start: Seq<char>) -> bool {
    forall|k: int|
        0 <= k < names.len() ==> step_above(path, k) == Some((#[trigger] names[k])@)
            && !starts_above(path, k, start)
}

/// The steps of a walk from the names of the components upwards: the
/// names from the last to the first, each but the last a directory.
fn steps_down(names: &Vec<String>, file_entry: bool, dir_entry: bool) -> (parts: Vec<PathPart>)
    requires
        names.len() > 0,
    ensures
        parts.len() == names.len(),
        forall|i: int|
            0 <= i < parts.len() ==> {
                &&& (#[trigger] parts@[i])@.name == names@[names.len() - 1 - i]@
                &&& parts@[i].is_dir == (i < names.len() - 1 || dir_entry)
                &&& parts@[i].is_file == (i == names.len() - 1 && file_entry)
            },
{
    let steps = names.len() - 1;
    let mut parts: Vec<PathPart> = Vec::new();
    let mut j: usize = 0;
    while j < names.len()
        invariant
            j <= names.len(),
            names.len() == steps + 1,
            parts.len() == j,
            forall|i: int|
                0 <= i < j ==> {
                    &&& (#[trigger] parts@[i])@.name == names@[steps - i]@
                    &&& parts@[i].is_dir == (i < steps || dir_entry)
                    &&& parts@[i].is_file == (i == steps && file_entry)
                },
        decreases names.len() - j,
    {
        let last = j == steps;
        parts.push(
            PathPart {
                name: names[steps - j].clone(),
                is_dir: !last || dir_entry,
                is_file: last && file_entry,
            },
        );
        j += 1;
    }
    parts
}

impl WalkEntry {
    /// The entry of a walk from `start` at `path`, with the steps that lead
    /// from the start to the path. A path that does not lie below the start
    /// has no entry in the walk.
    pub fn below(start: &str, path: &str, file_entry: bool, dir_entry: bool, excluded: bool) -> (entry:
        Option<WalkEntry>)
        ensures
            entry is Some <==> lies_below(path@, start@),
            entry matches Some(e) ==> {
                &&& e@.path == path@
                &&& e.file_entry == file_entry
                &&& e.dir_entry == dir_entry
                &&& e.excluded == excluded
                &&& walked_from(e@, start@)
                &&& e@.parts.last().is_dir == dir_entry
                &&& e@.parts.last().is_file == file_entry
                &&& forall|j: int| 0 <= j < e@.depth() ==> !(#[trigger] e@.parts[j]).is_file
            },
    {
        let mut names: Vec<String> = Vec::new();
        let mut pointer: String = path.to_owned();
        loop
            invariant
                above(path@, names.len() as nat) == Some(pointer@),
                names_upwards(path@, names@, start@),
            decreases pointer@.len(),
        {
            let name = match file_name(pointer.as_str()) {
                Some(name) => name,
                None => pointer.clone(),
            };
            let steps = names.len();
            let ghost before = names@;
            assert(step_above(path@, steps as int) == Some(name@));
            let found = same_text(pointer.as_str(), start);
            names.push(name);
            assert forall|k: int| 0 <= k < names.len() implies step_above(path@, k) == Some(
                (#[trigger] names@[k])@,
            ) && (k < steps ==> !starts_above(path@, k, start@)) by {
                if k < steps {
                    assert(names@[k] == before[k]);
                }
            }
            if found {
                let parts = steps_down(&names, file_entry, dir_entry);
                let entry = WalkEntry {
                    path: path.to_owned(),
                    parts,
                    file_entry,
                    dir_entry,
                    excluded,
                };
                proof {
                    assert(entry@.parts.len() == steps + 1);
                    assert(starts_above(path@, steps as int, start@));
                    assert forall|j: int| 0 <= j < entry@.parts.len() implies step_above(
                        entry@.path,
                        entry@.depth() - j,
                    ) == Some((#[trigger] entry@.parts[j]).name) by {
                        assert(entry@.parts[j] == parts@[j]@);
                        assert(parts@[j]@.name == names@[steps - j]@);
                    }
                    assert forall|j: int| 0 <= j < entry@.depth() implies (#[trigger] entry@.parts[j]).is_dir
                        && !entry@.parts[j].is_file by {
                        assert(entry@.parts[j] == parts@[j]@);
                    }
                    assert(entry@.parts.last() == parts@[steps as int]@);
                }
                return Some(entry);
            }
            assert(!starts_above(path@, steps as int, start@));
            match parent(pointer.as_str()) {
                Some(shorter) => {
                    proof {
                        above_the_next(path@, steps as nat);
                    }
                    pointer = shorter;
                },
                None => {
                    proof {
                        above_the_next(path@, steps as nat);
                        assert forall|further: int| !#[trigger] starts_above(
                            path@,
                            further,
                            start@,
                        ) by {
                            if further > steps {
                                nothing_further_above(
                                    path@,
                                    (steps + 1) as nat,
                                    further as nat,
                                );
                            } else if further >= 0 {
                                assert(names@[further]@ == names@[further]@);
                            }
                        }
                    }
                    return None;
                },
            }
        }
    }
}

/// Whether a name is hidden: it begins with a dot.
pub open spec fn hidden_name(name: Seq<char>) -> bool {
    occurs_at(name, "."@, 0)
}

/// Whether an entry below the start of a walk is hidden.
pub open spec fn hidden(entry: WalkEntryView) -> bool {
    entry.depth() > 0 && hidden_name(entry.file_name())
}

/// Tells whether an entry below the start of a walk is hidden.
pub fn is_hidden(entry: &WalkEntry) -> (r: bool)
    ensures
        r == hidden(entry@),
{
    entry.parts.len() > 1 && starts_with(entry.file_name(), ".")
}

/// Whether a step of a path is a directory called `skip`.
pub open spec fn skipped_part(part: PathPartView, skip: Seq<char>) -> bool {
    part.name == skip && part.is_dir
}

/// Whether an entry is, or lies in, a directory called `skip` below the
/// start of the walk.
pub open spec fn inside(entry: WalkEntryView, skip: Seq<char>) -> bool {
    exists|k: int| 1 <= k < entry.parts.len() && skipped_part(#[trigger] entry.parts[k], skip)
}

/// Tells whether an entry is, or lies in, a directory called `skip` below
/// the start of the walk.
pub fn is_inside(entry: &WalkEntry, skip: &str) -> (r: bool)
    ensures
        r == inside(entry@, skip@),
{
    let mut depth: usize = entry.parts.len();
    while depth > 1
        invariant
            depth <= entry.parts.len(),
            forall|k: int|
                depth <= k < entry.parts.len() ==> !skipped_part(
                    #[trigger] entry@.parts[k],
                    skip@,
                ),
        decreases depth,
    {
        let pointer = &entry.parts[depth - 1];
        assert(entry@.parts[depth - 1] == pointer@);
        if same_text(pointer.name.as_str(), skip) && pointer.is_dir {
            return true;
        }
        depth -= 1;
    }
    false
}

/// Whether a walk that passes over hidden entries and over directories
/// called `skip` comes to an entry: no step below the start of the walk is
/// hidden or such a directory.
pub open spec fn reached(entry: WalkEntryView, skip: Option<Seq<char>>) -> bool {
    forall|k: int|
        1 <= k < entry.parts.len() ==> !hidden_name((#[trigger] entry.parts[k]).name) && (
        skip matches Some(s) ==> !skipped_part(entry.parts[k], s))
}

/// Tells whether a walk that passes over hidden entries and over
/// directories called `skip` comes to an entry.
pub fn is_reached(entry: &WalkEntry, skip: Option<&str>) -> (r: bool)
    ensures
        r == reached(
            entry@,
            match skip {
                Some(s) => Some(s@),
                None => None,
            },
        ),
{
    let mut k: usize = 1;
    while k < entry.parts.len()
        invariant
            1 <= k,
            forall|j: int|
                1 <= j < k && j < entry.parts.len() ==> !hidden_name(
                    (#[trigger] entry@.parts[j]).name,
                ) && (skip matches Some(s) ==> !skipped_part(entry@.parts[j], s@)),
        decreases entry.parts.len() - k,
    {
        let part = &entry.parts[k];
        assert(entry@.parts[k as int] == part@);
        if starts_with(part.name.as_str(), ".") {
            return false;
        }
        match skip {
            Some(s) => {
                if same_text(part.name.as_str(), s) && part.is_dir {
                    return false;
                }
            },
            None => {},
        }
        k += 1;
    }
    true
}

/// Whether a walk follows an entry: the entry is not hidden and neither is
/// nor lies in a directory called `skip`.
pub open spec fn followed(entry: WalkEntryView, skip: Option<Seq<char>>) -> bool {
    !hidden(entry) && (skip matches Some(s) ==> !inside(entry, s))
}

/// Tells whether a walk follows an entry.
pub fn is_followed(entry: &WalkEntry, skip: Option<&str>) -> (r: bool)
    ensures
        r == followed(
            entry@,
            match skip {
                Some(s) => Some(s@),
                None => None,
            },
        ),
{
    if is_hidden(entry) {
        return false;
    }
    match skip {
        Some(s) => !is_inside(entry, s),
        None => true,
    }
}

/// The entry that a walk passes `depth` steps below its start on the way
/// to an entry.
pub open spec fn on_the_way(entry: WalkEntryView, depth: int) -> WalkEntryView {
    WalkEntryView { parts: entry.parts.take(depth + 1), ..entry }
}

/// A walk comes to an entry exactly when it follows the entry and every
/// entry that it passes on the way to it.
pub proof fn reached_when_followed_all_the_way(entry: WalkEntryView, skip: Option<Seq<char>>)
    ensures
        reached(entry, skip) <==> forall|depth: int|
            1 <= depth < entry.parts.len() ==> followed(#[trigger] on_the_way(entry, depth), skip),
{
    if reached(entry, skip) {
        assert forall|depth: int| 1 <= depth < entry.parts.len() implies followed(
            #[trigger] on_the_way(entry, depth),
            skip,
        ) by {
            let passed = on_the_way(entry, depth);
            assert(passed.parts.last() == entry.parts[depth]);
            match skip {
                Some(s) => {
                    if inside(passed, s) {
                        let k = choose|k: int|
                            1 <= k < passed.parts.len() && skipped_part(
                                #[trigger] passed.parts[k],
                                s,
                            );
                        assert(passed.parts[k] == entry.parts[k]);
                    }
                },
                None => {},
            }
        }
    }
    if forall|depth: int|
        1 <= depth < entry.parts.len() ==> followed(#[trigger] on_the_way(entry, depth), skip) {
        assert forall|k: int| 1 <= k < entry.parts.len() implies !hidden_name(
            (#[trigger] entry.parts[k]).name,
        ) && (skip matches Some(s) ==> !skipped_part(entry.parts[k], s)) by {
            let passed = on_the_way(entry, k);
            assert(followed(passed, skip));
            assert(passed.parts.last() == entry.parts[k]);
            match skip {
                Some(s) => {
                    if skipped_part(entry.parts[k], s) {
                        assert(passed.parts[k] == entry.parts[k]);
                        assert(inside(passed, s));
                    }
                },
                None => {},
            }
        }
    }
}

/// The directory that an entry shows to be the root of a project: the one
/// that holds it, when the walk comes to the entry and the entry is a file
/// with one of the names `markers`.
pub open spec fn root_shown(
    entry: WalkEntryView,
    skip: Option<Seq<char>>,
    markers: Seq<Seq<char>>,
) -> Option<Seq<char>> {
    if reached(entry, skip) && entry.file_entry && markers.contains(entry.file_name()) {
        path_parent(entry.path)
    } else {
        None
    }
}

/// The roots that the entries of a walk show, in the order of the walk, one
/// for each marker file.
pub open spec fn roots_shown(
    entries: Seq<WalkEntryView>,
    skip: Option<Seq<char>>,
    markers: Seq<Seq<char>>,
) -> Seq<Seq<char>>
    decreases entries.len(),
{
    if entries.len() == 0 {
        Seq::empty()
    } else {
        match root_shown(entries.last(), skip, markers) {
            Some(root) => roots_shown(entries.drop_last(), skip, markers).push(root),
            None => roots_shown(entries.drop_last(), skip, markers),
        }
    }
}

/// The paths of a list without those that stand earlier in it.
pub open spec fn first_of_each(paths: Seq<Seq<char>>) -> Seq<Seq<char>>
    decreases paths.len(),
{
    if paths.len() == 0 {
        Seq::empty()
    } else if first_of_each(paths.drop_last()).contains(paths.last()) {
        first_of_each(paths.drop_last())
    } else {
        first_of_each(paths.drop_last()).push(paths.last())
    }
}

/// The views of a list of marker names.
pub open spec fn markers_view(markers: Seq<&'static str>) -> Seq<Seq<char>> {
    markers.map_values(|marker: &'static str| marker@)
}

/// Tells whether `name` is one of `markers`.
fn is_marker(name: &str, markers: &Vec<&'static str>) -> (r: bool)
    ensures
        r == markers_view(markers@).contains(name@),
{
    let mut i: usize = 0;
    while i < markers.len()
        invariant
            i <= markers.len(),
            forall|j: int| 0 <= j < i ==> markers_view(markers@)[j] != name@,
        decreases markers.len() - i,
    {
        assert(markers_view(markers@)[i as int] == markers@[i as int]@);
        if same_text(name, markers[i]) {
            return true;
        }
        i += 1;
    }
    false
}

/// The views of a list of paths.
pub open spec fn paths_view(paths: Seq<String>) -> Seq<Seq<char>> {
    paths.map_values(|path: String| path@)
}

/// Lists the roots that the entries of a walk show.
fn find_roots(entries: &Vec<WalkEntry>, skip: Option<&str>, markers: &Vec<&'static str>) -> (roots:
    Vec<String>)
    ensures
        paths_view(roots@) == roots_shown(
            entries_view(entries@),
            match skip {
                Some(s) => Some(s@),
                None => None,
            },
            markers_view(markers@),
        ),
{
    let ghost all = entries_view(entries@);
    let ghost skipped = match skip {
        Some(s) => Some(s@),
        None => None,
    };
    let mut roots: Vec<String> = Vec::new();
    let mut i: usize = 0;
    assert(all.take(0) == Seq::<WalkEntryView>::empty());
    assert(paths_view(roots@) == Seq::<Seq<char>>::empty());
    while i < entries.len()
        invariant
            i <= entries.len(),
            all == entries_view(entries@),
            skipped == match skip {
                Some(s) => Some(s@),
                None => None,
            },
            paths_view(roots@) == roots_shown(all.take(i as int), skipped, markers_view(markers@)),
        decreases entries.len() - i,
    {
        let entry = &entries[i];
        proof {
            assert(all.take(i as int + 1).drop_last() == all.take(i as int));
            assert(all.take(i as int + 1).last() == entry@);
        }
        if is_reached(entry, skip) && entry.file_entry && is_marker(entry.file_name(), markers) {
            match parent(entry.path.as_str()) {
                Some(root) => {
                    let ghost before = roots@;
                    roots.push(root);
                    assert(paths_view(roots@) == paths_view(before).push(root@));
                },
                None => {},
            }
        }
        i += 1;
    }
    assert(all.take(entries.len() as int) == all);
    roots
}

/// Drops the paths that stand earlier in the list.
fn keep_first_of_each(paths: Vec<String>) -> (kept: Vec<String>)
    ensures
        paths_view(kept@) == first_of_each(paths_view(paths@)),
{
    let ghost all = paths_view(paths@);
    let mut kept: Vec<String> = Vec::new();
    let mut i: usize = 0;
    assert(all.take(0) == Seq::<Seq<char>>::empty());
    assert(paths_view(kept@) == Seq::<Seq<char>>::empty());
    while i < paths.len()
        invariant
            i <= paths.len(),
            all == paths_view(paths@),
            paths_view(kept@) == first_of_each(all.take(i as int)),
        decreases paths.len() - i,
    {
        proof {
            assert(all.take(i as int + 1).drop_last() == all.take(i as int));
            assert(all.take(i as int + 1).last() == paths@[i as int]@);
        }
        let mut seen = false;
        let mut j: usize = 0;
        while j < kept.len()
            invariant
                j <= kept.len(),
                i < paths.len(),
                seen ==> paths_view(kept@).contains(paths@[i as int]@),
                !seen ==> forall|k: int| 0 <= k < j ==> paths_view(kept@)[k] != paths@[i as int]@,
            decreases kept.len() - j,
        {
            assert(paths_view(kept@)[j as int] == kept@[j as int]@);
            if kept[j] == paths[i] {
                seen = true;
            }
            j += 1;
        }
        if !seen {
            let ghost before = kept@;
            kept.push(paths[i].clone());
            assert(paths_view(kept@) == paths_view(before).push(paths@[i as int]@));
        }
        i += 1;
    }
    assert(all.take(paths.len() as int) == all);
    kept
}

/// The marker file of a Rust project.
pub const RUST_MARKER_FILE: &'static str = "Cargo.toml";

/// The directory of build products of a Rust project.
pub const RUST_SKIPPED: &'static str = "target";

/// The marker file of a TypeScript project.
pub const TYPESCRIPT_MARKER_FILE: &'static str = "package.json";

/// The directory of dependencies of a TypeScript project.
pub const TYPESCRIPT_SKIPPED: &'static str = "node_modules";

/// The marker file of a Go project.
pub const GO_MARKER_FILE: &'static str = "go.mod";

/// The directory of dependencies of a Go project.
pub const GO_SKIPPED: &'static str = "vendor";

/// The first marker file of a Python project.
pub const PYTHON_SETUP: &'static str = "setup.py";

/// The second marker file of a Python project.
pub const PYTHON_REQUIREMENTS: &'static str = "requirements.txt";

/// The third marker file of a Python project.
pub const PYTHON_PROJECT: &'static str = "pyproject.toml";

/// The roots of the Rust projects that a walk shows.
pub open spec fn rust_roots(entries: Seq<WalkEntryView>) -> Seq<Seq<char>> {
    roots_shown(entries, Some(RUST_SKIPPED@), seq![RUST_MARKER_FILE@])
}

/// The roots of the TypeScript projects that a walk shows.
pub open spec fn typescript_roots(entries: Seq<WalkEntryView>) -> Seq<Seq<char>> {
    roots_shown(entries, Some(TYPESCRIPT_SKIPPED@), seq![TYPESCRIPT_MARKER_FILE@])
}

/// The roots of the Go projects that a walk shows.
pub open spec fn go_roots(entries: Seq<WalkEntryView>) -> Seq<Seq<char>> {
    roots_shown(entries, Some(GO_SKIPPED@), seq![GO_MARKER_FILE@])
}

/// The roots of the Python projects that a walk shows, each once.
pub open spec fn py_roots(entries: Seq<WalkEntryView>) -> Seq<Seq<char>> {
    first_of_each(
        roots_shown(entries, None, seq![PYTHON_SETUP@, PYTHON_REQUIREMENTS@, PYTHON_PROJECT@]),
    )
}

/// Lists the roots of the Rust projects: the directories that hold a
/// `Cargo.toml` outside hidden directories and directories called `target`.
pub fn find_rust_roots(entries: &Vec<WalkEntry>) -> (roots: Vec<String>)
    ensures
        paths_view(roots@) == rust_roots(entries_view(entries@)),
{
    let markers = vec![RUST_MARKER_FILE];
    assert(markers_view(markers@) == seq![RUST_MARKER_FILE@]);
    find_roots(entries, Some(RUST_SKIPPED), &markers)
}

/// Lists the roots of the TypeScript projects: the directories that hold a
/// `package.json` outside hidden directories and directories called
/// `node_modules`.
pub fn find_typescript_roots(entries: &Vec<WalkEntry>) -> (roots: Vec<String>)
    ensures
        paths_view(roots@) == typescript_roots(entries_view(entries@)),
{
    let markers = vec![TYPESCRIPT_MARKER_FILE];
    assert(markers_view(markers@) == seq![TYPESCRIPT_MARKER_FILE@]);
    find_roots(entries, Some(TYPESCRIPT_SKIPPED), &markers)
}

/// Lists the roots of the Go projects: the directories that hold a `go.mod`
/// outside hidden directories and directories called `vendor`.
pub fn find_go_roots(entries: &Vec<WalkEntry>) -> (roots: Vec<String>)
    ensures
        paths_view(roots@) == go_roots(entries_view(entries@)),
{
    let markers = vec![GO_MARKER_FILE];
    assert(markers_view(markers@) == seq![GO_MARKER_FILE@]);
    find_roots(entries, Some(GO_SKIPPED), &markers)
}

/// Lists the roots of the Python projects, each once: the directories that
/// hold a `setup.py`, a `requirements.txt` or a `pyproject.toml` outside
/// hidden directories.
pub fn find_py_roots(entries: &Vec<WalkEntry>) -> (roots: Vec<String>)
    ensures
        paths_view(roots@) == py_roots(entries_view(entries@)),
{
    let markers = vec![PYTHON_SETUP, PYTHON_REQUIREMENTS, PYTHON_PROJECT];
    assert(markers_view(markers@) == seq![PYTHON_SETUP@, PYTHON_REQUIREMENTS@, PYTHON_PROJECT@]);
    keep_first_of_each(find_roots(entries, None, &markers))
}

/// The roots in `roots`, each as a root of the language `language`.
pub open spec fn rooted(roots: Seq<Seq<char>>, language: Language) -> Seq<(Seq<char>, Language)> {
    roots.map_values(|root: Seq<char>| (root, language))
}

/// The roots that a walk shows: those of the Rust projects, then those of
/// the TypeScript, the Go and the Python projects. A directory is listed
/// once for each language that it is a root of.
pub open spec fn project_roots(entries: Seq<WalkEntryView>) -> Seq<(Seq<char>, Language)> {
    rooted(rust_roots(entries), Language::Rust) + rooted(
        typescript_roots(entries),
        Language::Typescript,
    ) + rooted(go_roots(entries), Language::Go) + rooted(py_roots(entries), Language::Python)
}

/// The name of the directories that a walk for the projects of a language
/// passes over.
pub open spec fn skipped_of(language: Language) -> Option<Seq<char>> {
    match language {
        Language::Rust => Some(RUST_SKIPPED@),
        Language::Typescript => Some(TYPESCRIPT_SKIPPED@),
        Language::Go => Some(GO_SKIPPED@),
        Language::Python => None,
    }
}

/// Whether a component has a name that is neither hidden nor `skip`.
pub open spec fn clear_step(name: Option<Seq<char>>, skip: Option<Seq<char>>) -> bool {
    name matches Some(n) && !hidden_name(n) && skip != Some(n)
}

/// Whether a path lies below `start`, or is it, and none of its components
/// below the start is hidden or called `skip`.
pub open spec fn lies_clear_below(path: Seq<char>, start: Seq<char>, skip: Option<Seq<char>>)
    -> bool {
    exists|depth: int| #[trigger]
        starts_above(path, depth, start) && forall|k: int|
            0 <= k < depth ==> clear_step(#[trigger] step_above(path, k), skip)
}

/// Whether `entries` are entries of a walk from the directory `start`: each
/// has the steps from the start to its path, and the start is no file.
pub open spec fn walk_from(entries: Seq<WalkEntryView>, start: Seq<char>) -> bool {
    forall|i: int|
        0 <= i < entries.len() ==> walked_from(#[trigger] entries[i], start) && (
        entries[i].file_entry ==> entries[i].depth() > 0)
}

/// The root that an entry of a walk shows lies below the start of the walk,
/// and none of its components below the start is hidden or passed over.
proof fn shown_root_is_clear(
    entry: WalkEntryView,
    start: Seq<char>,
    skip: Option<Seq<char>>,
    markers: Seq<Seq<char>>,
)
    requires
        walked_from(entry, start),
        entry.depth() > 0,
        root_shown(entry, skip, markers) is Some,
    ensures
        lies_clear_below(root_shown(entry, skip, markers).unwrap(), start, skip),
{
    reveal_with_fuel(above, 2);
    let root = root_shown(entry, skip, markers).unwrap();
    let depth = entry.depth();
    assert(path_parent(entry.path) == Some(root));
    assert(above(root, (depth - 1) as nat) == above(entry.path, depth as nat));
    assert(starts_above(root, depth - 1, start));
    assert forall|k: int| 0 <= k < depth - 1 implies clear_step(
        #[trigger] step_above(root, k),
        skip,
    ) by {
        let j = depth - k - 1;
        assert(above(root, k as nat) == above(entry.path, (k + 1) as nat));
        assert(step_above(entry.path, depth - j) == Some(entry.parts[j].name));
        assert(!hidden_name(entry.parts[j].name));
        assert(entry.parts[j].is_dir);
    }
}

/// Every root that the entries of a walk show lies below the start of the
/// walk, and none of its components below the start is hidden or passed
/// over.
proof fn shown_roots_are_clear(
    entries: Seq<WalkEntryView>,
    start: Seq<char>,
    skip: Option<Seq<char>>,
    markers: Seq<Seq<char>>,
    root: Seq<char>,
)
    requires
        walk_from(entries, start),
        roots_shown(entries, skip, markers).contains(root),
    ensures
        lies_clear_below(root, start, skip),
    decreases entries.len(),
{
    let shown = roots_shown(entries, skip, markers);
    let at = choose|at: int| 0 <= at < shown.len() && shown[at] == root;
    let front = entries.drop_last();
    let before = roots_shown(front, skip, markers);
    assert forall|i: int| 0 <= i < front.len() implies walked_from(#[trigger] front[i], start) && (
    front[i].file_entry ==> front[i].depth() > 0) by {
        assert(front[i] == entries[i]);
    }
    if at < before.len() {
        assert(before[at] == root);
        shown_roots_are_clear(front, start, skip, markers, root);
    } else {
        assert(entries.last() == entries[entries.len() - 1]);
        shown_root_is_clear(entries.last(), start, skip, markers);
    }
}

/// What is kept of a list of paths stands in the list.
proof fn kept_paths_are_paths(paths: Seq<Seq<char>>, path: Seq<char>)
    requires
        first_of_each(paths).contains(path),
    ensures
        paths.contains(path),
    decreases paths.len(),
{
    let kept = first_of_each(paths);
    let at = choose|at: int| 0 <= at < kept.len() && kept[at] == path;
    let before = first_of_each(paths.drop_last());
    if at < before.len() {
        assert(before[at] == path);
        kept_paths_are_paths(paths.drop_last(), path);
        let i = choose|i: int| 0 <= i < paths.drop_last().len() && paths.drop_last()[i] == path;
        assert(paths[i] == path);
    } else {
        assert(paths[paths.len() - 1] == path);
    }
}

/// Every root of a project that is found in a walk from a directory lies
/// below that directory, and none of its components below the directory is
/// hidden, or has the name of the directories that the walk for its
/// language passes over.
pub proof fn roots_lie_below_the_start(
    entries: Seq<WalkEntryView>,
    start: Seq<char>,
    root: Seq<char>,
    language: Language,
)
    requires
        walk_from(entries, start),
        project_roots(entries).contains((root, language)),
    ensures
        lies_clear_below(root, start, skipped_of(language)),
{
    let rust = rooted(rust_roots(entries), Language::Rust);
    let typescript = rooted(typescript_roots(entries), Language::Typescript);
    let go = rooted(go_roots(entries), Language::Go);
    let python = rooted(py_roots(entries), Language::Python);
    let all = project_roots(entries);
    let at = choose|at: int| 0 <= at < all.len() && all[at] == (root, language);
    if at < rust.len() {
        assert(all[at] == rust[at]);
        assert(rust_roots(entries)[at] == root);
        shown_roots_are_clear(entries, start, Some(RUST_SKIPPED@), seq![RUST_MARKER_FILE@], root);
    } else if at < rust.len() + typescript.len() {
        let i = at - rust.len();
        assert(all[at] == typescript[i]);
        assert(typescript_roots(entries)[i] == root);
        shown_roots_are_clear(
            entries,
            start,
            Some(TYPESCRIPT_SKIPPED@),
            seq![TYPESCRIPT_MARKER_FILE@],
            root,
        );
    } else if at < rust.len() + typescript.len() + go.len() {
        let i = at - rust.len() - typescript.len();
        assert(all[at] == go[i]);
        assert(go_roots(entries)[i] == root);
        shown_roots_are_clear(entries, start, Some(GO_SKIPPED@), seq![GO_MARKER_FILE@], root);
    } else {
        let i = at - rust.len() - typescript.len() - go.len();
        assert(all[at] == python[i]);
        assert(py_roots(entries)[i] == root);
        let markers = seq![PYTHON_SETUP@, PYTHON_REQUIREMENTS@, PYTHON_PROJECT@];
        kept_paths_are_paths(roots_shown(entries, None, markers), root);
        shown_roots_are_clear(entries, start, None, markers, root);
    }
}

/// The views of a list of roots.
pub open spec fn roots_view(roots: Seq<(String, Language)>) -> Seq<(Seq<char>, Language)> {
    roots.map_values(|root: (String, Language)| (root.0@, root.1))
}

/// Puts `roots`, as roots of `language`, behind `list`.
fn add_roots(list: &mut Vec<(String, Language)>, roots: Vec<String>, language: Language)
    ensures
        roots_view(final(list)@) == roots_view(old(list)@) + rooted(paths_view(roots@), language),
{
    let ghost before = roots_view(list@);
    let mut roots = roots;
    let ghost all = paths_view(roots@);
    let mut i: usize = 0;
    assert(before + rooted(all.take(0), language) == before);
    while i < roots.len()
        invariant
            i <= roots.len(),
            all == paths_view(roots@),
            roots_view(list@) == before + rooted(all.take(i as int), language),
        decreases roots.len() - i,
    {
        let root = roots[i].clone();
        let ghost so_far = list@;
        list.push((root, language));
        assert(roots_view(list@) == roots_view(so_far).push((roots@[i as int]@, language)));
        assert(rooted(all.take(i as int + 1), language) == rooted(
            all.take(i as int),
            language,
        ).push((all[i as int], language)));
        i += 1;
    }
    assert(all.take(roots.len() as int) == all);
}

/// Finds the roots of the projects under a directory from the entries of a
/// walk through it.
pub fn find_project_roots(entries: &Vec<WalkEntry>) -> (roots: Vec<(String, Language)>)
    ensures
        roots_view(roots@) == project_roots(entries_view(entries@)),
{
    let mut roots: Vec<(String, Language)> = Vec::new();
    assert(roots_view(roots@) == Seq::<(Seq<char>, Language)>::empty());
    add_roots(&mut roots, find_rust_roots(entries), Language::Rust);
    add_roots(&mut roots, find_typescript_roots(entries), Language::Typescript);
    add_roots(&mut roots, find_go_roots(entries), Language::Go);
    add_roots(&mut roots, find_py_roots(entries), Language::Python);
    assert(roots_view(roots@) == project_roots(entries_view(entries@)));
    roots
}

} // verus!
