//! Listing the functions of whole projects: what every language offers, and
//! the choice of a language at run time.

use crate::merge::{distinct_ids, merge_functions, merged, merged_records_are_located};
use crate::model::{
    AmlError, FunctionInfo, FunctionInfoView, Language, all_defined, all_instrumented, all_located,
    infos_view,
};
use crate::order::{Arrangement, arrange, arranged, in_order};
use crate::paths::path_precedes;
use vstd::prelude::*;

verus! {

/// One source file of a project, as it was read.
#[derive(Debug, Default, PartialEq, Eq)]
pub struct SourceFile {
    /// The path under which the file was found.
    pub path: String,
    /// The path of the file from the root of the project.
    pub file_name: String,
    /// The module that the functions of the file belong to.
    pub module: String,
    /// The text of the file.
    pub source: String,
}

/// The records of the lists of `found`, one list after the other.
pub open spec fn flat(found: Seq<Seq<FunctionInfoView>>) -> Seq<FunctionInfoView>
    decreases found.len(),
{
    if found.len() == 0 {
        Seq::empty()
    } else {
        flat(found.drop_last()) + found.last()
    }
}

/// What an analysis offers for one language: the instrumented functions, all
/// the definitions, and both reconciled, of a project and of a single source.
pub trait ListAmFunctions {
    /// Whether the instrumented functions of a project are listed: the
    /// queries that the listing reads the files with can be made.
    spec fn lists_instrumented(project: Seq<SourceFile>) -> bool;

    /// Whether the functions that a project defines are listed: the query
    /// that the listing reads the files with can be made.
    spec fn lists_defined(project: Seq<SourceFile>) -> bool;

    /// Whether `list` is a listing of the instrumented functions of a
    /// project by the analysis: what its query for instrumented functions
    /// lists in trees parsed from the files.
    spec fn instrumented_in(project: Seq<SourceFile>, list: Seq<FunctionInfoView>) -> bool;

    /// Whether `list` is a listing of the functions that a project defines
    /// by the analysis: what its query for all functions lists in trees
    /// parsed from the files.
    spec fn defined_in(project: Seq<SourceFile>, list: Seq<FunctionInfoView>) -> bool;

    /// Whether `list` is a listing of the instrumented functions of a
    /// source by the analysis.
    spec fn instrumented_in_source(source: Seq<char>, list: Seq<FunctionInfoView>) -> bool;

    /// Whether `list` is a listing of the functions that a source defines by
    /// the analysis.
    spec fn defined_in_source(source: Seq<char>, list: Seq<FunctionInfoView>) -> bool;

    /// Whether `error` is what the listing of the instrumented functions of
    /// a project fails with: the error of the first of its queries that
    /// cannot be made.
    spec fn instrumented_in_failure(project: Seq<SourceFile>, error: AmlError) -> bool;

    /// Whether `error` is what the listing of the functions that a project
    /// defines fails with: the error of its query, which cannot be made.
    spec fn defined_in_failure(project: Seq<SourceFile>, error: AmlError) -> bool;

    /// Whether `error` is what the listing of the instrumented functions of
    /// a source fails with: the error of the first of its queries that
    /// cannot be made, or else that of the parse.
    spec fn instrumented_failure(source: Seq<char>, error: AmlError) -> bool;

    /// Whether `error` is what the listing of the functions that a source
    /// defines fails with: the error of its query where that cannot be made,
    /// or else that of the parse.
    spec fn defined_failure(source: Seq<char>, error: AmlError) -> bool;

    /// Lists the instrumented functions of the files of a project, one
    /// record per function: where several files give a record for a
    /// function, the record of the last of them. A file that has no parse
    /// adds nothing. The listing fails exactly when one of its queries
    /// cannot be made.
    fn list_autometrics_functions(&mut self, project: &Vec<SourceFile>) -> (r: Result<
        Vec<FunctionInfo>,
        AmlError,
    >)
        ensures
            r is Ok <==> Self::lists_instrumented(project@),
            match r {
                Ok(list) => {
                    &&& Self::instrumented_in(project@, infos_view(list@))
                    &&& all_instrumented(infos_view(list@))
                    &&& distinct_ids(infos_view(list@))
                },
                Err(e) => Self::instrumented_in_failure(project@, e),
            },
    ;

    /// Lists the functions that the files of a project define, one record
    /// per function: where several files give a record for a function, the
    /// record of the last of them. A file that has no parse adds nothing.
    /// The listing fails exactly when its query cannot be made.
    fn list_all_function_definitions(&mut self, project: &Vec<SourceFile>) -> (r: Result<
        Vec<FunctionInfo>,
        AmlError,
    >)
        ensures
            r is Ok <==> Self::lists_defined(project@),
            match r {
                Ok(list) => {
                    &&& Self::defined_in(project@, infos_view(list@))
                    &&& all_defined(infos_view(list@))
                    &&& distinct_ids(infos_view(list@))
                },
                Err(e) => Self::defined_in_failure(project@, e),
            },
    ;

    /// Lists the functions of a project, instrumented or only defined, one
    /// record per function: the instrumented functions, each with the
    /// definition that the listing of definitions has for it, and the
    /// functions that are only defined. The listing fails exactly when one
    /// of the two listings fails, with the error of the first that does.
    fn list_all_functions(&mut self, project: &Vec<SourceFile>) -> (r: Result<
        Vec<FunctionInfo>,
        AmlError,
    >)
        ensures
            r is Ok <==> Self::lists_instrumented(project@) && Self::lists_defined(project@),
            match r {
                Ok(list) => {
                    &&& exists|am: Seq<FunctionInfoView>, all: Seq<FunctionInfoView>|
                        {
                            &&& #[trigger] Self::instrumented_in(project@, am)
                            &&& #[trigger] Self::defined_in(project@, all)
                            &&& all_instrumented(am)
                            &&& all_defined(all)
                            &&& infos_view(list@) == merged(am, all)
                        }
                    &&& distinct_ids(infos_view(list@))
                    &&& all_located(infos_view(list@))
                },
                Err(e) => if Self::lists_instrumented(project@) {
                    Self::defined_in_failure(project@, e)
                } else {
                    Self::instrumented_in_failure(project@, e)
                },
            },
    {
        let am_functions = self.list_autometrics_functions(project)?;
        let all_function_definitions = self.list_all_function_definitions(project)?;
        proof {
            merged_records_are_located(
                infos_view(am_functions@),
                infos_view(all_function_definitions@),
            );
        }
        Ok(merge_functions(am_functions, all_function_definitions))
    }

    /// Lists the instrumented functions of one source.
    fn list_autometrics_functions_in_single_file(&mut self, source_code: &str) -> (r: Result<
        Vec<FunctionInfo>,
        AmlError,
    >)
        ensures
            match r {
                Ok(list) => Self::instrumented_in_source(source_code@, infos_view(list@))
                    && all_instrumented(infos_view(list@)),
                Err(e) => Self::instrumented_failure(source_code@, e),
            },
    ;

    /// Lists the functions that one source defines.
    fn list_all_function_definitions_in_single_file(&mut self, source_code: &str) -> (r: Result<
        Vec<FunctionInfo>,
        AmlError,
    >)
        ensures
            match r {
                Ok(list) => Self::defined_in_source(source_code@, infos_view(list@))
                    && all_defined(infos_view(list@)),
                Err(e) => Self::defined_failure(source_code@, e),
            },
    ;

    /// Lists the functions of one source, instrumented or only defined, one
    /// record per function: the instrumented functions, each with the
    /// definition that the listing of definitions has for it, and the
    /// functions that are only defined. The listing fails with what the
    /// listing of the instrumented functions fails with, or with what the
    /// listing of the definitions fails with after the first has succeeded.
    fn list_all_functions_in_single_file(&mut self, source_code: &str) -> (r: Result<
        Vec<FunctionInfo>,
        AmlError,
    >)
        ensures
            match r {
                Ok(list) => {
                    &&& exists|am: Seq<FunctionInfoView>, all: Seq<FunctionInfoView>|
                        {
                            &&& #[trigger] Self::instrumented_in_source(source_code@, am)
                            &&& #[trigger] Self::defined_in_source(source_code@, all)
                            &&& all_instrumented(am)
                            &&& all_defined(all)
                            &&& infos_view(list@) == merged(am, all)
                        }
                    &&& distinct_ids(infos_view(list@))
                    &&& all_located(infos_view(list@))
                },
                Err(e) => Self::instrumented_failure(source_code@, e) || ((exists|
                    am: Seq<FunctionInfoView>,
                |
                    #[trigger] Self::instrumented_in_source(source_code@, am) && all_instrumented(
                        am,
                    )) && Self::defined_failure(source_code@, e)),
            },
    {
        let am_functions = self.list_autometrics_functions_in_single_file(source_code)?;
        let all_function_definitions = self.list_all_function_definitions_in_single_file(
            source_code,
        )?;
        proof {
            merged_records_are_located(
                infos_view(am_functions@),
                infos_view(all_function_definitions@),
            );
        }
        Ok(merge_functions(am_functions, all_function_definitions))
    }
}

/// Whether `list` reconciles a listing of the instrumented functions of a
/// project with a listing of the functions that it defines.
pub open spec fn reconciles<T: ListAmFunctions + ?Sized>(
    project: Seq<SourceFile>,
    list: Seq<FunctionInfoView>,
) -> bool {
    exists|am: Seq<FunctionInfoView>, all: Seq<FunctionInfoView>|
        {
            &&& #[trigger] T::instrumented_in(project, am)
            &&& #[trigger] T::defined_in(project, all)
            &&& all_instrumented(am)
            &&& all_defined(all)
            &&& list == merged(am, all)
        }
}

/// Whether `found` is a listing of a project by the analysis of a language:
/// of all its functions, instrumented ones reconciled with those that it
/// defines, or of the instrumented ones only.
pub open spec fn lists(
    language: Language,
    all_functions: bool,
    project: Seq<SourceFile>,
    found: Seq<FunctionInfoView>,
) -> bool {
    match language {
        Language::Rust => listed_by::<crate::rust::Impl>(all_functions, project, found),
        Language::Go => listed_by::<crate::go::Impl>(all_functions, project, found),
        Language::Typescript => listed_by::<crate::typescript::Impl>(
            all_functions,
            project,
            found,
        ),
        Language::Python => listed_by::<crate::python::Impl>(all_functions, project, found),
    }
}

/// Whether `found` is a listing of a project by an analysis.
pub open spec fn listed_by<T: ListAmFunctions>(
    all_functions: bool,
    project: Seq<SourceFile>,
    found: Seq<FunctionInfoView>,
) -> bool {
    if all_functions {
        reconciles::<T>(project, found)
    } else {
        T::instrumented_in(project, found)
    }
}

/// Whether the listing of a project by the analysis of a language
/// succeeds: the queries that it reads the files with can be made.
pub open spec fn listing_owed(language: Language, all_functions: bool, project: Seq<SourceFile>)
    -> bool {
    match language {
        Language::Rust => owed_by::<crate::rust::Impl>(all_functions, project),
        Language::Go => owed_by::<crate::go::Impl>(all_functions, project),
        Language::Typescript => owed_by::<crate::typescript::Impl>(all_functions, project),
        Language::Python => owed_by::<crate::python::Impl>(all_functions, project),
    }
}

/// Whether the listing of a project by an analysis succeeds.
pub open spec fn owed_by<T: ListAmFunctions>(all_functions: bool, project: Seq<SourceFile>)
    -> bool {
    T::lists_instrumented(project) && (all_functions ==> T::lists_defined(project))
}

/// Whether `error` is what the listing of a project by the analysis of a
/// language fails with: the error of the first of its queries that cannot be
/// made.
pub open spec fn listing_failure(
    language: Language,
    all_functions: bool,
    project: Seq<SourceFile>,
    error: AmlError,
) -> bool {
    match language {
        Language::Rust => failure_by::<crate::rust::Impl>(all_functions, project, error),
        Language::Go => failure_by::<crate::go::Impl>(all_functions, project, error),
        Language::Typescript => failure_by::<crate::typescript::Impl>(
            all_functions,
            project,
            error,
        ),
        Language::Python => failure_by::<crate::python::Impl>(all_functions, project, error),
    }
}

/// Whether `error` is what the listing of a project by an analysis fails
/// with: that of the listing of the instrumented functions where it fails,
/// or else that of the listing of the definitions.
pub open spec fn failure_by<T: ListAmFunctions>(
    all_functions: bool,
    project: Seq<SourceFile>,
    error: AmlError,
) -> bool {
    if !T::lists_instrumented(project) {
        T::instrumented_in_failure(project, error)
    } else {
        all_functions && !T::lists_defined(project) && T::defined_in_failure(project, error)
    }
}

/// Lists the functions of the files of one project of the language
/// `language`: all of them, one record per function, or only the
/// instrumented ones, arranged by module, function and location. What is
/// arranged is a listing of the project by the analysis of the language. The
/// listing fails exactly when a query that it needs cannot be made, with the
/// error of the first such query.
pub fn list_single_project_functions(
    project: &Vec<SourceFile>,
    language: Language,
    all_functions: bool,
) -> (r: Result<Vec<FunctionInfo>, AmlError>)
    ensures
        r is Ok <==> listing_owed(language, all_functions, project@),
        match r {
            Ok(list) => in_order(Arrangement::Natural, infos_view(list@)) && exists|
                found: Seq<FunctionInfoView>,
            |
                {
                    &&& #[trigger] lists(language, all_functions, project@, found)
                    &&& infos_view(list@) == arranged(Arrangement::Natural, found)
                    &&& distinct_ids(found)
                    &&& all_functions ==> all_located(found)
                    &&& !all_functions ==> all_instrumented(found)
                },
            Err(e) => listing_failure(language, all_functions, project@, e),
        },
{
    let found = match language {
        Language::Rust => {
            let mut implementor = crate::rust::Impl {  };
            if all_functions {
                implementor.list_all_functions(project)?
            } else {
                implementor.list_autometrics_functions(project)?
            }
        },
        Language::Go => {
            let mut implementor = crate::go::Impl {  };
            if all_functions {
                implementor.list_all_functions(project)?
            } else {
                implementor.list_autometrics_functions(project)?
            }
        },
        Language::Typescript => {
            let mut implementor = crate::typescript::Impl {  };
            if all_functions {
                implementor.list_all_functions(project)?
            } else {
                implementor.list_autometrics_functions(project)?
            }
        },
        Language::Python => {
            let mut implementor = crate::python::Impl {  };
            if all_functions {
                implementor.list_all_functions(project)?
            } else {
                implementor.list_autometrics_functions(project)?
            }
        },
    };
    let ghost unsorted = infos_view(found@);
    let list = arrange(Arrangement::Natural, found);
    assert(lists(language, all_functions, project@, unsorted) && infos_view(list@) == arranged(
        Arrangement::Natural,
        unsorted,
    ) && distinct_ids(unsorted) && (all_functions ==> all_located(unsorted)) && (!all_functions
        ==> all_instrumented(unsorted)));
    Ok(list)
}

/// One project under a directory: its root, its language and its source
/// files.
#[derive(Debug, PartialEq, Eq)]
pub struct Project {
    pub root: String,
    pub language: Language,
    pub files: Vec<SourceFile>,
}

/// The functions of the projects that share a root.
#[derive(Debug, PartialEq, Eq)]
pub struct ProjectFunctions {
    pub root: String,
    pub language: Language,
    pub functions: Vec<FunctionInfo>,
}

/// What a [`ProjectFunctions`] is to a contract.
pub struct ProjectFunctionsView {
    pub root: Seq<char>,
    pub language: Language,
    pub functions: Seq<FunctionInfoView>,
}

impl View for ProjectFunctions {
    type V = ProjectFunctionsView;

    open spec fn view(&self) -> ProjectFunctionsView {
        ProjectFunctionsView {
            root: self.root@,
            language: self.language,
            functions: infos_view(self.functions@),
        }
    }
}

/// The views of a list of functions by root.
pub open spec fn by_root_view(list: Seq<ProjectFunctions>) -> Seq<ProjectFunctionsView> {
    list.map_values(|entry: ProjectFunctions| entry@)
}

/// Whether `at` is the place of `root` in a list that is ordered by root:
/// the first place whose root does not come before `root`, or the end.
pub open spec fn is_slot(list: Seq<ProjectFunctionsView>, root: Seq<char>, at: int) -> bool {
    &&& 0 <= at <= list.len()
    &&& forall|j: int| 0 <= j < at ==> path_precedes((#[trigger] list[j]).root, root)
    &&& at < list.len() ==> !path_precedes(list[at].root, root)
}

/// The place of `root` in a list that is ordered by root.
pub open spec fn slot(list: Seq<ProjectFunctionsView>, root: Seq<char>) -> int {
    choose|at: int| is_slot(list, root, at)
}

/// A list by root with the functions of one more project: behind the
/// functions that are listed for its root, under the language listed there,
/// or at the place of its root when the root is new.
pub open spec fn with_project(
    list: Seq<ProjectFunctionsView>,
    root: Seq<char>,
    language: Language,
    functions: Seq<FunctionInfoView>,
) -> Seq<ProjectFunctionsView> {
    let at = slot(list, root);
    if at < list.len() && !path_precedes(root, list[at].root) {
        list.update(
            at,
            ProjectFunctionsView { functions: list[at].functions + functions, ..list[at] },
        )
    } else {
        list.insert(at, ProjectFunctionsView { root, language, functions })
    }
}

/// The functions of the first `count` projects by root, where `found` holds
/// the functions of each project.
pub open spec fn by_root(
    projects: Seq<Project>,
    found: Seq<Seq<FunctionInfoView>>,
    count: nat,
) -> Seq<ProjectFunctionsView>
    decreases count,
{
    if count == 0 || count > projects.len() || count > found.len() {
        Seq::empty()
    } else {
        with_project(
            by_root(projects, found, (count - 1) as nat),
            projects[count - 1].root@,
            projects[count - 1].language,
            found[count - 1],
        )
    }
}

/// Whether two roots are the same path: neither comes before the other.
pub open spec fn same_root(a: Seq<char>, b: Seq<char>) -> bool {
    !path_precedes(a, b) && !path_precedes(b, a)
}

/// The functions of those of the first `count` projects whose root is
/// `root`, in the order of the projects.
pub open spec fn functions_under(
    projects: Seq<Project>,
    found: Seq<Seq<FunctionInfoView>>,
    root: Seq<char>,
    count: nat,
) -> Seq<FunctionInfoView>
    decreases count,
{
    if count == 0 || count > projects.len() || count > found.len() {
        Seq::empty()
    } else if same_root(projects[count - 1].root@, root) {
        functions_under(projects, found, root, (count - 1) as nat) + found[count - 1]
    } else {
        functions_under(projects, found, root, (count - 1) as nat)
    }
}

/// Whether the project at `first` is the first of the projects with the
/// root `root`.
pub open spec fn leads(projects: Seq<Project>, root: Seq<char>, first: int) -> bool {
    &&& 0 <= first < projects.len()
    &&& same_root(projects[first].root@, root)
    &&& forall|j: int| 0 <= j < first ==> !same_root((#[trigger] projects[j]).root@, root)
}

/// Whether `entry` lists the projects of one root among the first `count`
/// projects, of which the project at `first` is the first: it has the root
/// and the language of that project, and the functions of the projects of
/// the root in their order.
pub open spec fn groups(
    projects: Seq<Project>,
    found: Seq<Seq<FunctionInfoView>>,
    count: nat,
    entry: ProjectFunctionsView,
    first: int,
) -> bool {
    &&& first < count
    &&& leads(projects, entry.root, first)
    &&& entry.root == projects[first].root@
    &&& entry.language == projects[first].language
    &&& entry.functions == functions_under(projects, found, entry.root, count)
}

/// Whether `entry` lists the projects of one root among the first `count`
/// projects.
pub open spec fn is_group(
    projects: Seq<Project>,
    found: Seq<Seq<FunctionInfoView>>,
    count: nat,
    entry: ProjectFunctionsView,
) -> bool {
    exists|first: int| #[trigger] groups(projects, found, count, entry, first)
}

/// Whether `list` has an entry for the root `root`.
pub open spec fn has_root(list: Seq<ProjectFunctionsView>, root: Seq<char>) -> bool {
    exists|i: int| 0 <= i < list.len() && same_root(root, (#[trigger] list[i]).root)
}

/// Whether `list` lists the first `count` projects by root: its roots come
/// in the order of paths, so each root once; each entry lists the projects
/// of its root; and each project has the entry of its root.
pub open spec fn grouped(
    projects: Seq<Project>,
    found: Seq<Seq<FunctionInfoView>>,
    count: nat,
    list: Seq<ProjectFunctionsView>,
) -> bool {
    &&& forall|i: int, j: int|
        0 <= i < j < list.len() ==> path_precedes(
            (#[trigger] list[i]).root,
            (#[trigger] list[j]).root,
        )
    &&& forall|i: int|
        0 <= i < list.len() ==> is_group(projects, found, count, #[trigger] list[i])
    &&& forall|k: int| 0 <= k < count ==> has_root(list, (#[trigger] projects[k]).root@)
}

/// Whether the order of paths orders three roots: where the first comes
/// before the second, the second does not come before the first, and the
/// third comes after the first or before the second.
pub open spec fn ordered_at(a: Seq<char>, b: Seq<char>, c: Seq<char>) -> bool {
    path_precedes(a, b) ==> !path_precedes(b, a) && (path_precedes(a, c) || path_precedes(c, b))
}

/// Whether the order of paths orders the roots of the projects, as the
/// comparison of paths does.
pub open spec fn roots_ordered(projects: Seq<Project>) -> bool {
    forall|i: int, j: int, k: int|
        0 <= i < projects.len() && 0 <= j < projects.len() && 0 <= k < projects.len()
            ==> #[trigger] ordered_at(projects[i].root@, projects[j].root@, projects[k].root@)
}

/// A list has a place for every root.
proof fn slot_exists(list: Seq<ProjectFunctionsView>, root: Seq<char>, from: int) -> (at: int)
    requires
        0 <= from <= list.len(),
        forall|j: int| 0 <= j < from ==> path_precedes((#[trigger] list[j]).root, root),
    ensures
        is_slot(list, root, at),
        slot(list, root) == at,
    decreases list.len() - from,
{
    let at = if from == list.len() || !path_precedes(list[from].root, root) {
        from
    } else {
        slot_exists(list, root, from + 1)
    };
    slot_found(list, root, at);
    at
}

/// No project has the root: no function is listed under it.
proof fn nothing_under(
    projects: Seq<Project>,
    found: Seq<Seq<FunctionInfoView>>,
    root: Seq<char>,
    count: nat,
)
    requires
        count <= projects.len(),
        forall|j: int| 0 <= j < count ==> !same_root((#[trigger] projects[j]).root@, root),
    ensures
        functions_under(projects, found, root, count) == Seq::<FunctionInfoView>::empty(),
    decreases count,
{
    if count > 0 {
        nothing_under(projects, found, root, (count - 1) as nat);
        assert(!same_root(projects[count - 1].root@, root));
    }
}

/// Whether every entry of `list` but the one at `but` lies before the root
/// `root` when its place is before `at`, and after it when not.
pub open spec fn parted(list: Seq<ProjectFunctionsView>, root: Seq<char>, at: int, but: int)
    -> bool {
    forall|i: int|
        0 <= i < list.len() && i != but ==> if i < at {
            path_precedes((#[trigger] list[i]).root, root)
        } else {
            path_precedes(root, list[i].root)
        }
}

/// The entries around the place of the root of the next project lie before
/// and after that root.
proof fn parted_at_slot(
    projects: Seq<Project>,
    found: Seq<Seq<FunctionInfoView>>,
    n: int,
    list: Seq<ProjectFunctionsView>,
    at: int,
)
    requires
        0 <= n < projects.len(),
        roots_ordered(projects),
        grouped(projects, found, n as nat, list),
        is_slot(list, projects[n].root@, at),
    ensures
        parted(
            list,
            projects[n].root@,
            at,
            if at < list.len() && !path_precedes(projects[n].root@, list[at].root) {
                at
            } else {
                -1
            },
        ),
{
    let r = projects[n].root@;
    let merges = at < list.len() && !path_precedes(r, list[at].root);
    assert forall|i: int| 0 <= i < list.len() && !(merges && i == at) implies if i < at {
        path_precedes((#[trigger] list[i]).root, r)
    } else {
        path_precedes(r, list[i].root)
    } by {
        if i > at {
            assert(is_group(projects, found, n as nat, list[at]));
            assert(is_group(projects, found, n as nat, list[i]));
            let fa = choose|first: int| #[trigger] groups(projects, found, n as nat, list[at], first);
            let fi = choose|first: int| #[trigger] groups(projects, found, n as nat, list[i], first);
            assert(path_precedes(list[at].root, list[i].root));
            assert(ordered_at(projects[fa].root@, projects[fi].root@, projects[n].root@));
            assert(ordered_at(projects[n].root@, projects[fa].root@, projects[fi].root@));
            assert(ordered_at(projects[fa].root@, projects[fi].root@, projects[fa].root@));
        }
    }
}

/// A root that lies before or after every entry of a list is the root of
/// none of the projects that the list has an entry for.
proof fn new_root(
    projects: Seq<Project>,
    found: Seq<Seq<FunctionInfoView>>,
    n: int,
    list: Seq<ProjectFunctionsView>,
    at: int,
)
    requires
        0 <= n < projects.len(),
        roots_ordered(projects),
        grouped(projects, found, n as nat, list),
        parted(list, projects[n].root@, at, -1),
    ensures
        forall|j: int| 0 <= j < n ==> !same_root((#[trigger] projects[j]).root@, projects[n].root@),
        functions_under(projects, found, projects[n].root@, n as nat) == Seq::<
            FunctionInfoView,
        >::empty(),
{
    let r = projects[n].root@;
    assert forall|j: int| 0 <= j < n implies !same_root((#[trigger] projects[j]).root@, r) by {
        assert(has_root(list, projects[j].root@));
        let i = choose|i: int|
            0 <= i < list.len() && same_root(projects[j].root@, (#[trigger] list[i]).root);
        assert(is_group(projects, found, n as nat, list[i]));
        let fi = choose|first: int| #[trigger] groups(projects, found, n as nat, list[i], first);
        assert(ordered_at(projects[fi].root@, projects[n].root@, projects[j].root@));
        assert(ordered_at(projects[n].root@, projects[fi].root@, projects[j].root@));
    }
    nothing_under(projects, found, r, n as nat);
}

/// An entry whose root is not that of the next project lists the projects
/// of its root among one more project.
proof fn group_stays(
    projects: Seq<Project>,
    found: Seq<Seq<FunctionInfoView>>,
    n: int,
    entry: ProjectFunctionsView,
)
    requires
        0 <= n < projects.len(),
        n < found.len(),
        is_group(projects, found, n as nat, entry),
        !same_root(projects[n].root@, entry.root),
    ensures
        is_group(projects, found, (n + 1) as nat, entry),
{
    let first = choose|first: int| #[trigger] groups(projects, found, n as nat, entry, first);
    assert(groups(projects, found, (n + 1) as nat, entry, first));
}

/// The entry of the root of the next project, with the functions of that
/// project behind its own, lists the projects of its root among one more
/// project.
proof fn group_grows(
    projects: Seq<Project>,
    found: Seq<Seq<FunctionInfoView>>,
    n: int,
    entry: ProjectFunctionsView,
)
    requires
        0 <= n < projects.len(),
        n < found.len(),
        is_group(projects, found, n as nat, entry),
        same_root(projects[n].root@, entry.root),
    ensures
        is_group(
            projects,
            found,
            (n + 1) as nat,
            ProjectFunctionsView { functions: entry.functions + found[n], ..entry },
        ),
{
    let first = choose|first: int| #[trigger] groups(projects, found, n as nat, entry, first);
    let grown = ProjectFunctionsView { functions: entry.functions + found[n], ..entry };
    assert(groups(projects, found, (n + 1) as nat, grown, first));
}

/// A listing by root stays one when the functions of the next project go
/// behind those of the entry of its root.
proof fn grouped_after_merge(
    projects: Seq<Project>,
    found: Seq<Seq<FunctionInfoView>>,
    n: int,
    list: Seq<ProjectFunctionsView>,
    at: int,
)
    requires
        0 <= n < projects.len(),
        n < found.len(),
        0 <= at < list.len(),
        grouped(projects, found, n as nat, list),
        parted(list, projects[n].root@, at, at),
        same_root(projects[n].root@, list[at].root),
    ensures
        grouped(
            projects,
            found,
            (n + 1) as nat,
            list.update(
                at,
                ProjectFunctionsView { functions: list[at].functions + found[n], ..list[at] },
            ),
        ),
{
    let count = (n + 1) as nat;
    let entry = ProjectFunctionsView { functions: list[at].functions + found[n], ..list[at] };
    let after = list.update(at, entry);
    group_grows(projects, found, n, list[at]);
    assert forall|i: int| 0 <= i < after.len() implies is_group(
        projects,
        found,
        count,
        #[trigger] after[i],
    ) by {
        if i != at {
            assert(after[i] == list[i]);
            group_stays(projects, found, n, list[i]);
        }
    }
    assert forall|i: int, j: int| 0 <= i < j < after.len() implies path_precedes(
        (#[trigger] after[i]).root,
        (#[trigger] after[j]).root,
    ) by {
        assert(after[i].root == list[i].root && after[j].root == list[j].root);
    }
    assert forall|k: int| 0 <= k < count implies has_root(after, (#[trigger] projects[k]).root@) by {
        if k == n {
            assert(same_root(projects[k].root@, after[at].root));
        } else {
            assert(has_root(list, projects[k].root@));
            let i = choose|i: int|
                0 <= i < list.len() && same_root(projects[k].root@, (#[trigger] list[i]).root);
            assert(after[i].root == list[i].root);
        }
    }
}

/// A listing by root stays one when the next project, whose root is new,
/// gets an entry at the place of its root.
proof fn grouped_after_insert(
    projects: Seq<Project>,
    found: Seq<Seq<FunctionInfoView>>,
    n: int,
    list: Seq<ProjectFunctionsView>,
    at: int,
)
    requires
        0 <= n < projects.len(),
        n < found.len(),
        0 <= at <= list.len(),
        grouped(projects, found, n as nat, list),
        parted(list, projects[n].root@, at, -1),
        same_root(projects[n].root@, projects[n].root@),
        forall|j: int| 0 <= j < n ==> !same_root((#[trigger] projects[j]).root@, projects[n].root@),
        functions_under(projects, found, projects[n].root@, n as nat) == Seq::<
            FunctionInfoView,
        >::empty(),
    ensures
        grouped(
            projects,
            found,
            (n + 1) as nat,
            list.insert(
                at,
                ProjectFunctionsView {
                    root: projects[n].root@,
                    language: projects[n].language,
                    functions: found[n],
                },
            ),
        ),
{
    let count = (n + 1) as nat;
    let entry = ProjectFunctionsView {
        root: projects[n].root@,
        language: projects[n].language,
        functions: found[n],
    };
    let after = list.insert(at, entry);
    assert(functions_under(projects, found, entry.root, count) == found[n]);
    assert(groups(projects, found, count, entry, n));
    assert forall|i: int| 0 <= i < after.len() implies is_group(
        projects,
        found,
        count,
        #[trigger] after[i],
    ) by {
        if i != at {
            let before = if i < at {
                i
            } else {
                i - 1
            };
            assert(after[i] == list[before]);
            group_stays(projects, found, n, list[before]);
        }
    }
    assert forall|i: int, j: int| 0 <= i < j < after.len() implies path_precedes(
        (#[trigger] after[i]).root,
        (#[trigger] after[j]).root,
    ) by {
        if i != at {
            assert(after[i] == list[if i < at { i } else { i - 1 }]);
        }
        if j != at {
            assert(after[j] == list[if j < at { j } else { j - 1 }]);
        }
    }
    assert forall|k: int| 0 <= k < count implies has_root(after, (#[trigger] projects[k]).root@) by {
        if k == n {
            assert(same_root(projects[k].root@, after[at].root));
        } else {
            assert(has_root(list, projects[k].root@));
            let i = choose|i: int|
                0 <= i < list.len() && same_root(projects[k].root@, (#[trigger] list[i]).root);
            let shifted = if i < at {
                i
            } else {
                i + 1
            };
            assert(after[shifted] == list[i]);
        }
    }
}

/// The listing by root says what it lists directly: its roots are those of
/// the projects, in the order of paths and each root once; under a root
/// stand the functions of its projects, in the order of the projects; and
/// the root and the language are those of the first project of the root.
/// This holds where the order of paths orders the roots of the projects.
pub proof fn by_root_groups(
    projects: Seq<Project>,
    found: Seq<Seq<FunctionInfoView>>,
    count: nat,
)
    requires
        count <= projects.len(),
        count <= found.len(),
        roots_ordered(projects),
    ensures
        grouped(projects, found, count, by_root(projects, found, count)),
    decreases count,
{
    if count > 0 {
        let n = (count - 1) as int;
        by_root_groups(projects, found, n as nat);
        let list = by_root(projects, found, n as nat);
        let r = projects[n].root@;
        let at = slot_exists(list, r, 0);
        parted_at_slot(projects, found, n, list, at);
        if at < list.len() && !path_precedes(r, list[at].root) {
            grouped_after_merge(projects, found, n, list, at);
        } else {
            new_root(projects, found, n, list, at);
            assert(ordered_at(r, r, r));
            grouped_after_insert(projects, found, n, list, at);
        }
    }
}

/// A place that meets the description of the place of a root is the place
/// of the root.
proof fn slot_found(list: Seq<ProjectFunctionsView>, root: Seq<char>, at: int)
    requires
        is_slot(list, root, at),
    ensures
        slot(list, root) == at,
{
    let chosen = slot(list, root);
    assert(is_slot(list, root, chosen));
    if chosen < at {
        assert(path_precedes(list[chosen].root, root));
    } else if at < chosen {
        assert(path_precedes(list[at].root, root));
    }
}

/// Puts the functions of a project into a list by root.
fn add_project(
    list: &mut Vec<ProjectFunctions>,
    root: &str,
    language: Language,
    functions: Vec<FunctionInfo>,
)
    ensures
        by_root_view(final(list)@) == with_project(
            by_root_view(old(list)@),
            root@,
            language,
            infos_view(functions@),
        ),
{
    let ghost before = by_root_view(list@);
    let mut at: usize = 0;
    while at < list.len() && crate::paths::precedes(list[at].root.as_str(), root)
        invariant
            at <= list.len(),
            before == by_root_view(list@),
            forall|j: int| 0 <= j < at ==> path_precedes((#[trigger] before[j]).root, root@),
        decreases list.len() - at,
    {
        assert(before[at as int] == list@[at as int]@);
        at += 1;
    }
    proof {
        if at < list.len() {
            assert(before[at as int] == list@[at as int]@);
        }
        slot_found(before, root@, at as int);
    }
    if at < list.len() && !crate::paths::precedes(root, list[at].root.as_str()) {
        let ghost added = infos_view(functions@);
        let ghost had = infos_view(list@[at as int].functions@);
        let mut functions = functions;
        let mut entry = list.remove(at);
        entry.functions.append(&mut functions);
        assert(infos_view(entry.functions@) == had + added);
        list.insert(at, entry);
        assert(by_root_view(list@) == before.update(at as int, entry@));
    } else {
        let entry = ProjectFunctions { root: root.to_owned(), language, functions };
        list.insert(at, entry);
        assert(by_root_view(list@) == before.insert(at as int, entry@));
    }
}

/// Whether `found` is what one project adds to a listing by root: a
/// listing of all the functions of the project by the analysis of its
/// language, arranged by module, function and location.
pub open spec fn project_listed(project: Project, found: Seq<FunctionInfoView>) -> bool {
    exists|unsorted: Seq<FunctionInfoView>|
        #[trigger] lists(project.language, true, project.files@, unsorted) && found == arranged(
            Arrangement::Natural,
            unsorted,
        )
}

/// Whether `error` is what the listing of the projects fails with: the
/// error of the first project whose listing fails.
pub open spec fn first_failure(projects: Seq<Project>, error: AmlError) -> bool {
    exists|k: int|
        {
            &&& 0 <= k < projects.len()
            &&& !listing_owed((#[trigger] projects[k]).language, true, projects[k].files@)
            &&& forall|j: int|
                0 <= j < k ==> listing_owed(
                    (#[trigger] projects[j]).language,
                    true,
                    projects[j].files@,
                )
            &&& listing_failure(projects[k].language, true, projects[k].files@, error)
        }
}

/// Whether the listing of each of the projects succeeds.
pub open spec fn all_owed(projects: Seq<Project>) -> bool {
    forall|k: int|
        0 <= k < projects.len() ==> listing_owed(
            (#[trigger] projects[k]).language,
            true,
            projects[k].files@,
        )
}

/// Lists the functions of every project under a directory, one record per
/// function and project, by root and in the order of the roots. Projects
/// that share a root are listed together under the language of the first.
/// What that comes to, root by root, `by_root_groups` states. The listing
/// fails exactly when the listing of one of the projects fails, with the
/// error of the first that does; no project, no failure.
pub fn list_all_project_functions(projects: &Vec<Project>) -> (r: Result<
    Vec<ProjectFunctions>,
    AmlError,
>)
    ensures
        r is Ok <==> all_owed(projects@),
        match r {
            Ok(list) => exists|found: Seq<Seq<FunctionInfoView>>|
                {
                    &&& found.len() == projects.len()
                    &&& forall|k: int|
                        0 <= k < found.len() ==> project_listed(projects@[k], #[trigger] found[k])
                    &&& by_root_view(list@) == by_root(projects@, found, projects.len() as nat)
                },
            Err(e) => first_failure(projects@, e),
        },
{
    let mut list: Vec<ProjectFunctions> = Vec::new();
    let ghost mut found: Seq<Seq<FunctionInfoView>> = Seq::empty();
    let mut i: usize = 0;
    assert(by_root_view(list@) == Seq::<ProjectFunctionsView>::empty());
    while i < projects.len()
        invariant
            i <= projects.len(),
            found.len() == i,
            forall|k: int|
                0 <= k < found.len() ==> project_listed(projects@[k], #[trigger] found[k]),
            by_root_view(list@) == by_root(projects@, found, i as nat),
            forall|k: int|
                0 <= k < i ==> listing_owed(
                    (#[trigger] projects@[k]).language,
                    true,
                    projects@[k].files@,
                ),
        decreases projects.len() - i,
    {
        let project = &projects[i];
        let functions = list_single_project_functions(&project.files, project.language, true)?;
        proof {
            let before = found;
            found = found.push(infos_view(functions@));
            by_root_extends(projects@, before, found, i as nat);
        }
        add_project(&mut list, project.root.as_str(), project.language, functions);
        i += 1;
    }
    Ok(list)
}

/// The functions of the first projects by root do not depend on the
/// functions of later projects.
proof fn by_root_extends(
    projects: Seq<Project>,
    found: Seq<Seq<FunctionInfoView>>,
    more: Seq<Seq<FunctionInfoView>>,
    count: nat,
)
    requires
        count <= found.len() <= more.len(),
        count <= projects.len(),
        forall|k: int| 0 <= k < count ==> found[k] == more[k],
    ensures
        by_root(projects, found, count) == by_root(projects, more, count),
    decreases count,
{
    if count > 0 {
        by_root_extends(projects, found, more, (count - 1) as nat);
    }
}

} // verus!
