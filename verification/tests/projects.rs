use am_list::merge::merge_functions;
use am_list::order::{arrange, comes_before, Arrangement};
use am_list::{
    list_all_project_functions, list_single_project_functions, FunctionInfo, Language,
    ListAmFunctions, Location, Position, Project, Range, SourceFile,
};
use std::str::FromStr;

fn at(file: &str, line: usize, column: usize, len: usize) -> Location {
    Location {
        file: file.to_string(),
        range: Range {
            start: Position { line, column },
            end: Position {
                line,
                column: column + len,
            },
        },
    }
}

fn info(
    module: &str,
    function: &str,
    definition: Option<Location>,
    instrumentation: Option<Location>,
) -> FunctionInfo {
    FunctionInfo {
        id: (module, function).into(),
        definition,
        instrumentation,
    }
}

fn rust_file(name: &str, module: &str, source: &str) -> SourceFile {
    SourceFile {
        path: format!("/ws/{name}"),
        file_name: name.to_string(),
        module: module.to_string(),
        source: source.to_string(),
    }
}

#[test]
fn merge_keeps_instrumentation_and_takes_the_definition() {
    let am = vec![info("m", "f", Some(at("a", 1, 0, 1)), Some(at("a", 1, 0, 1)))];
    let all = vec![
        info("m", "g", Some(at("a", 5, 0, 1)), None),
        info("m", "f", Some(at("a", 2, 3, 1)), None),
    ];
    let merged = merge_functions(am, all);
    assert_eq!(
        merged,
        vec![
            info("m", "f", Some(at("a", 2, 3, 1)), Some(at("a", 1, 0, 1))),
            info("m", "g", Some(at("a", 5, 0, 1)), None),
        ]
    );
}

#[test]
fn merge_lets_the_last_record_of_a_key_win() {
    let am = vec![
        info("m", "f", None, Some(at("a", 1, 0, 1))),
        info("m", "f", None, Some(at("b", 9, 0, 1))),
    ];
    let all = vec![
        info("m", "f", Some(at("a", 2, 0, 1)), None),
        info("m", "f", Some(at("a", 7, 0, 1)), None),
        info("n", "f", Some(at("a", 3, 0, 1)), None),
    ];
    let merged = merge_functions(am, all);
    assert_eq!(
        merged,
        vec![
            info("m", "f", Some(at("a", 7, 0, 1)), Some(at("b", 9, 0, 1))),
            info("n", "f", Some(at("a", 3, 0, 1)), None),
        ]
    );
    assert_eq!(merge_functions(vec![], vec![]), vec![]);
}

#[test]
fn wrapped_function_without_definition_stays_without_one() {
    let am = vec![info("ext://lib", "f", None, Some(at("a", 1, 0, 1)))];
    let merged = merge_functions(am.clone(), vec![]);
    assert_eq!(merged, am);
}

#[test]
fn natural_order_is_the_order_of_the_fields() {
    let a = info("a", "z", None, None);
    let b = info("b", "a", None, None);
    let b_defined = info("b", "a", Some(at("f", 1, 0, 1)), None);
    let b_later = info("b", "a", Some(at("f", 1, 2, 1)), None);
    let b_instrumented = info("b", "a", Some(at("f", 1, 0, 1)), Some(at("f", 0, 0, 1)));
    assert!(comes_before(Arrangement::Natural, &a, &b));
    assert!(!comes_before(Arrangement::Natural, &b, &a));
    assert!(!comes_before(Arrangement::Natural, &a, &a));
    assert!(comes_before(Arrangement::Natural, &b, &b_defined));
    assert!(comes_before(Arrangement::Natural, &b_defined, &b_later));
    assert!(comes_before(Arrangement::Natural, &b_defined, &b_instrumented));
    assert!(comes_before(
        Arrangement::Natural,
        &info("Z", "a", None, None),
        &info("a", "a", None, None)
    ));
    assert!(comes_before(
        Arrangement::Natural,
        &info("ab", "a", None, None),
        &info("abc", "a", None, None)
    ));

    let mut expected = vec![
        b_later.clone(),
        b.clone(),
        a.clone(),
        b_instrumented.clone(),
        b_defined.clone(),
    ];
    let sorted = arrange(Arrangement::Natural, expected.clone());
    expected.sort();
    assert_eq!(sorted, expected);
    assert_eq!(sorted, vec![a, b, b_defined, b_instrumented, b_later]);
}

#[test]
fn arranging_by_line_keeps_equals_in_their_order() {
    let undefined = info("m", "u", None, Some(at("f", 9, 0, 1)));
    let first = info("m", "first", Some(at("f", 3, 0, 1)), None);
    let second = info("m", "second", Some(at("f", 3, 8, 1)), None);
    let top = info("m", "top", Some(at("f", 0, 0, 1)), None);
    let sorted = arrange(
        Arrangement::ByDefinitionLine,
        vec![first.clone(), undefined.clone(), second.clone(), top.clone()],
    );
    assert_eq!(sorted, vec![undefined, top, first, second]);
}

#[test]
fn rust_project_is_listed_sorted_and_merged() {
    let files = vec![
        rust_file(
            "src/b.rs",
            "b",
            "#[autometrics]\nfn marked() {}\n\nfn plain() {}\n",
        ),
        rust_file("src/a.rs", "a", "mod inner {\n    fn deep() {}\n}\n"),
        rust_file("src/broken", "x", ""),
    ];
    let all = list_single_project_functions(&files, Language::Rust, true).unwrap();
    assert_eq!(
        all,
        vec![
            info("a::inner", "deep", Some(at("src/a.rs", 1, 7, 4)), None),
            info(
                "b",
                "marked",
                Some(at("src/b.rs", 1, 3, 6)),
                Some(at("src/b.rs", 1, 3, 6))
            ),
            info("b", "plain", Some(at("src/b.rs", 3, 3, 5)), None),
        ]
    );
    let only = list_single_project_functions(&files, Language::Rust, false).unwrap();
    assert_eq!(
        only,
        vec![info(
            "b",
            "marked",
            Some(at("src/b.rs", 1, 3, 6)),
            Some(at("src/b.rs", 1, 3, 6))
        )]
    );
}

#[test]
fn python_file_without_the_import_lists_no_instrumented_function() {
    let files = vec![SourceFile {
        path: "/p/m.py".to_string(),
        file_name: "m.py".to_string(),
        module: "p.m".to_string(),
        source: "@autometrics\ndef f():\n    pass\n".to_string(),
    }];
    assert_eq!(
        list_single_project_functions(&files, Language::Python, false).unwrap(),
        vec![]
    );
    let all = list_single_project_functions(&files, Language::Python, true).unwrap();
    assert_eq!(all, vec![info("p.m", "f", Some(at("m.py", 1, 4, 1)), None)]);
}

#[test]
fn typescript_project_resolves_imports_from_the_path_of_the_file() {
    let files = vec![SourceFile {
        path: "src".to_string(),
        file_name: "index.ts".to_string(),
        module: "index.ts".to_string(),
        source: "import { x as y } from './m'\nimport { autometrics } from '@autometrics/autometrics'\nconst z = autometrics(y);\n"
            .to_string(),
    }];
    let list = list_single_project_functions(&files, Language::Typescript, false).unwrap();
    assert_eq!(
        list,
        vec![info("src/m", "x", None, Some(at("index.ts", 2, 22, 1)))]
    );
}

#[test]
fn single_file_listing_reconciles_both_queries() {
    let source = "package p\n\n//autometrics:inst\nfunc a() {}\n\nfunc b() {}\n";
    let mut implementor = am_list::go::Impl {};
    let mut list = implementor
        .list_all_functions_in_single_file(source)
        .unwrap();
    list.sort();
    assert_eq!(
        list,
        vec![
            info(
                "p",
                "a",
                Some(at("<single file>", 3, 5, 1)),
                Some(at("<single file>", 3, 5, 1))
            ),
            info("p", "b", Some(at("<single file>", 5, 5, 1)), None),
        ]
    );
}

#[test]
fn projects_are_grouped_by_root_in_the_order_of_the_roots() {
    let go = |root: &str, package: &str| Project {
        root: root.to_string(),
        language: Language::Go,
        files: vec![SourceFile {
            path: format!("{root}/main.go"),
            file_name: "main.go".to_string(),
            module: String::new(),
            source: format!("package {package}\n\nfunc run() {{}}\n"),
        }],
    };
    let rust = Project {
        root: "/r/a".to_string(),
        language: Language::Rust,
        files: vec![rust_file("src/lib.rs", "lib", "fn start() {}\n")],
    };
    let listed = list_all_project_functions(&vec![go("/r/b", "b"), go("/r/a", "a"), rust]).unwrap();
    assert_eq!(listed.len(), 2);
    assert_eq!(listed[0].root, "/r/a");
    assert_eq!(listed[0].language, Language::Go);
    assert_eq!(
        listed[0].functions,
        vec![
            info("a", "run", Some(at("main.go", 2, 5, 3)), None),
            info("lib", "start", Some(at("src/lib.rs", 0, 3, 5)), None),
        ]
    );
    assert_eq!(listed[1].root, "/r/b");
    assert_eq!(
        listed[1].functions,
        vec![info("b", "run", Some(at("main.go", 2, 5, 3)), None)]
    );
}

#[test]
fn roots_are_ordered_step_by_step() {
    let project = |root: &str| Project {
        root: root.to_string(),
        language: Language::Go,
        files: vec![],
    };
    let listed =
        list_all_project_functions(&vec![project("/r/a-b"), project("/r/a/b"), project("/r/a")])
            .unwrap();
    let roots: Vec<&str> = listed.iter().map(|entry| entry.root.as_str()).collect();
    assert_eq!(roots, vec!["/r/a", "/r/a/b", "/r/a-b"]);
}

#[test]
fn languages_are_known_by_several_names() {
    for name in ["rust", "RS", "Rust"] {
        assert_eq!(Language::from_str(name), Ok(Language::Rust));
    }
    assert_eq!(Language::from_str("go"), Ok(Language::Go));
    for name in ["typescript", "ts", "javascript", "JS"] {
        assert_eq!(Language::from_str(name), Ok(Language::Typescript));
    }
    for name in ["python", "Py"] {
        assert_eq!(Language::from_str(name), Ok(Language::Python));
    }
    assert_eq!(
        Language::from_str("Golang"),
        Err("Unknown language: Golang".to_string())
    );
    assert_eq!(Language::parse("ts"), Ok(Language::Typescript));
    assert_eq!(Language::Rust.to_string(), "Rust");
    assert_eq!(Language::Go.to_string(), "Golang");
    assert_eq!(Language::Typescript.to_string(), "Typescript");
    assert_eq!(Language::Python.to_string(), "Python");
}

#[test]
fn function_info_names_module_and_function() {
    let record = info("m", "Type::f", None, None);
    assert_eq!(record.to_string(), "module: m, function: Type::f");
}

#[test]
fn a_function_found_in_two_files_is_listed_once_with_the_last_record() {
    let file = |name: &str| SourceFile {
        path: format!("/p/{name}"),
        file_name: name.to_string(),
        module: String::new(),
        source: "package p\n\n//autometrics:inst\nfunc twice() {}\n".to_string(),
    };
    let files = vec![file("a.go"), file("b.go")];
    let mut implementor = am_list::go::Impl {};
    let instrumented = implementor.list_autometrics_functions(&files).unwrap();
    assert_eq!(
        instrumented,
        vec![info(
            "p",
            "twice",
            Some(at("b.go", 3, 5, 5)),
            Some(at("b.go", 3, 5, 5))
        )]
    );
    let defined = implementor.list_all_function_definitions(&files).unwrap();
    assert_eq!(
        defined,
        vec![info("p", "twice", Some(at("b.go", 3, 5, 5)), None)]
    );
    let all = implementor.list_all_functions(&files).unwrap();
    assert_eq!(all, instrumented);
}

#[test]
fn keying_keeps_the_place_of_the_first_and_the_record_of_the_last() {
    let listed = am_list::merge::key_functions(vec![
        info("m", "f", Some(at("a", 1, 0, 1)), None),
        info("m", "g", Some(at("a", 2, 0, 1)), None),
        info("m", "f", Some(at("b", 3, 0, 1)), None),
    ]);
    assert_eq!(
        listed,
        vec![
            info("m", "f", Some(at("b", 3, 0, 1)), None),
            info("m", "g", Some(at("a", 2, 0, 1)), None),
        ]
    );
}

#[test]
fn no_project_gives_no_functions_and_no_failure() {
    assert_eq!(list_all_project_functions(&Vec::new()), Ok(Vec::new()));
    for language in [Language::Rust, Language::Go, Language::Typescript, Language::Python] {
        assert_eq!(list_single_project_functions(&Vec::new(), language, true), Ok(Vec::new()));
        assert_eq!(list_single_project_functions(&Vec::new(), language, false), Ok(Vec::new()));
    }
}

#[test]
fn every_source_has_a_listing_even_one_that_is_no_program() {
    let broken = "fn ((( {{{ #[autometrics] fn ok() {} }";
    let files = vec![rust_file("src/broken.rs", "broken", broken)];
    assert!(list_single_project_functions(&files, Language::Rust, true).is_ok());
    assert!(am_list::syntax::parse(Language::Rust, broken).is_ok());
    assert!(am_list::syntax::parse(Language::Python, "").is_ok());
}
