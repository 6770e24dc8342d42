use am_list::go::AmQuery as GoAmQuery;
use am_list::python::{AmImportQuery, AmQuery as PythonAmQuery, get_node_qualname};
use am_list::rust::{
    is_within_impl_item, is_within_mod_item, AllFunctionsQuery as RustAllQuery,
    AmQuery as RustAmQuery,
};
use am_list::syntax::{new_parser, new_query, parse};
use am_list::typescript::{
    AllFunctionsQuery as TsAllQuery, AmQuery as TsAmQuery, AmWrapperDirectSubquery,
    AmWrapperSubquery, ImportsMapQuery,
};
use am_list::{AmlError, FunctionId, Language, Range};

#[test]
fn only_the_annotated_impl_block_is_instrumented() {
    let source = "struct Foo;\n\nimpl Foo {\n    fn plain() {}\n}\n\n#[autometrics]\nimpl Foo {\n    fn m() {}\n}\n";
    let listed = RustAmQuery::try_new()
        .unwrap()
        .list_function_names("f.rs", "module".to_string(), source)
        .unwrap();
    assert_eq!(listed.len(), 1);
    assert_eq!(listed[0].id, FunctionId::new("module", "Foo::m"));
    let all = RustAllQuery::try_new()
        .unwrap()
        .list_function_names("f.rs", "module".to_string(), source)
        .unwrap();
    let mut names: Vec<String> = all.iter().map(|info| info.id.function.clone()).collect();
    names.sort();
    assert_eq!(names, vec!["Foo::m", "Foo::plain"]);
}

#[test]
fn rust_module_in_an_impl_block_keeps_the_type_only_for_instrumented_functions() {
    let source = "fn top() {}\nmod a {\n    #[autometrics::autometrics]\n    fn inner() {}\n    mod b {\n        #[autometrics]\n        fn deep() {}\n    }\n}\n";
    let listed = RustAmQuery::try_new()
        .unwrap()
        .list_function_names("f.rs", String::new(), source)
        .unwrap();
    let ids: Vec<FunctionId> = listed.into_iter().map(|info| info.id).collect();
    assert_eq!(
        ids,
        vec![FunctionId::new("a", "inner"), FunctionId::new("a::b", "deep")]
    );
}

#[test]
fn rust_nodes_know_the_scopes_around_them() {
    let source = "mod a {\n    impl T {\n        fn f() {}\n    }\n}\nfn g() {}\n";
    let tree = parse(Language::Rust, source).unwrap();
    let root = tree.root_node();
    let f = root.descendant_for_byte_range(32, 33).unwrap();
    assert_eq!(f.utf8_text(source.as_bytes()).unwrap(), "f");
    assert!(is_within_mod_item(f, root));
    assert!(is_within_impl_item(f, root));
    let impl_body = f.parent().unwrap().parent().unwrap();
    assert_eq!(impl_body.kind(), "declaration_list");
    assert!(!is_within_impl_item(f, impl_body));
    assert!(!is_within_mod_item(f, impl_body));
    let g = root.descendant_for_byte_range(50, 51).unwrap();
    assert_eq!(g.utf8_text(source.as_bytes()).unwrap(), "g");
    assert!(!is_within_mod_item(g, root));
    assert!(!is_within_impl_item(g, root));
}

#[test]
fn python_nested_function_is_named_through_locals() {
    let source = "from autometrics import autometrics\n\ndef outer():\n    @autometrics\n    def inner():\n        pass\n\nclass K:\n    @autometrics\n    def method(self):\n        pass\n";
    let decorator = AmImportQuery::try_new()
        .unwrap()
        .get_decorator_name(source)
        .unwrap();
    assert_eq!(decorator, "autometrics");
    let listed = PythonAmQuery::try_new(&decorator)
        .unwrap()
        .list_function_names("f.py", source, "m")
        .unwrap();
    let names: Vec<&str> = listed.iter().map(|info| info.id.function.as_str()).collect();
    assert_eq!(names, vec!["outer.<locals>.inner", "K.method"]);
}

#[test]
fn python_qualname_of_a_node_without_parent_fails() {
    let source = "def f():\n    pass\n";
    let tree = parse(Language::Python, source).unwrap();
    let root = tree.root_node();
    assert_eq!(get_node_qualname(&root, source), Err(AmlError::InvalidText));
    let name = root.descendant_for_byte_range(4, 5).unwrap();
    assert_eq!(get_node_qualname(&name, source), Ok(String::new()));
}

#[test]
fn python_decorator_import_must_be_there_exactly_once() {
    let query = AmImportQuery::try_new().unwrap();
    assert_eq!(query.get_decorator_name("x = 1\n"), Err(AmlError::InvalidText));
    assert_eq!(
        query.get_decorator_name(
            "from autometrics import autometrics\nfrom autometrics import autometrics as am\n"
        ),
        Err(AmlError::InvalidText)
    );
    assert_eq!(
        query.get_decorator_name("from autometrics import autometrics as am\n"),
        Ok("am".to_string())
    );
}

#[test]
fn aliased_import_resolves_to_the_name_in_its_source() {
    let source = "import { x as y } from './m'\nimport { autometrics } from '@autometrics/autometrics'\nconst wrapped = autometrics(y);\n";
    let listed = TsAmQuery::try_new()
        .unwrap()
        .list_function_names("f.ts", "module", source, Some("src/"))
        .unwrap();
    assert_eq!(listed.len(), 1);
    assert_eq!(listed[0].id, FunctionId::new("src/m", "x"));
    assert_eq!(listed[0].definition, None);
}

#[test]
fn aliased_wrapper_is_followed() {
    let source = "import { autometrics as am } from '@autometrics/autometrics'\nconst a = am(first);\nconst b = autometrics(second);\n";
    let listed = TsAmQuery::try_new()
        .unwrap()
        .list_function_names("f.ts", "module", source, None)
        .unwrap();
    let names: Vec<&str> = listed.iter().map(|info| info.id.function.as_str()).collect();
    assert_eq!(names, vec!["first"]);
}

#[test]
fn typescript_without_wrapper_import_lists_no_wrapped_function() {
    let source = "const a = autometrics(first);\n";
    let listed = TsAmQuery::try_new()
        .unwrap()
        .list_function_names("f.ts", "module", source, None)
        .unwrap();
    assert_eq!(listed, vec![]);
}

#[test]
fn typescript_subqueries_read_the_calls_of_the_wrapper() {
    let source = "const a = wrap(first);\nconst b = wrap({ functionName: \"f\", moduleName: \"M\" }, () => 1);\n";
    let tree = parse(Language::Typescript, source).unwrap();
    let imports = ImportsMapQuery::try_new()
        .unwrap()
        .list_imports_under(None, tree.root_node(), source);
    let direct = AmWrapperDirectSubquery::try_new("wrap".to_string())
        .unwrap()
        .list_function_names_under("f.ts", "module", tree.root_node(), source, &imports);
    assert_eq!(direct.len(), 1);
    assert_eq!(direct[0].id, FunctionId::new("module", "first"));
    let named = AmWrapperSubquery::try_new("wrap".to_string())
        .unwrap()
        .list_function_names_under("f.ts", tree.root_node(), source);
    assert_eq!(named.len(), 1);
    assert_eq!(named[0].id, FunctionId::new("M", "f"));
    assert_eq!(
        AmWrapperSubquery::try_new("\"".to_string()).err(),
        Some(AmlError::CreateQuery)
    );
}

#[test]
fn typescript_definitions_carry_the_stretch_of_their_value() {
    let source = "function plain() {}\nconst arrow = () => {\n  return 1;\n};\n";
    let listed = TsAllQuery::try_new()
        .unwrap()
        .list_definitions("f.ts", "module", source)
        .unwrap();
    assert_eq!(listed.len(), 2);
    assert_eq!(listed[0].inner_info.id, FunctionId::new("module", "plain"));
    assert_eq!(listed[0].function_rvalue_range, None);
    assert_eq!(listed[1].inner_info.id, FunctionId::new("module", "arrow"));
    let value: Range = listed[1].function_rvalue_range.unwrap();
    assert_eq!((value.start.line, value.start.column), (1, 14));
    assert_eq!((value.end.line, value.end.column), (3, 1));
}

#[test]
fn missing_capture_names_are_reported() {
    let query = new_query(Language::Go, "(function_declaration) @other").unwrap();
    assert_eq!(
        GoAmQuery::with_query(query).err(),
        Some(AmlError::MissingNamedCapture("type.name".to_string()))
    );
    let query = new_query(
        Language::Rust,
        "(function_item name: (identifier) @func.name) (mod_item name: (identifier) @mod.name)",
    )
    .unwrap();
    assert_eq!(
        RustAllQuery::with_query(query).err(),
        Some(AmlError::MissingNamedCapture("mod.name".to_string()))
    );
    assert_eq!(
        new_query(Language::Go, "(no_such_node)").err(),
        Some(AmlError::CreateQuery)
    );
    assert!(new_parser(Language::Python).is_ok());
}

#[test]
fn go_source_with_unreadable_package_is_still_listed_by_bytes() {
    let source = "package caf\u{e9}\n\nfunc f() {}\n";
    let listed = am_list::go::AllFunctionsQuery::try_new()
        .unwrap()
        .list_function_names("f.go", source)
        .unwrap();
    assert_eq!(listed.len(), 1);
    assert_eq!(listed[0].id, FunctionId::new("caf\u{e9}", "f"));
}

#[test]
fn a_query_text_that_ends_in_an_unknown_name_is_refused() {
    for text in ["(x", "(function_declaration name: (identifier) @a) (x", "(identifier) @a (#eq? @b", "x", ""] {
        for language in [Language::Go, Language::Rust, Language::Python, Language::Typescript] {
            let made = new_query(language, text);
            if text.is_empty() {
                assert!(made.is_ok());
            } else {
                assert_eq!(made.err(), Some(AmlError::CreateQuery));
            }
        }
    }
    assert_eq!(
        AmWrapperSubquery::try_new("w\" (x".to_string()).err(),
        Some(AmlError::CreateQuery)
    );
    assert!(new_query(Language::Go, "(identifier) @a").is_ok());
    assert!(new_query(Language::Go, "(identifier) @a\n").is_ok());
}

#[test]
fn typescript_subqueries_parse_a_source_themselves() {
    let source = "const a = wrap(first);\nconst b = wrap({ functionName: \"f\", moduleName: \"M\" }, () => 1);\n";
    let tree = parse(Language::Typescript, source).unwrap();
    let imports = ImportsMapQuery::try_new()
        .unwrap()
        .list_imports_under(None, tree.root_node(), source);
    let direct = AmWrapperDirectSubquery::try_new("wrap".to_string())
        .unwrap()
        .list_function_names("f.ts", "module", source, imports)
        .unwrap();
    assert_eq!(direct.len(), 1);
    assert_eq!(direct[0].id, FunctionId::new("module", "first"));
    assert_eq!(direct[0].definition, None);
    let named = AmWrapperSubquery::try_new("wrap".to_string())
        .unwrap()
        .list_function_names("f.ts", source)
        .unwrap();
    assert_eq!(named.len(), 1);
    assert_eq!(named[0].id, FunctionId::new("M", "f"));
}
