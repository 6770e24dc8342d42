use am_list::go::{AllFunctionsQuery as GoAll, AmQuery as GoAm};
use am_list::python::{AllFunctionsQuery as PyAll, AmQuery as PyAm};
use am_list::rust::{AllFunctionsQuery as RustAll, AmQuery as RustAm};
use am_list::typescript::{AllFunctionsQuery as TsAll, AmQuery as TsAm};
use am_list::FunctionInfo;

fn names(list: &[FunctionInfo]) -> Vec<String> {
    let mut names: Vec<String> = list
        .iter()
        .map(|info| format!("{}|{}", info.id.module, info.id.function))
        .collect();
    names.sort();
    names
}

#[test]
fn rust_attribute_is_found_among_other_attributes_and_comments() {
    let source = "#[inline]\n#[autometrics]\nfn before() {}\n\n#[autometrics(objective = API)]\n#[inline]\nfn after() {}\n\n#[autometrics]\n/// documented\nfn documented() {}\n\n#[inline]\nfn plain() {}\n\n#[autometrics::autometrics]\npub async fn qualified() {}\n";
    let listed = RustAm::try_new()
        .unwrap()
        .list_function_names("f.rs", "m".to_string(), source)
        .unwrap();
    assert_eq!(
        names(&listed),
        vec!["m|after", "m|before", "m|documented", "m|qualified"]
    );
    let all = RustAll::try_new()
        .unwrap()
        .list_function_names("f.rs", "m".to_string(), source)
        .unwrap();
    assert_eq!(
        names(&all),
        vec!["m|after", "m|before", "m|documented", "m|plain", "m|qualified"]
    );
}

#[test]
fn rust_functions_in_nested_scopes_are_listed_once() {
    let source = "mod outer {\n    pub struct S;\n    impl S {\n        pub fn method(&self) {}\n    }\n    mod inner {\n        fn leaf() {}\n    }\n    fn own() {}\n}\nimpl Trait for T {\n    fn required(&self) {}\n}\nfn top() {\n    fn local() {}\n}\n";
    let all = RustAll::try_new()
        .unwrap()
        .list_function_names("f.rs", "crate_name".to_string(), source)
        .unwrap();
    assert_eq!(
        names(&all),
        vec![
            "crate_name::outer::inner|leaf",
            "crate_name::outer|S::method",
            "crate_name::outer|own",
            "crate_name|T::required",
            "crate_name|local",
            "crate_name|top",
        ]
    );
}

#[test]
fn go_directive_is_found_above_other_comments() {
    let source = "package p\n\n// Documented does things.\n//\n//autometrics:inst --slo \"API\" --latency-target 99\nfunc Documented() {}\n\n//autometrics:inst\n// trailing words\nfunc Trailing() {}\n\n// just words\nfunc Plain() {}\n";
    let listed = GoAm::try_new()
        .unwrap()
        .list_function_names("f.go", source)
        .unwrap();
    assert_eq!(names(&listed), vec!["p|Documented", "p|Trailing"]);
    let all = GoAll::try_new()
        .unwrap()
        .list_function_names("f.go", source)
        .unwrap();
    assert_eq!(names(&all), vec!["p|Documented", "p|Plain", "p|Trailing"]);
}

#[test]
fn python_decorator_is_found_in_its_call_form_and_on_methods() {
    let source = "from autometrics import autometrics\n\n@autometrics(objective=API)\ndef called():\n    pass\n\nclass K:\n    @staticmethod\n    @autometrics\n    def method():\n        pass\n\n    def plain(self):\n        pass\n\n@other\nasync def unrelated():\n    pass\n";
    let listed = PyAm::try_new("autometrics")
        .unwrap()
        .list_function_names("f.py", source, "m")
        .unwrap();
    assert_eq!(names(&listed), vec!["m|K.method", "m|called"]);
    let all = PyAll::try_new()
        .unwrap()
        .list_function_names("f.py", source, "m")
        .unwrap();
    assert_eq!(
        names(&all),
        vec!["m|K.method", "m|K.plain", "m|called", "m|unrelated"]
    );
}

#[test]
fn typescript_exports_and_decorated_methods_are_found() {
    let source = "import { Autometrics, autometrics } from '@autometrics/autometrics';\n\nexport function declared() {}\n\nexport const arrow = async () => 1;\n\nexport const wrapped = autometrics(function inner() {});\n\nexport class Service {\n  @Autometrics()\n  handle() {}\n\n  plain() {}\n}\n\n@Autometrics()\nclass Whole {\n  one() {}\n}\n";
    let listed = TsAm::try_new()
        .unwrap()
        .list_function_names("f.ts", "m", source, None)
        .unwrap();
    assert_eq!(
        names(&listed),
        vec!["m|Service.handle", "m|Whole.one", "m|inner"]
    );
    let all = TsAll::try_new()
        .unwrap()
        .list_function_names("f.ts", "m", source)
        .unwrap();
    assert_eq!(
        names(&all),
        vec![
            "m|Service.handle",
            "m|Service.plain",
            "m|Whole.one",
            "m|arrow",
            "m|declared",
            "m|inner",
        ]
    );
}
