use am_list::instrument::{instrument_source, mark_lines, wrap_functions, InstrumentFile};
use am_list::typescript::TypescriptFunctionInfo;
use am_list::{FunctionInfo, Language, Location, Position, Range};

fn defined_at(name: &str, line: usize, column: usize) -> FunctionInfo {
    FunctionInfo {
        id: ("m", name).into(),
        definition: Some(Location {
            file: "f".to_string(),
            range: Range {
                start: Position { line, column },
                end: Position {
                    line,
                    column: column + name.len(),
                },
            },
        }),
        instrumentation: None,
    }
}

#[test]
fn go_markers_account_for_earlier_insertions() {
    let source = "package lambda\n\nfunc first() {\n\treturn\n}\n\nfunc second() {\n\treturn\n}\n// end\n";
    assert_eq!(source.lines().count(), 10);
    let rewritten = instrument_source(Language::Go, source).unwrap();
    let expected = "//go:generate autometrics --otel\npackage lambda\n\n//autometrics:inst\nfunc first() {\n\treturn\n}\n\n//autometrics:inst\nfunc second() {\n\treturn\n}\n// end\n";
    assert_eq!(rewritten, expected);
}

#[test]
fn go_instrumenting_twice_changes_nothing() {
    let source = "package lambda\n\nfunc first() {\n\treturn\n}\n\nfunc second() {\n\treturn\n}\n";
    let once = instrument_source(Language::Go, source).unwrap();
    let twice = instrument_source(Language::Go, &once).unwrap();
    assert_eq!(once, twice);
}

#[test]
fn rust_marker_goes_above_each_bare_function() {
    let source = "fn a() {}\n\n#[autometrics]\nfn b() {}\n\nimpl Foo {\n    fn c() {}\n}\n";
    let mut implementor = am_list::rust::Impl {};
    let rewritten = implementor.instrument_source_code(source).unwrap();
    let expected = "#[autometrics::autometrics]\nfn a() {}\n\n#[autometrics]\nfn b() {}\n\nimpl Foo {\n#[autometrics::autometrics]\n    fn c() {}\n}\n";
    assert_eq!(rewritten, expected);
    let again = implementor.instrument_source_code(&rewritten).unwrap();
    assert_eq!(again, rewritten);
}

#[test]
fn python_marker_is_indented_like_the_definition() {
    let source = "from autometrics import autometrics\n\nclass A:\n    def m(self):\n        return 1\n\ndef f():\n    return 2\n";
    let rewritten = instrument_source(Language::Python, source).unwrap();
    let expected = "from autometrics import autometrics\n\nclass A:\n    @autometrics\n    def m(self):\n        return 1\n\n@autometrics\ndef f():\n    return 2\n";
    assert_eq!(rewritten, expected);
    let again = instrument_source(Language::Python, &rewritten).unwrap();
    assert_eq!(again, rewritten);
}

#[test]
fn python_import_is_added_when_missing() {
    let source = "def f():\n    return 2\n";
    let rewritten = instrument_source(Language::Python, source).unwrap();
    assert_eq!(
        rewritten,
        "from autometrics import autometrics\n@autometrics\ndef f():\n    return 2\n"
    );
}

#[test]
fn typescript_values_are_wrapped_and_methods_decorated() {
    let source = "const f = () => {\n  return 1;\n};\n\nclass A {\n  m() {}\n}\n";
    let rewritten = instrument_source(Language::Typescript, source).unwrap();
    let expected = "import { autometrics, Autometrics } from '@autometrics/autometrics';\nconst f = autometrics(() => {\n  return 1;\n});\n\nclass A {\n@Autometrics()\n  m() {}\n}\n";
    assert_eq!(rewritten, expected);
}

#[test]
fn typescript_value_on_one_line_is_closed_behind_it() {
    let source = "import { autometrics } from '@autometrics/autometrics';\nconst f = () => 1;\n";
    let rewritten = instrument_source(Language::Typescript, source).unwrap();
    assert_eq!(
        rewritten,
        "import { autometrics } from '@autometrics/autometrics';\nconst f = autometrics(() => 1);\n"
    );
    let again = instrument_source(Language::Typescript, &rewritten).unwrap();
    assert_eq!(again, rewritten);
}

#[test]
fn fully_instrumented_source_comes_back_unchanged() {
    let source = "package lambda\n//go:generate autometrics --otel\n\n//autometrics:inst\nfunc the_one() {\n}\n";
    assert_eq!(instrument_source(Language::Go, source).unwrap(), source);
    let rust = "#[autometrics]\nfn main() {}\n";
    assert_eq!(instrument_source(Language::Rust, rust).unwrap(), rust);
}

#[test]
fn marking_sorts_the_functions_by_line() {
    let source = "a\nb\nc\n";
    let functions = vec![defined_at("late", 2, 0), defined_at("early", 0, 0)];
    let rewritten = mark_lines(Language::Rust, source, functions).unwrap();
    assert_eq!(
        rewritten,
        "#[autometrics::autometrics]\na\nb\n#[autometrics::autometrics]\nc\n"
    );
}

#[test]
fn marking_a_line_that_is_not_there_rewrites_nothing() {
    let source = "a\nb\n";
    assert_eq!(
        mark_lines(Language::Rust, source, vec![defined_at("far", 7, 0)]),
        None
    );
    assert_eq!(
        mark_lines(Language::Rust, source, vec![defined_at("end", 2, 0)]),
        Some("a\nb\n#[autometrics::autometrics]\n".to_string())
    );
}

#[test]
fn instrumented_and_undefined_functions_are_left_alone() {
    let source = "a\nb\n";
    let mut instrumented = defined_at("x", 0, 0);
    instrumented.instrumentation = instrumented.definition.clone();
    let mut undefined = defined_at("y", 1, 0);
    undefined.instrumentation = undefined.definition.take();
    assert_eq!(
        mark_lines(Language::Rust, source, vec![instrumented, undefined]),
        Some(source.to_string())
    );
}

#[test]
fn wrapping_inside_a_character_rewrites_nothing() {
    let source = "import { autometrics } from 'a';\nconst \u{e9} = () => 1;\n";
    let function = defined_at("f", 1, 6);
    let value = |start: usize, end: usize| TypescriptFunctionInfo {
        inner_info: defined_at("f", 1, 6),
        function_rvalue_range: Some(Range {
            start: Position {
                line: 1,
                column: start,
            },
            end: Position {
                line: 1,
                column: end,
            },
        }),
    };
    assert_eq!(
        wrap_functions(source, vec![function.clone()], &vec![value(7, 20)]),
        None
    );
    assert_eq!(
        wrap_functions(source, vec![function.clone()], &vec![value(11, 18)]),
        Some("import { autometrics } from 'a';\nconst \u{e9} = autometrics(() => 1);\n".to_string())
    );
    assert_eq!(
        wrap_functions(source, vec![function], &vec![value(11, 900)]),
        None
    );
}

#[test]
fn wrapping_takes_the_earliest_definition_of_a_name() {
    let source = "import { autometrics } from 'a';\nx\ny\n";
    let listed = |line: usize, range: Option<Range>| TypescriptFunctionInfo {
        inner_info: defined_at("f", line, 0),
        function_rvalue_range: range,
    };
    let span = Range {
        start: Position { line: 2, column: 0 },
        end: Position { line: 2, column: 1 },
    };
    let rewritten = wrap_functions(
        source,
        vec![defined_at("f", 2, 0)],
        &vec![listed(2, Some(span)), listed(1, None)],
    );
    assert_eq!(
        rewritten,
        Some("import { autometrics } from 'a';\nx\n@Autometrics()\ny\n".to_string())
    );
}

#[test]
fn only_a_grammar_or_a_query_that_cannot_be_made_ends_a_batch() {
    use_ends_batch(am_list::AmlError::CreateParser, true);
    use_ends_batch(am_list::AmlError::CreateQuery, true);
    use_ends_batch(am_list::AmlError::MissingNamedCapture("x".to_string()), true);
    use_ends_batch(am_list::AmlError::Parsing, false);
    use_ends_batch(am_list::AmlError::InvalidText, false);
    use_ends_batch(am_list::AmlError::InvalidPath, false);
    use_ends_batch(am_list::AmlError::IO, false);
}

fn use_ends_batch(error: am_list::AmlError, expected: bool) {
    assert_eq!(am_list::instrument::ends_batch(&error), expected);
}

#[test]
fn lines_are_cut_at_line_feeds() {
    use_lines("", &[]);
    use_lines("\n", &[""]);
    use_lines("a", &["a"]);
    use_lines("a\n", &["a"]);
    use_lines("a\r\n", &["a"]);
    use_lines("a\r", &["a\r"]);
    use_lines("a\n\nb", &["a", "", "b"]);
    use_lines("a\r\r\nb\r", &["a\r", "b\r"]);
    use_lines("\r\n\r\n", &["", ""]);
    assert!(am_list::text::any_line_contains("x\na\r", "\r"));
    assert!(!am_list::text::any_line_contains("x\na\r\n", "\r"));
    assert!(!am_list::text::any_line_contains("ab\ncd", "b\nc"));
    assert!(am_list::text::any_line_starts_with("ab\ncd", "cd"));
    assert!(!am_list::text::any_line_starts_with("ab\ncd", "b"));
    assert!(am_list::text::any_line_starts_with("ab\n\ncd", ""));
    assert!(!am_list::text::any_line_starts_with("", ""));
}

fn use_lines(text: &str, expected: &[&str]) {
    let lines: Vec<&str> = text.lines().collect();
    assert_eq!(lines, expected);
}
