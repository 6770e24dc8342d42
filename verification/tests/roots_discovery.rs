use am_list::files::{
    fully_qualified_module_name, is_hidden, is_listed, is_valid, python_module_name,
    python_module_name_with,
    qualified_module_name, source_file,
};
use am_list::roots::{
    find_go_roots, find_py_roots, find_rust_roots, find_typescript_roots, is_inside, is_reached,
    PathPart, WalkEntry,
};
use am_list::{find_project_roots, Language};

fn dir(name: &str) -> PathPart {
    PathPart {
        name: name.to_string(),
        is_dir: true,
        is_file: false,
    }
}

fn file(name: &str) -> PathPart {
    PathPart {
        name: name.to_string(),
        is_dir: false,
        is_file: true,
    }
}

fn entry(path: &str, is_file: bool) -> WalkEntry {
    let names: Vec<&str> = path.trim_start_matches('/').split('/').collect();
    let mut parts: Vec<PathPart> = names.iter().map(|name| dir(name)).collect();
    if is_file {
        let last = parts.len() - 1;
        parts[last] = file(names[last]);
    }
    WalkEntry {
        path: path.to_string(),
        parts,
        file_entry: is_file,
        dir_entry: !is_file,
        excluded: false,
    }
}

#[test]
fn decoy_manifest_in_target_is_no_root() {
    let entries = vec![
        entry("/repo", false),
        entry("/repo/go.mod", true),
        entry("/repo/services", false),
        entry("/repo/services/api", false),
        entry("/repo/services/api/Cargo.toml", true),
        entry("/repo/services/api/src", false),
        entry("/repo/services/api/src/main.rs", true),
        entry("/repo/services/api/target", false),
        entry("/repo/services/api/target/Cargo.toml", true),
        entry("/repo/services/api/target/debug", false),
        entry("/repo/services/api/target/debug/Cargo.toml", true),
    ];
    let roots = find_project_roots(&entries);
    assert_eq!(
        roots,
        vec![
            ("/repo/services/api".to_string(), Language::Rust),
            ("/repo".to_string(), Language::Go),
        ]
    );
}

#[test]
fn hidden_and_dependency_directories_hold_no_roots() {
    let entries = vec![
        entry("/repo", false),
        entry("/repo/.git", false),
        entry("/repo/.git/Cargo.toml", true),
        entry("/repo/package.json", true),
        entry("/repo/node_modules", false),
        entry("/repo/node_modules/dep", false),
        entry("/repo/node_modules/dep/package.json", true),
        entry("/repo/vendor", false),
        entry("/repo/vendor/go.mod", true),
        entry("/repo/web", false),
        entry("/repo/web/package.json", true),
    ];
    assert_eq!(find_rust_roots(&entries), Vec::<String>::new());
    assert_eq!(
        find_typescript_roots(&entries),
        vec!["/repo".to_string(), "/repo/web".to_string()]
    );
    assert_eq!(find_go_roots(&entries), Vec::<String>::new());
}

#[test]
fn a_file_called_like_a_skipped_directory_does_not_hide_anything() {
    let mut target_file = entry("/repo/target", true);
    target_file.parts[1] = file("target");
    assert!(!is_inside(&target_file, "target"));
    assert!(is_reached(&target_file, Some("target")));
    let inside = entry("/repo/target/Cargo.toml", true);
    assert!(is_inside(&inside, "target"));
    assert!(!is_reached(&inside, Some("target")));
    assert!(is_reached(&inside, Some("vendor")));
    assert!(is_reached(&inside, None));
}

#[test]
fn python_root_with_several_markers_is_listed_once() {
    let entries = vec![
        entry("/repo", false),
        entry("/repo/setup.py", true),
        entry("/repo/requirements.txt", true),
        entry("/repo/lib", false),
        entry("/repo/lib/pyproject.toml", true),
        entry("/repo/pyproject.toml", true),
    ];
    assert_eq!(
        find_py_roots(&entries),
        vec!["/repo".to_string(), "/repo/lib".to_string()]
    );
    let roots = find_project_roots(&entries);
    assert_eq!(
        roots,
        vec![
            ("/repo".to_string(), Language::Python),
            ("/repo/lib".to_string(), Language::Python),
        ]
    );
}

#[test]
fn one_directory_can_be_a_root_of_two_languages() {
    let entries = vec![
        entry("/repo", false),
        entry("/repo/Cargo.toml", true),
        entry("/repo/package.json", true),
    ];
    assert_eq!(
        find_project_roots(&entries),
        vec![
            ("/repo".to_string(), Language::Rust),
            ("/repo".to_string(), Language::Typescript),
        ]
    );
}

#[test]
fn the_start_of_the_walk_is_never_hidden_for_roots() {
    let entries = vec![entry("/.repo", false), entry("/.repo/go.mod", true)];
    assert_eq!(find_go_roots(&entries), vec!["/.repo".to_string()]);
}

#[test]
fn rust_module_names_follow_the_path() {
    assert_eq!(
        fully_qualified_module_name(&entry("/my-crate/src/server/handlers.rs", true)),
        "server::handlers"
    );
    assert_eq!(
        fully_qualified_module_name(&entry("/ws/my-crate/src/server/mod.rs", true)),
        "my_crate::server"
    );
    assert_eq!(fully_qualified_module_name(&entry("/ws/src/main.rs", true)), "main");
    assert_eq!(fully_qualified_module_name(&entry("/ws", false)), "");
}

#[test]
fn typescript_module_names_leave_out_the_first_directory() {
    assert_eq!(
        qualified_module_name(&entry("/app/src/handlers/route.ts", true)),
        "handlers/route.ts"
    );
    assert_eq!(qualified_module_name(&entry("/app/src/index.ts", true)), "index.ts");
    assert_eq!(qualified_module_name(&entry("/app/index.ts", true)), "");
}

#[test]
fn python_module_names_are_dotted() {
    let relative = ["pkg", "sub", "mod.py"].join(&std::path::MAIN_SEPARATOR.to_string());
    assert_eq!(python_module_name("proj", &relative), "proj.pkg.sub.mod");
    assert_eq!(python_module_name("proj", "top.py3"), "proj.top");
}

#[test]
fn source_files_are_told_by_name() {
    assert!(is_valid(Language::Rust, &entry("/c/src/lib.rs", true)));
    assert!(!is_valid(Language::Rust, &entry("/c/src/lib.go", true)));
    assert!(is_valid(Language::Rust, &entry("/c/src", false)));
    assert!(is_valid(Language::Go, &entry("/c/main.go", true)));
    assert!(is_valid(Language::Python, &entry("/c/a.py", true)));
    assert!(is_valid(Language::Python, &entry("/c/a.py3", true)));
    assert!(!is_valid(Language::Python, &entry("/c/a.pyc", true)));
    for name in ["a.js", "a.jsx", "a.ts", "a.tsx", "a.mjs"] {
        assert!(is_valid(Language::Typescript, &entry(&format!("/c/{name}"), true)));
    }
    assert!(!is_valid(Language::Typescript, &entry("/c/a.cjs", true)));
}

#[test]
fn hidden_entries_depend_on_the_language() {
    assert!(is_hidden(Language::Rust, &entry("/c/target", false)));
    assert!(!is_hidden(Language::Rust, &entry("/c/src/target", false)));
    assert!(!is_hidden(Language::Go, &entry("/c/target", false)));
    assert!(is_hidden(Language::Typescript, &entry("/c/src/node_modules", false)));
    assert!(is_hidden(Language::Python, &entry("/c/.venv", false)));
    assert!(is_hidden(Language::Go, &entry("/.c", false)));
}

#[test]
fn listing_passes_over_hidden_directories_and_exclusions() {
    assert!(is_listed(Language::Rust, &entry("/c/src/lib.rs", true)));
    assert!(!is_listed(Language::Rust, &entry("/c/target/build.rs", true)));
    assert!(is_listed(Language::Rust, &entry("/c/src/target/build.rs", true)));
    assert!(!is_listed(Language::Rust, &entry("/c/.cargo/x.rs", true)));
    assert!(!is_listed(Language::Typescript, &entry("/c/a/node_modules/x/i.ts", true)));
    let mut excluded = entry("/c/src/lib.rs", true);
    excluded.excluded = true;
    assert!(!is_listed(Language::Rust, &excluded));
}

#[test]
fn source_file_takes_its_names_from_the_walk() {
    let walked = entry("/ws/my-crate/src/server/handlers.rs", true);
    let found = source_file(Language::Rust, "/ws", &walked, "fn a() {}".to_string()).unwrap();
    assert_eq!(found.path, "/ws/my-crate/src/server/handlers.rs");
    assert_eq!(found.file_name, "my-crate/src/server/handlers.rs");
    assert_eq!(found.module, "my_crate::server::handlers");
    assert_eq!(found.source, "fn a() {}");
    assert_eq!(
        source_file(Language::Rust, "/elsewhere", &walked, String::new()),
        None
    );
    let go = source_file(Language::Go, "/ws", &walked, String::new()).unwrap();
    assert_eq!(go.module, "");
    let python = source_file(
        Language::Python,
        "/ws",
        &entry("/ws/pkg/mod.py", true),
        String::new(),
    )
    .unwrap();
    assert_eq!(python.module, "ws.pkg.mod");
}

#[test]
fn python_module_names_put_a_dot_for_each_separator_given() {
    assert_eq!(python_module_name_with("proj", "pkg/sub/mod.py", '/'), "proj.pkg.sub.mod");
    assert_eq!(python_module_name_with("proj", "pkg/sub/mod.py", ':'), "proj.pkg/sub/mod");
    assert_eq!(python_module_name_with("", "a:b", ':'), ".a.b");
}

#[test]
fn an_entry_knows_the_steps_from_the_start_of_its_walk() {
    let sep = std::path::MAIN_SEPARATOR.to_string();
    let start = ["", "ws", "repo"].join(&sep);
    let path = ["", "ws", "repo", "crates", "a", "Cargo.toml"].join(&sep);
    let found = WalkEntry::below(&start, &path, true, false, false).unwrap();
    assert_eq!(found.path, path);
    let names: Vec<&str> = found.parts.iter().map(|part| part.name.as_str()).collect();
    assert_eq!(names, vec!["repo", "crates", "a", "Cargo.toml"]);
    let dirs: Vec<bool> = found.parts.iter().map(|part| part.is_dir).collect();
    assert_eq!(dirs, vec![true, true, true, false]);
    assert!(found.parts[3].is_file);
    assert!(found.file_entry && !found.dir_entry && !found.excluded);
    assert_eq!(find_project_roots(&vec![found]), vec![(
        ["", "ws", "repo", "crates", "a"].join(&sep),
        Language::Rust
    )]);

    let top = WalkEntry::below(&start, &start, false, true, true).unwrap();
    assert_eq!(top.parts.len(), 1);
    assert_eq!(top.parts[0].name, "repo");
    assert!(top.parts[0].is_dir && top.excluded);

    let other = ["", "ws", "other", "Cargo.toml"].join(&sep);
    assert_eq!(WalkEntry::below(&start, &other, true, false, false), None);
    assert_eq!(WalkEntry::below(&start, "", true, false, false), None);
}

#[test]
fn hidden_and_passed_over_steps_keep_an_entry_from_showing_a_root() {
    let sep = std::path::MAIN_SEPARATOR.to_string();
    let start = ["", "repo"].join(&sep);
    let entries: Vec<WalkEntry> = [
        vec!["", "repo", "target", "x", "Cargo.toml"],
        vec!["", "repo", ".git", "Cargo.toml"],
        vec!["", "repo", "vendor", "go.mod"],
        vec!["", "repo", "target", "go.mod"],
    ]
    .iter()
    .map(|parts| WalkEntry::below(&start, &parts.join(&sep), true, false, false).unwrap())
    .collect();
    assert_eq!(find_project_roots(&entries), vec![(
        ["", "repo", "target"].join(&sep),
        Language::Go
    )]);
}
