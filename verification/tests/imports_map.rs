use am_list::imports::{CanonicalSource, Identifier, ImportsMap, Source};

#[test]
fn relative_import_resolves_below_the_directory() {
    let place = Source::from("./handlers").into_canonical(Some("src/"));
    assert_eq!(place, CanonicalSource::from("src/handlers"));
}

#[test]
fn parent_import_of_a_top_directory_is_a_sibling() {
    let place = Source::from("../other").into_canonical(Some("src/"));
    assert_eq!(place, CanonicalSource::from("sibling://other"));
}

#[test]
fn parent_import_with_directories_left_is_external() {
    let place = Source::from("../other").into_canonical(Some("src/app"));
    assert_eq!(place, CanonicalSource::from("ext://other"));
}

#[test]
fn bare_import_is_external() {
    let place = Source::from("child_process").into_canonical(Some("src/"));
    assert_eq!(place, CanonicalSource::from("ext://child_process"));
}

#[test]
fn import_without_location_is_a_sibling() {
    let place = Source::from("./m").into_canonical(None);
    assert_eq!(place, CanonicalSource::from("sibling://./m"));
    let empty = Source::from("./m").into_canonical(Some(""));
    assert_eq!(empty, CanonicalSource::from("sibling://./m"));
}

#[test]
fn imports_map_remembers_and_replaces() {
    let mut map = ImportsMap::new();
    assert_eq!(map.find_namespace(&Identifier::from("ns")), None);
    assert_eq!(map.find_identifier(&Identifier::from("x")), None);

    assert_eq!(
        map.add_namespace(Identifier::from("ns"), CanonicalSource::from("ext://a")),
        None
    );
    assert_eq!(
        map.add_namespace(Identifier::from("ns"), CanonicalSource::from("ext://b")),
        Some(CanonicalSource::from("ext://a"))
    );
    assert_eq!(
        map.find_namespace(&Identifier::from("ns")),
        Some(CanonicalSource::from("ext://b"))
    );

    assert_eq!(
        map.add_named_import(Identifier::from("x"), CanonicalSource::from("src/m")),
        None
    );
    assert_eq!(
        map.find_identifier(&Identifier::from("x")),
        Some((Identifier::from("x"), CanonicalSource::from("src/m")))
    );
    assert_eq!(
        map.add_aliased_import(
            Identifier::from("x"),
            Identifier::from("real"),
            CanonicalSource::from("src/n")
        ),
        Some((Identifier::from("x"), CanonicalSource::from("src/m")))
    );
    assert_eq!(
        map.find_identifier(&Identifier::from("x")),
        Some((Identifier::from("real"), CanonicalSource::from("src/n")))
    );
}

#[test]
fn resolve_ident_splits_at_the_first_dot() {
    let mut map = ImportsMap::new();
    map.add_namespace(Identifier::from("other"), CanonicalSource::from("sibling://other"));
    map.add_aliased_import(
        Identifier::from("y"),
        Identifier::from("x"),
        CanonicalSource::from("src/m"),
    );

    assert_eq!(
        map.resolve_ident(Identifier::from("other.stuff")),
        Some((Identifier::from("stuff"), CanonicalSource::from("sibling://other")))
    );
    assert_eq!(
        map.resolve_ident(Identifier::from("other.deep.stuff")),
        Some((Identifier::from("deep.stuff"), CanonicalSource::from("sibling://other")))
    );
    assert_eq!(map.resolve_ident(Identifier::from("unknown.stuff")), None);
    assert_eq!(
        map.resolve_ident(Identifier::from("y")),
        Some((Identifier::from("x"), CanonicalSource::from("src/m")))
    );
    assert_eq!(map.resolve_ident(Identifier::from("other")), None);
    assert_eq!(Identifier::from("y").to_string(), "y");
}

#[test]
fn resolve_ident_looks_up_a_dotted_name_whole_without_its_namespace() {
    let mut map = ImportsMap::new();
    map.add_named_import(Identifier::from("a.b"), CanonicalSource::from("ext://p"));
    map.add_namespace(Identifier::from("ns"), CanonicalSource::from("sibling://ns"));
    map.add_named_import(Identifier::from("ns.x"), CanonicalSource::from("ext://q"));

    assert_eq!(
        map.resolve_ident(Identifier::from("a.b")),
        Some((Identifier::from("a.b"), CanonicalSource::from("ext://p")))
    );
    assert_eq!(map.resolve_ident(Identifier::from("a.c")), None);
    assert_eq!(
        map.resolve_ident(Identifier::from("ns.x")),
        Some((Identifier::from("x"), CanonicalSource::from("sibling://ns")))
    );
}
