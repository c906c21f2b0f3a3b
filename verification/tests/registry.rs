use sapri::registry::{Registry, RegistryError};

#[test]
fn test_register_and_get() {
    let mut reg = Registry::new();
    reg.register("app.file.list", None).unwrap();

    let entry = reg.get("app.file.list").unwrap();
    assert_eq!(entry.full_name, "app.file.list");
    assert_eq!(entry.alias, "a.f.l");
}

#[test]
fn test_alias_generation() {
    let mut reg = Registry::new();
    reg.register("app.file.list", None).unwrap();
    reg.register("app.file.get", None).unwrap();
    reg.register("app.file.save", None).unwrap();

    assert!(reg.resolve("a.f.l").is_some());
    assert!(reg.resolve("a.f.g").is_some());
    assert!(reg.resolve("a.f.s").is_some());
}

#[test]
fn test_alias_collision_2char() {
    let mut reg = Registry::new();
    reg.register("app.file.list", None).unwrap();
    reg.register("app.file.light", None).unwrap();

    assert!(reg.resolve("a.f.l").is_some());
    assert!(reg.resolve("a.f.li").is_some());
}

#[test]
fn test_metadata() {
    let mut reg = Registry::new();
    reg.register("app.file.list", Some("handler1".to_string())).unwrap();
    reg.add_metadata("app.file.list", "public", "true").unwrap();

    let entry = reg.get("app.file.list").unwrap();
    assert_eq!(entry.metadata.get("public").unwrap(), "true");
}

#[test]
fn duplicate_name_is_refused() {
    let mut reg = Registry::new();
    reg.register("app.file", None).unwrap();
    match reg.register("app.file", None) {
        Err(RegistryError::AlreadyExists(n)) => assert_eq!(n, "app.file"),
        _ => panic!("expected AlreadyExists"),
    }
}

#[test]
fn three_char_alias_then_collision() {
    let mut reg = Registry::new();
    reg.register("list", None).unwrap();
    reg.register("lion", None).unwrap();
    reg.register("line", None).unwrap();
    assert_eq!(reg.get("list").unwrap().alias, "l");
    assert_eq!(reg.get("lion").unwrap().alias, "li");
    assert_eq!(reg.get("line").unwrap().alias, "lin");
    match reg.register("link", None) {
        Err(RegistryError::AliasCollision(n)) => assert_eq!(n, "link"),
        _ => panic!("expected AliasCollision"),
    }
}

#[test]
fn one_letter_level_collides_at_once() {
    let mut reg = Registry::new();
    reg.register("a", None).unwrap();
    match reg.register("a.b", None) {
        Err(RegistryError::AliasCollision(n)) => assert_eq!(n, "a.b"),
        _ => panic!("a.b must collide on its one-letter first level"),
    }
    assert!(reg.get("a.b").is_none());
    reg.register("b", None).unwrap();
    assert_eq!(reg.get("b").unwrap().alias, "b");
}

#[test]
fn missing_name_metadata_is_not_found() {
    let mut reg = Registry::new();
    match reg.add_metadata("nope", "k", "v") {
        Err(RegistryError::NotFound(n)) => assert_eq!(n, "nope"),
        _ => panic!("expected NotFound"),
    }
}

#[test]
fn resolve_prefers_full_names_and_lists_everything() {
    let mut reg = Registry::new();
    reg.register("app.file.list", Some("h".to_string())).unwrap();
    let e = reg.resolve("app.file.list").unwrap();
    assert_eq!(e.value.as_deref(), Some("h"));
    assert!(reg.get_by_alias("a.f.l").is_some());
    assert!(reg.get_by_alias("app.file.list").is_none());
    assert!(reg.resolve("x.y").is_none());
    assert_eq!(reg.list_names(), vec!["app.file.list"]);
    assert_eq!(reg.list_aliases(), vec!["a.f.l"]);
}

#[test]
fn names_and_aliases_are_listed_alike() {
    let mut reg = Registry::new();
    assert_eq!(reg.list_names().len(), 0);
    reg.register("app.file.list", None).unwrap();
    reg.register("app.file.light", None).unwrap();
    reg.register("core.net", None).unwrap();
    let names = reg.list_names();
    let aliases = reg.list_aliases();
    assert_eq!(names.len(), 3);
    assert_eq!(aliases.len(), names.len());
    for n in names {
        assert!(aliases.contains(&reg.get(n).unwrap().alias.as_str()));
    }
}
