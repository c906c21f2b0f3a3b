use sapri::resolver::{AliasResolver, PathNormalizer};

#[test]
fn resolver_impl_test_path_normalizer() {
    let normalizer = PathNormalizer::new(10);

    assert_eq!(normalizer.normalize("user.name", "").unwrap(), "user.name");

    assert_eq!(normalizer.normalize(".age", "user").unwrap(), "user.age");

    assert_eq!(normalizer.normalize("..city", "user.address").unwrap(), "user.city");
}

#[test]
fn resolver_impl_test_alias_resolver() {
    let mut alias_resolver = AliasResolver::new();
    alias_resolver.add_alias("u", "user");

    assert_eq!(alias_resolver.resolve_alias("u"), Some("user".to_string()));
    assert_eq!(alias_resolver.resolve_alias("x"), None);

    let resolved = alias_resolver.resolve_path("u.name");
    assert_eq!(resolved, "user.name");
}

#[test]
fn alias_leaves_unknown_heads_alone() {
    let mut r = AliasResolver::new();
    r.add_alias("u", "user");
    assert_eq!(r.resolve_path("x.name"), "x.name");
    assert_eq!(r.resolve_path("u"), "user");
    r.add_alias("u", "account");
    assert_eq!(r.resolve_path("u.id"), "account.id");
}

#[test]
fn normalizer_depth_and_flatten() {
    let n = PathNormalizer::new(2);
    assert!(n.check_depth("a.b"));
    assert!(!n.check_depth("a.b.c"));
    assert_eq!(n.flatten("a.b.c"), "a.b.c");
}

#[test]
fn integration_test_test_path_normalizer() {
    let normalizer = PathNormalizer::new(10);

    assert_eq!(normalizer.normalize("user.name", "").unwrap(), "user.name");
    assert_eq!(normalizer.normalize(".age", "user").unwrap(), "user.age");
    assert_eq!(normalizer.normalize("..city", "user.address").unwrap(), "user.city");
}

#[test]
fn integration_test_test_alias_resolver() {
    let mut alias_resolver = AliasResolver::new();
    alias_resolver.add_alias("u", "user");

    assert_eq!(alias_resolver.resolve_alias("u"), Some("user".to_string()));
    assert_eq!(alias_resolver.resolve_path("u.name"), "user.name");
}
