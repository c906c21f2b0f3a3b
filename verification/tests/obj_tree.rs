use sapri::obj_adapter::ObjAdapterImpl;
use sapri::obj_tree::{PathError, TreeValue};

fn text(s: &str) -> TreeValue {
    TreeValue::Text(s.to_string())
}

fn object(entries: Vec<(&str, TreeValue)>) -> TreeValue {
    TreeValue::Object(entries.into_iter().map(|(k, v)| (k.to_string(), v)).collect())
}

fn sample() -> TreeValue {
    object(vec![
        (
            "user",
            object(vec![
                ("name", text("Alice")),
                ("address", object(vec![("city", text("Wonderland"))])),
            ]),
        ),
        (
            "users",
            TreeValue::Array(vec![
                object(vec![("name", text("Ann"))]),
                object(vec![("name", text("Ben")), ("age", TreeValue::Number("30".to_string()))]),
            ]),
        ),
        ("flag", TreeValue::Bool(true)),
    ])
}

#[test]
fn nested_keys_are_followed() {
    let a = ObjAdapterImpl::new();
    let doc = sample();
    assert_eq!(a.get_path(&doc, "user.address.city"), Ok(&text("Wonderland")));
    assert_eq!(a.get_path(&doc, "user.name"), Ok(&text("Alice")));
    assert_eq!(a.get_path(&doc, "flag"), Ok(&TreeValue::Bool(true)));
    assert_eq!(a.get_path(&doc, ""), Ok(&doc));
}

#[test]
fn array_indices_are_followed() {
    let a = ObjAdapterImpl::new();
    let doc = sample();
    assert_eq!(a.get_path(&doc, "users[1].name"), Ok(&text("Ben")));
    assert_eq!(a.get_path(&doc, "users.0.name"), Ok(&text("Ann")));
    assert_eq!(a.get_path(&doc, "users[1].age"), Ok(&TreeValue::Number("30".to_string())));
}

#[test]
fn failed_reads_say_why() {
    let a = ObjAdapterImpl::new();
    let doc = sample();
    let e = a.get_path(&doc, "users[5]").unwrap_err();
    assert_eq!(e, PathError::IndexOutOfBounds(5));
    assert_eq!(e.to_string(), "Array index 5 out of bounds");
    let e = a.get_path(&doc, "user[0]").unwrap_err();
    assert_eq!(e.to_string(), "Expected array at path component '0'");
    let e = a.get_path(&doc, "user.phone").unwrap_err();
    assert_eq!(e.to_string(), "Path 'user.phone' not found");
    let e = a.get_path(&doc, "flag.x").unwrap_err();
    assert_eq!(e.to_string(), "Expected object at path component 'x'");
}

#[test]
fn without_array_support_indices_are_keys() {
    let a = ObjAdapterImpl::new().without_array_support();
    let doc = object(vec![("list", object(vec![("0", text("zero"))]))]);
    assert_eq!(a.get_path(&doc, "list.0"), Ok(&text("zero")));
    let e = a.get_path(&sample(), "users.0").unwrap_err();
    assert_eq!(e.to_string(), "Expected object at path component '0'");
}

#[test]
fn objects_flatten_to_keyed_leaves() {
    let a = ObjAdapterImpl::new();
    let doc = sample();
    let flat = a.to_flat_dict(&doc);
    let keys: Vec<&str> = flat.iter().map(|(k, _)| k.as_str()).collect();
    assert_eq!(
        keys,
        vec!["user.name", "user.address.city", "users[0].name", "users[1].name", "users[1].age", "flag"]
    );
    assert_eq!(flat[1].1, &text("Wonderland"));
    assert_eq!(flat[4].1, &TreeValue::Number("30".to_string()));
}

#[test]
fn flattening_uses_the_separator_and_keeps_the_last_leaf_of_a_key() {
    let a = ObjAdapterImpl::with_separator("/");
    let doc = object(vec![
        ("a", object(vec![("b", text("first"))])),
        ("a/b", text("second")),
        ("list", TreeValue::Array(vec![TreeValue::Null, TreeValue::Array(vec![])])),
    ]);
    let flat = a.to_flat_dict(&doc);
    assert_eq!(flat.len(), 3);
    assert_eq!(flat[0].0, "a/b");
    assert_eq!(flat[0].1, &text("second"));
    assert_eq!(flat[1].0, "list[0]");
    assert_eq!(flat[2].0, "list[1]");
    assert_eq!(flat[2].1, &TreeValue::Array(vec![]));
    assert!(a.to_flat_dict(&text("x")).is_empty());
}

#[test]
fn reads_follow_the_separator() {
    let a = ObjAdapterImpl::with_separator("/");
    let doc = sample();
    assert_eq!(a.get_path(&doc, "user/address/city"), Ok(&text("Wonderland")));
    assert_eq!(a.get_path(&doc, "users[1]/name"), Ok(&text("Ben")));
}
