use sapri::obj_adapter::{split_on_str, ObjAdapterImpl};
use sapri::paths::{path, path_arr};

#[test]
fn test_path_arr_macro() {
    let p = path_arr("user profile name");
    assert_eq!(p, vec!["user", "profile", "name"]);

    let p = path_arr("count");
    assert_eq!(p, vec!["count"]);

    let p = path_arr("dynamic.path");
    assert_eq!(p, vec!["dynamic.path"]);
}

#[test]
fn test_path_alias() {
    let p1 = path("app config debug");
    let p2 = path_arr("app config debug");
    assert_eq!(p1, p2);
}

#[test]
fn path_arr_collapses_runs_of_spaces() {
    assert_eq!(path_arr("  a   b\tc "), vec!["a", "b", "c"]);
    assert!(path_arr("   ").is_empty());
}

#[test]
fn test_split_path() {
    let adapter = ObjAdapterImpl::new();

    let parts = adapter.split_path("user.address.city");
    assert_eq!(parts, vec!["user", "address", "city"]);

    let parts2 = adapter.split_path("users[0].name");
    assert_eq!(parts2, vec!["users", "0", "name"]);

    let parts3 = adapter.split_path("nested.array[2].field");
    assert_eq!(parts3, vec!["nested", "array", "2", "field"]);
}

#[test]
fn split_path_without_arrays_keeps_brackets() {
    let adapter = ObjAdapterImpl::new().without_array_support();
    assert_eq!(adapter.split_path("users[0].name"), vec!["users[0]", "name"]);
    assert_eq!(adapter.split_path("..a..b."), vec!["a", "b"]);
}

#[test]
fn split_path_dot_inside_brackets() {
    let adapter = ObjAdapterImpl::new();
    assert_eq!(adapter.split_path("m[a.b].c"), vec!["m", "a.b", "c"]);
}

#[test]
fn path_components_on_separator() {
    let adapter = ObjAdapterImpl::with_separator("::");
    assert_eq!(adapter.get_path_components("a::b::c"), vec!["a", "b", "c"]);
    assert_eq!(adapter.get_path_components("a::::b"), vec!["a", "", "b"]);
    let dotted = ObjAdapterImpl::new();
    assert_eq!(dotted.get_path_components("user.name"), vec!["user", "name"]);
    assert_eq!(dotted.get_path_components(""), vec![""]);
}

#[test]
fn split_on_str_matches_std() {
    for (s, sep) in [("abc", ""), ("", ""), ("aaa", "aa"), ("x--y--", "--"), ("abc", "z")] {
        let expected: Vec<String> = s.split(sep).map(|p| p.to_string()).collect();
        assert_eq!(split_on_str(s, sep), expected, "{s:?} split on {sep:?}");
    }
}

#[test]
fn split_path_uses_the_separator() {
    let a = ObjAdapterImpl::with_separator("/");
    assert_eq!(a.get_path_components("a/b"), vec!["a", "b"]);
    assert_eq!(a.split_path("a/b"), vec!["a", "b"]);
    assert_eq!(a.split_path("a.b/c"), vec!["a.b", "c"]);
    assert_eq!(a.split_path("users[0]/name"), vec!["users", "0", "name"]);
    assert_eq!(a.split_path("m[x/y]/z"), vec!["m", "x/y", "z"]);
    let b = ObjAdapterImpl::with_separator("::");
    assert_eq!(b.split_path("::a::::b:c::"), vec!["a", "b:c"]);
}
