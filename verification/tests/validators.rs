use sapri::validators::{base_check, check_constraint, registry_check, ConstraintSpec, FieldValue, FlatObj};

fn text(s: &str) -> FieldValue {
    FieldValue::Text(s.to_string())
}

fn obj(fields: &[(&str, FieldValue)]) -> FlatObj {
    FlatObj { fields: fields.iter().map(|(k, v)| (k.to_string(), v.clone())).collect() }
}

fn constraint(target: &str) -> ConstraintSpec {
    ConstraintSpec {
        target: target.to_string(),
        regex: None,
        pattern: None,
        values: None,
        enum_values: None,
        fields: None,
        count: None,
        exactly: None,
        min: None,
        max: None,
        field: None,
        value: None,
        expected: None,
        type_param: None,
        field1: None,
        field2: None,
        op: None,
    }
}

fn names(items: &[&str]) -> Option<Vec<Option<String>>> {
    Some(items.iter().map(|s| Some(s.to_string())).collect())
}

#[test]
fn req_needs_the_target() {
    let o = obj(&[("name", text("Ada"))]);
    assert_eq!(check_constraint("req", &o, &constraint("name")), Some(true));
    assert_eq!(check_constraint("req", &o, &constraint("age")), Some(false));
}

#[test]
fn first_field_with_a_path_wins() {
    let o = obj(&[("a", text("x")), ("a", text("y"))]);
    assert_eq!(o.get("a"), Some(&text("x")));
    assert_eq!(o.get("b"), None);
}

#[test]
fn float_validators_are_left_open() {
    let o = obj(&[("n", FieldValue::Number)]);
    for name in ["min", "max", "sum"] {
        assert_eq!(check_constraint(name, &o, &constraint("n")), None);
    }
}

#[test]
fn unknown_validator_fails() {
    let o = obj(&[("n", text("1"))]);
    assert_eq!(check_constraint("nope", &o, &constraint("n")), Some(false));
}

#[test]
fn pattern_uses_the_regex() {
    let o = obj(&[("code", text("AB12")), ("empty", text(""))]);
    let mut c = constraint("code");
    assert_eq!(check_constraint("pattern", &o, &c), Some(true));
    c.regex = Some("^[A-Z]+[0-9]+$".to_string());
    assert_eq!(check_constraint("pattern", &o, &c), Some(true));
    c.regex = Some("^[0-9]+$".to_string());
    assert_eq!(check_constraint("pattern", &o, &c), Some(false));
    // A missing field reads as the empty text.
    c.target = "missing".to_string();
    assert_eq!(check_constraint("pattern", &o, &c), Some(false));
    c.regex = Some("^$".to_string());
    assert_eq!(check_constraint("pattern", &o, &c), Some(true));
}

#[test]
fn pattern_that_does_not_compile_accepts_only_empty_text() {
    let o = obj(&[("code", text("AB12")), ("empty", text(""))]);
    let mut c = constraint("code");
    c.regex = Some("foo(bar".to_string());
    assert_eq!(check_constraint("pattern", &o, &c), Some(false));
    c.target = "empty".to_string();
    assert_eq!(check_constraint("pattern", &o, &c), Some(true));
}

#[test]
fn enum_scans_the_allowed_values() {
    let o = obj(&[("color", text("red")), ("n", FieldValue::Number)]);
    let mut c = constraint("color");
    assert_eq!(check_constraint("enum", &o, &c), Some(false));
    c.values = Some(vec![text("green"), text("red")]);
    assert_eq!(check_constraint("enum", &o, &c), Some(true));
    c.values = Some(vec![text("green"), FieldValue::Null]);
    assert_eq!(check_constraint("enum", &o, &c), Some(false));
    c.target = "n".to_string();
    c.values = Some(vec![text("one"), FieldValue::Number]);
    assert_eq!(check_constraint("enum", &o, &c), None);
    c.target = "missing".to_string();
    assert_eq!(check_constraint("enum", &o, &c), Some(false));
}

#[test]
fn counting_validators() {
    let o = obj(&[("a", text("1")), ("b", FieldValue::Null)]);
    let mut c = constraint("");
    assert_eq!(check_constraint("mutex", &o, &c), Some(false));
    assert_eq!(check_constraint("at_least_one", &o, &c), Some(false));
    c.fields = names(&["a", "c"]);
    assert_eq!(check_constraint("mutex", &o, &c), Some(true));
    assert_eq!(check_constraint("at_least_one", &o, &c), Some(true));
    c.fields = names(&["a", "b", "c"]);
    assert_eq!(check_constraint("mutex", &o, &c), Some(false));
    c.count = Some(2);
    assert_eq!(check_constraint("exactly", &o, &c), Some(true));
    c.count = Some(3);
    assert_eq!(check_constraint("exactly", &o, &c), Some(false));
    c.fields = Some(vec![None, Some("c".to_string())]);
    assert_eq!(check_constraint("at_least_one", &o, &c), Some(false));
    c.count = Some(0);
    assert_eq!(check_constraint("exactly", &o, &c), Some(true));
}

#[test]
fn guard_compares_the_value() {
    let o = obj(&[("mode", text("on")), ("n", FieldValue::Number), ("flag", FieldValue::Bool(true))]);
    let mut c = constraint("");
    c.field = Some("mode".to_string());
    assert_eq!(check_constraint("guard", &o, &c), Some(false));
    c.value = Some(text("on"));
    assert_eq!(check_constraint("guard", &o, &c), Some(true));
    c.value = Some(text("off"));
    assert_eq!(check_constraint("guard", &o, &c), Some(false));
    c.field = Some("flag".to_string());
    c.value = Some(FieldValue::Bool(true));
    assert_eq!(check_constraint("guard", &o, &c), Some(true));
    c.field = Some("n".to_string());
    c.value = Some(FieldValue::Number);
    assert_eq!(check_constraint("guard", &o, &c), None);
    c.field = Some("missing".to_string());
    assert_eq!(check_constraint("guard", &o, &c), Some(false));
}

#[test]
fn type_checks_the_kind() {
    let o = obj(&[
        ("s", text("x")),
        ("n", FieldValue::Number),
        ("b", FieldValue::Bool(false)),
        ("z", FieldValue::Null),
        ("o", FieldValue::Object),
    ]);
    let mut c = constraint("");
    let cases = [
        ("s", "string", true),
        ("n", "number", true),
        ("b", "bool", true),
        ("z", "null", true),
        ("missing", "null", true),
        ("o", "object", true),
        ("s", "number", false),
        ("missing", "string", false),
        ("s", "array", false),
    ];
    for (field, ty, expected) in cases {
        c.field = Some(field.to_string());
        c.expected = Some(ty.to_string());
        assert_eq!(check_constraint("type", &o, &c), Some(expected), "{} {}", field, ty);
    }
    c.expected = None;
    assert_eq!(check_constraint("type", &o, &c), Some(false));
}

#[test]
fn length_counts_bytes() {
    let o = obj(&[("word", text("héllo")), ("n", FieldValue::Number)]);
    let mut c = constraint("");
    c.field = Some("word".to_string());
    assert_eq!(check_constraint("length", &o, &c), Some(true));
    c.exactly = Some(6);
    assert_eq!(check_constraint("length", &o, &c), Some(true));
    c.exactly = Some(5);
    assert_eq!(check_constraint("length", &o, &c), Some(false));
    c.exactly = None;
    c.min = Some(2);
    c.max = Some(5);
    assert_eq!(check_constraint("length", &o, &c), Some(false));
    c.max = Some(6);
    assert_eq!(check_constraint("length", &o, &c), Some(true));
    c.field = Some("n".to_string());
    assert_eq!(check_constraint("length", &o, &c), Some(false));
}

#[test]
fn simple_test_test_req_validator() {
    let c = constraint("name");
    assert_eq!(check_constraint("req", &obj(&[("name", text("Alice"))]), &c), Some(true));
    assert_eq!(check_constraint("req", &obj(&[]), &c), Some(false));
}

#[test]
fn simple_test_test_pattern_validator() {
    let mut c = constraint("email");
    c.regex = Some(r"^[^@]+@[^@]+\.[^@]+$".to_string());
    assert_eq!(check_constraint("pattern", &obj(&[("email", text("alice@example.com"))]), &c), Some(true));
    assert_eq!(check_constraint("pattern", &obj(&[("email", text("invalid"))]), &c), Some(false));
}

#[test]
fn simple_test_test_enum_validator() {
    let mut c = constraint("status");
    c.values = Some(vec![text("active"), text("inactive")]);
    assert_eq!(check_constraint("enum", &obj(&[("status", text("active"))]), &c), Some(true));
    assert_eq!(check_constraint("enum", &obj(&[("status", text("deleted"))]), &c), Some(false));
}

#[test]
fn simple_test_test_mutex_validator() {
    let mut c = constraint("");
    c.fields = names(&["a", "b"]);
    assert_eq!(check_constraint("mutex", &obj(&[("a", FieldValue::Number)]), &c), Some(true));
    let both = obj(&[("a", FieldValue::Number), ("b", FieldValue::Number)]);
    assert_eq!(check_constraint("mutex", &both, &c), Some(false));
}

#[test]
fn test_at_least_one_validator() {
    let mut c = constraint("");
    c.fields = names(&["a", "b"]);
    assert_eq!(check_constraint("at_least_one", &obj(&[("a", FieldValue::Number)]), &c), Some(true));
    assert_eq!(check_constraint("at_least_one", &obj(&[("b", FieldValue::Number)]), &c), Some(true));
    assert_eq!(check_constraint("at_least_one", &obj(&[]), &c), Some(false));
}

#[test]
fn test_type_validator() {
    let o = obj(&[
        ("name", text("Alice")),
        ("age", FieldValue::Number),
        ("active", FieldValue::Bool(true)),
        ("data", FieldValue::Object),
    ]);
    let mut c = constraint("");
    for (field, ty) in [("name", "string"), ("age", "number"), ("data", "object")] {
        c.field = Some(field.to_string());
        c.expected = Some(ty.to_string());
        assert_eq!(check_constraint("type", &o, &c), Some(true));
    }
}

#[test]
fn validator_impl_test_req_validator() {
    let c = constraint("name");
    assert_eq!(check_constraint("req", &obj(&[("name", text("Alice"))]), &c), Some(true));
    assert_eq!(check_constraint("req", &obj(&[]), &c), Some(false));
}

#[test]
fn validator_impl_test_pattern_validator() {
    let mut c = constraint("email");
    c.regex = Some(r"^[^@]+@[^@]+\.[^@]+$".to_string());
    assert_eq!(check_constraint("pattern", &obj(&[("email", text("alice@example.com"))]), &c), Some(true));
}

#[test]
fn validator_impl_test_mutex_validator() {
    let mut c = constraint("");
    c.fields = names(&["a", "b"]);
    assert_eq!(check_constraint("mutex", &obj(&[("a", FieldValue::Number)]), &c), Some(true));
    let both = obj(&[("a", FieldValue::Number), ("b", FieldValue::Number)]);
    assert_eq!(check_constraint("mutex", &both, &c), Some(false));
}

#[test]
fn parameters_fall_back_in_order() {
    let o = obj(&[("code", text("ab")), ("kind", text("x"))]);
    let mut c = constraint("code");
    c.pattern = Some("^[0-9]+$".to_string());
    assert_eq!(check_constraint("pattern", &o, &c), Some(false));
    c.regex = Some("^[a-z]+$".to_string());
    assert_eq!(check_constraint("pattern", &o, &c), Some(true));
    c.enum_values = Some(vec![text("ab")]);
    assert_eq!(check_constraint("enum", &o, &c), Some(true));
    c.values = Some(vec![text("cd")]);
    assert_eq!(check_constraint("enum", &o, &c), Some(false));
    c.field = Some("kind".to_string());
    c.type_param = Some("string".to_string());
    assert_eq!(check_constraint("type", &o, &c), Some(true));
    c.fields = names(&["code", "kind"]);
    c.exactly = Some(2);
    assert_eq!(check_constraint("exactly", &o, &c), Some(true));
    c.count = Some(1);
    assert_eq!(check_constraint("exactly", &o, &c), Some(false));
}

#[test]
fn the_registry_knows_its_built_ins() {
    let o = obj(&[("name", text("Ann")), ("tags", FieldValue::Array(3)), ("n", FieldValue::Number)]);
    let mut c = constraint("name");
    assert_eq!(registry_check("req", &o, &c), Some(Some(true)));
    assert_eq!(registry_check("range", &o, &c), Some(None));
    assert_eq!(registry_check("nope", &o, &c), None);
    // An empty pattern still goes through the regex, which matches.
    assert_eq!(registry_check("pattern", &o, &c), Some(Some(true)));
    c.field = Some("tags".to_string());
    c.expected = Some("array".to_string());
    assert_eq!(registry_check("type", &o, &c), Some(Some(true)));
    assert_eq!(check_constraint("type", &o, &c), Some(false));
    c.min = Some(2);
    assert_eq!(registry_check("length", &o, &c), Some(Some(true)));
    c.max = Some(2);
    assert_eq!(registry_check("length", &o, &c), Some(Some(false)));
    c.fields = names(&["name", "n"]);
    c.exactly = Some(2);
    assert_eq!(registry_check("exactly", &o, &c), Some(Some(false)));
    c.count = Some(2);
    assert_eq!(registry_check("exactly", &o, &c), Some(Some(true)));
}

#[test]
fn the_registry_guard_and_compare_treat_absence_as_a_value() {
    let o = obj(&[("a", text("x")), ("b", text("x")), ("n", FieldValue::Number), ("m", FieldValue::Number)]);
    let mut c = constraint("");
    c.field = Some("missing".to_string());
    assert_eq!(registry_check("guard", &o, &c), Some(Some(true)));
    assert_eq!(check_constraint("guard", &o, &c), Some(false));
    c.value = Some(text("x"));
    assert_eq!(registry_check("guard", &o, &c), Some(Some(false)));
    c.field1 = Some("a".to_string());
    c.field2 = Some("b".to_string());
    assert_eq!(registry_check("compare", &o, &c), Some(Some(true)));
    c.op = Some("ne".to_string());
    assert_eq!(registry_check("compare", &o, &c), Some(Some(false)));
    c.op = Some("lt".to_string());
    c.field2 = Some("n".to_string());
    assert_eq!(registry_check("compare", &o, &c), Some(Some(true)));
    c.field1 = Some("m".to_string());
    assert_eq!(registry_check("compare", &o, &c), Some(None));
    c.op = Some("??".to_string());
    assert_eq!(registry_check("compare", &o, &c), Some(Some(false)));
}

#[test]
fn the_base_validator_reads_fewer_parameters() {
    let o = obj(&[("code", text("ab"))]);
    let mut c = constraint("code");
    c.pattern = Some("^[0-9]+$".to_string());
    // Only `regex` is read: the empty regex matches everything.
    assert_eq!(base_check("pattern", &o, &c), Some(true));
    c.enum_values = Some(vec![text("ab")]);
    assert_eq!(base_check("enum", &o, &c), Some(false));
    assert_eq!(base_check("range", &o, &c), None);
    assert_eq!(base_check("type", &o, &c), Some(false));
}
