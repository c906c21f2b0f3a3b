use sapri::field_props::{parse_field_property, split_trimmed, FieldPropertySpec};
use sapri::numbers::{is_float_literal, parse_usize};
use sapri::sson_ast::TypeCode;

fn strings(items: &[&str]) -> Vec<String> {
    items.iter().map(|s| s.to_string()).collect()
}

#[test]
fn float_literals_agree_with_std() {
    let cases = [
        "1", "+1.5", "-2", ".5", "5.", ".", "1e5", "1E-3", "2.5e+10", "e5", "1e", "1e+", "inf",
        "-Infinity", "+INF", "NaN", "nan", "-nan", "infinit", " 1", "1 ", "1_0", "", "+", "-",
        "0x10", "1.2.3", "١", "12abc", "00.00",
    ];
    for c in cases {
        assert_eq!(is_float_literal(c), c.parse::<f64>().is_ok(), "case {:?}", c);
    }
}

#[test]
fn usize_parsing_agrees_with_std() {
    for c in ["0", "42", "+7", "-1", "", "1.0", "18446744073709551615", "18446744073709551616"] {
        assert_eq!(parse_usize(c), c.parse::<usize>().ok(), "case {:?}", c);
    }
}

#[test]
fn markers_are_recognised() {
    assert_eq!(parse_field_property("req"), Some(FieldPropertySpec::Required));
    assert_eq!(parse_field_property("  required "), Some(FieldPropertySpec::Required));
    assert_eq!(parse_field_property("opt"), Some(FieldPropertySpec::Optional));
    assert_eq!(parse_field_property("optional"), Some(FieldPropertySpec::Optional));
    assert_eq!(parse_field_property("null"), Some(FieldPropertySpec::Null));
    assert_eq!(parse_field_property("NULL"), Some(FieldPropertySpec::Null));
    assert_eq!(parse_field_property("Null"), None);
}

#[test]
fn default_keeps_its_text() {
    assert_eq!(
        parse_field_property("default=abc"),
        Some(FieldPropertySpec::Default("abc".to_string()))
    );
    assert_eq!(parse_field_property("default="), Some(FieldPropertySpec::Default(String::new())));
}

#[test]
fn numeric_bounds_need_a_number() {
    assert_eq!(
        parse_field_property("min=3"),
        Some(FieldPropertySpec::Range { min: Some("3".to_string()), max: None })
    );
    assert_eq!(
        parse_field_property("max=-2.5e1"),
        Some(FieldPropertySpec::Range { min: None, max: Some("-2.5e1".to_string()) })
    );
    assert_eq!(parse_field_property("min=abc"), None);
    assert_eq!(
        parse_field_property("len=4"),
        Some(FieldPropertySpec::Length { min: None, max: Some(4) })
    );
    assert_eq!(parse_field_property("len=-4"), None);
    assert_eq!(parse_field_property("len=four"), None);
}

#[test]
fn pattern_and_description_lose_their_quotes() {
    assert_eq!(
        parse_field_property("pattern=\"^[a-z]+$\""),
        Some(FieldPropertySpec::Pattern("^[a-z]+$".to_string()))
    );
    assert_eq!(
        parse_field_property("desc=\"the name\""),
        Some(FieldPropertySpec::Description("the name".to_string()))
    );
}

#[test]
fn reference_spellings() {
    assert_eq!(parse_field_property("name[]"), Some(FieldPropertySpec::RefTarget("name".to_string())));
    assert_eq!(parse_field_property("ref=user"), Some(FieldPropertySpec::RefTarget("user".to_string())));
    assert_eq!(parse_field_property("ref[user]"), Some(FieldPropertySpec::RefTarget("user".to_string())));
}

#[test]
fn lists_are_split_and_trimmed() {
    let ab = strings(&["a", "b"]);
    assert_eq!(parse_field_property("mutex=[a, b]"), Some(FieldPropertySpec::Mutex(ab.clone())));
    assert_eq!(parse_field_property("mutex[a,b]"), Some(FieldPropertySpec::Mutex(ab.clone())));
    assert_eq!(parse_field_property("enum=[a ,b]"), Some(FieldPropertySpec::Enum(ab.clone())));
    assert_eq!(parse_field_property("[a,b]"), Some(FieldPropertySpec::Enum(ab)));
    assert_eq!(parse_field_property("[x]"), Some(FieldPropertySpec::Enum(strings(&["x"]))));
    assert_eq!(split_trimmed(" a ,, b"), strings(&["a", "", "b"]));
}

#[test]
fn type_overrides_and_unknown_text() {
    assert_eq!(parse_field_property("num"), Some(FieldPropertySpec::TypeOverride(TypeCode::Num)));
    assert_eq!(parse_field_property("STRING"), Some(FieldPropertySpec::TypeOverride(TypeCode::Str)));
    assert_eq!(parse_field_property("unknown"), None);
    assert_eq!(parse_field_property(""), None);
}

#[test]
fn relational_properties() {
    assert_eq!(
        parse_field_property("guard[user.role = admin]"),
        Some(FieldPropertySpec::Guard { path: "user.role".to_string(), expected: "admin".to_string() })
    );
    assert_eq!(parse_field_property("guard[noequals]"), None);
    assert_eq!(
        parse_field_property("implies[A, B]"),
        Some(FieldPropertySpec::Implies { if_field: "A".to_string(), then_field: "B".to_string() })
    );
    assert_eq!(parse_field_property("implies[A,B,C]"), None);
    assert_eq!(
        parse_field_property("sum[a, b]=c"),
        Some(FieldPropertySpec::Sum { fields: strings(&["a", "b"]), target: "c".to_string() })
    );
    assert_eq!(parse_field_property("sum[a,b]"), None);
    assert_eq!(
        parse_field_property("see_also[p1,p2]"),
        Some(FieldPropertySpec::SeeAlso(strings(&["p1", "p2"])))
    );
    assert_eq!(
        parse_field_property("state[A\u{2192}B, C]"),
        Some(FieldPropertySpec::StateTransition { from: "A".to_string(), to: strings(&["B", "C"]) })
    );
}
