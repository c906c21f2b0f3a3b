use std::collections::HashMap;

use sapri::interp::{parse_program, NodeDef};

fn nodes_of(code: &str) -> Result<HashMap<String, NodeDef>, String> {
    let defs = parse_program(code)?;
    let mut nodes = HashMap::new();
    for d in defs {
        nodes.insert(d.name.clone(), d);
    }
    Ok(nodes)
}

#[test]
fn test_parse_simple_assignment() {
    let code = "temperatura t = 25";

    let nodes = nodes_of(code).unwrap();

    assert_eq!(nodes.len(), 1);
    let node = nodes.get("t").unwrap();
    assert_eq!(node.name, "t");
    assert_eq!(node.is_react, false);
    assert_eq!(Some(node.expr.clone()), Some("25".to_string()));
}

#[test]
fn test_parse_react_variable() {
    let code = "Comfort C = t * u";

    let nodes = nodes_of(code).unwrap();

    assert_eq!(nodes.len(), 1);
    let node = nodes.get("C").unwrap();
    assert_eq!(node.name, "C");
    assert_eq!(node.is_react, true);
    assert_eq!(Some(node.expr.clone()), Some("t * u".to_string()));
}

#[test]
fn test_parse_multiple_lines() {
    let code = r#"
# commento
temperatura t = 25
umidita u = 60
Comfort C = t * u
"#;

    let nodes = nodes_of(code).unwrap();

    assert_eq!(nodes.len(), 3);
    assert!(nodes.contains_key("t"));
    assert!(nodes.contains_key("u"));
    assert!(nodes.contains_key("C"));
}

#[test]
fn test_parse_with_constants() {
    let code = "risultato R = φ * π";

    let nodes = nodes_of(code).unwrap();

    let node = nodes.get("R").unwrap();
    assert_eq!(Some(node.expr.clone()), Some("φ * π".to_string()));
}

#[test]
fn test_ignore_comments_and_empty() {
    let code = r#"

# solo commento

variabile v = 42

# altro commento
"#;

    let nodes = nodes_of(code).unwrap();

    assert_eq!(nodes.len(), 1);
    assert!(nodes.contains_key("v"));
}

#[test]
fn test_division() {
    let code = "rapporto R = 10 / 2";

    let nodes = nodes_of(code).unwrap();

    let node = nodes.get("R").unwrap();
    assert_eq!(Some(node.expr.clone()), Some("10 / 2".to_string()));
}

#[test]
fn test_complex_expression() {
    let code = "calcolo C = (t + u) * 2 / φ";

    let nodes = nodes_of(code).unwrap();

    assert_eq!(nodes.len(), 1);
    assert!(nodes.contains_key("C"));
}

#[test]
fn test_invalid_syntax() {
    let code = "questa non è una assegnazione valida";

    let result = nodes_of(code);
    assert!(result.is_err());
}

#[test]
fn later_definitions_replace_earlier_ones() {
    let nodes = nodes_of("x = 1\nnuovo x = 2").unwrap();
    assert_eq!(nodes.len(), 1);
    assert_eq!(nodes.get("x").unwrap().expr, "2");
}
