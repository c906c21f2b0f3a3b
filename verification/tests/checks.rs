use sapri::dict_check::{evaluate_node, tally_validation, CellValue};
use sapri::http::{build_url, parse_u64};
use sapri::interp::{parse_program, react_dependencies};
use sapri::sson_ast::SsonMode;

#[test]
fn urls_join_with_one_slash() {
    assert_eq!(build_url("http://h/api//", "//x/y"), "http://h/api/x/y");
    assert_eq!(build_url("http://h", "x"), "http://h/x");
    assert_eq!(build_url("", ""), "/");
}

#[test]
fn content_length_numbers() {
    for s in ["0", "+7", "18446744073709551615", "18446744073709551616", "", "+", "-1", "12a", " 1", "007"] {
        assert_eq!(parse_u64(s), s.parse::<u64>().ok(), "{s:?}");
    }
}

#[test]
fn enum_constraints_check_text_values() {
    let text = |s: &str| CellValue::Text(s.to_string());
    let cons = vec!["enum=[a, b]]".to_string(), "min=3".to_string()];
    assert!(evaluate_node(&vec![text("a"), CellValue::Number, text("b")], &cons));
    assert!(!evaluate_node(&vec![text("c")], &cons));
    assert!(!evaluate_node(&vec![], &cons));
    assert!(evaluate_node(&vec![CellValue::Null, CellValue::Bool(true)], &cons));
    assert!(evaluate_node(&vec![text("zzz")], &vec!["len=3".to_string()]));
}

#[test]
fn tallies_by_mode() {
    let checks = vec![(true, true), (false, false), (true, false), (false, true)];
    let g = tally_validation(&checks, SsonMode::Generative);
    assert_eq!((g.violations, g.warnings, g.valid_weight, g.total_weight), (2, 2, 3, 6));
    assert!(!g.stopped);
    assert_eq!(g.scores, vec![true, false, false, true]);
    let s = tally_validation(&checks, SsonMode::Strict);
    assert_eq!((s.violations, s.warnings, s.valid_weight, s.total_weight), (1, 0, 2, 3));
    assert!(s.stopped);
    assert_eq!(s.scores, vec![true, false]);
}

#[test]
fn reactive_dependencies() {
    let nodes = parse_program("t = 25\nu = 60\nComfort C = t * u\nScore S = 2 * C").unwrap();
    let deps = react_dependencies(&nodes);
    let pairs: Vec<(&str, &str)> = deps.iter().map(|(a, b)| (a.as_str(), b.as_str())).collect();
    assert_eq!(pairs, vec![("t", "C"), ("u", "C"), ("C", "S")]);
}
