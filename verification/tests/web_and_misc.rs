use sapri::files::{extension, is_sapri_file, FileInfo};
use sapri::interp::{parse_line, parse_program, Op};
use sapri::table_format::{Field, SsonError, Token, Validator};
use sapri::web::{CreateUserDto, Method, Validatable};

#[test]
fn method_names() {
    assert_eq!(Method::GET.as_str(), "GET");
    assert_eq!(Method::PATCH.as_str(), "PATCH");
    assert_eq!(Method::DELETE.as_str(), "DELETE");
}

#[test]
fn create_user_rules_in_order() {
    let ok = CreateUserDto { username: "bob".into(), email: "b@x".into(), age: Some(18) };
    assert_eq!(ok.validate(), Ok(()));
    let short = CreateUserDto { username: "bo".into(), email: "nope".into(), age: Some(3) };
    assert_eq!(short.validate(), Err("Username troppo corto (min 3 caratteri)".to_string()));
    let mail = CreateUserDto { username: "bobby".into(), email: "nope".into(), age: None };
    assert_eq!(mail.validate(), Err("Email non valida".to_string()));
    let young = CreateUserDto { username: "bobby".into(), email: "b@x".into(), age: Some(17) };
    assert_eq!(young.validate(), Err("Età minima 18 anni".to_string()));
    let wide = CreateUserDto { username: "éé".into(), email: "@".into(), age: None };
    assert_eq!(wide.validate(), Ok(()));
}

#[test]
fn table_format_rendering() {
    assert_eq!(Token::Separator.to_string(), "===");
    assert_eq!(Token::Section("a.b".into()).to_string(), "[a.b]");
    assert_eq!(Token::Subsection("c".into()).to_string(), "[.c]");
    assert_eq!(Token::KeyValue("k".into(), "v".into()).to_string(), "k=v");
    assert_eq!(Token::CsvLine(vec!["x".into(), "y".into()]).to_string(), "CSV[x,y]");
    assert_eq!(Token::Comment(true, "d".into()).to_string(), "///d");
    assert_eq!(Token::Comment(false, "d".into()).to_string(), "//d");
    assert_eq!(Token::Eof.to_string(), "EOF");
    assert_eq!(
        SsonError::SyntaxError { line: 3, col: 14, message: "bad".into() }.to_string(),
        "Syntax error at 3:14: bad"
    );
    assert_eq!(
        SsonError::FieldCountMismatch { line: 2, expected: 3, got: 10 }.to_string(),
        "Field count mismatch at line 2: expected 3, got 10"
    );
    assert_eq!(
        SsonError::InvalidChar { line: 7, c: 'ß' }.to_string(),
        "Invalid character 'ß' at line 7"
    );
    assert_eq!(SsonError::Other("x".into()).to_string(), "Error: x");
    let f = Field { name: "id".into(), field_type: Some("int".into()) };
    assert_eq!(f.clone(), f);
    let _ = Validator::new();
}

#[test]
fn interpreter_lines() {
    let n = parse_line("temperatura t = 25").unwrap().unwrap();
    assert_eq!(n.name, "t");
    assert!(!n.is_react);
    assert_eq!(n.expr, "25");
    let r = parse_line("Comfort C = t * u").unwrap().unwrap();
    assert!(r.is_react);
    assert_eq!(r.expr, "t * u");
    assert!(parse_line("  # commento").unwrap().is_none());
    assert!(parse_line("questa non è una assegnazione valida").is_none());
    assert!(parse_line("x = ").is_none());
    let _ = Op::Mul;
}

#[test]
fn interpreter_programs() {
    let nodes = parse_program("\n# commento\ntemperatura t = 25\numidita u = 60\nComfort C = t * u\n").unwrap();
    assert_eq!(nodes.len(), 3);
    assert_eq!(nodes[2].name, "C");
    let err = parse_program("a = 1\nbad line\nb = 2").unwrap_err();
    assert_eq!(err, "Sintassi non valida: 'bad line'");
}

#[test]
fn file_extensions() {
    assert_eq!(extension("main.sapri"), Some("sapri".to_string()));
    assert_eq!(extension(".sapri"), None);
    assert_eq!(extension("noext"), None);
    assert_eq!(extension("a.b.c"), Some("c".to_string()));
    assert!(is_sapri_file("x.sapri"));
    assert!(!is_sapri_file("x.sapri.bak"));
    let info = FileInfo { name: "x.sapri".into(), path: "/p/x.sapri".into(), size: 3, modified: String::new() };
    assert_eq!(info.size, 3);
}
