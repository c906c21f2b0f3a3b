use sapri::sson_ast::{SsonMode, TypeCode};
use sapri::sson_error::SsonError;
use sapri::sson_lexer::{split_csv, Lexer, Token};
use sapri::sson_parser::{column_cells, extract_constraints, parse_field_def, parse_sson};

#[test]
fn type_codes_read_back() {
    for tc in [
        TypeCode::Str,
        TypeCode::Num,
        TypeCode::Bool,
        TypeCode::Date,
        TypeCode::Time,
        TypeCode::Path,
        TypeCode::Enum,
        TypeCode::Ref,
        TypeCode::Any,
    ] {
        assert_eq!(TypeCode::from_short(tc.to_short()), Some(tc));
    }
    assert_eq!(TypeCode::from_short("STRING"), Some(TypeCode::Str));
    assert_eq!(TypeCode::from_short("Timestamp"), Some(TypeCode::Time));
    assert_eq!(TypeCode::from_short("reference"), Some(TypeCode::Ref));
    assert_eq!(TypeCode::from_short("x"), None);
    assert_eq!(TypeCode::parse_code("q").unwrap_err(), "Unknown type code: 'q'");
    assert_eq!(TypeCode::default(), TypeCode::Str);
    assert_eq!(SsonMode::default(), SsonMode::Generative);
}

#[test]
fn lexer_reads_each_kind_of_line() {
    let input = "// comment\n[users]\n[.admins]\n===\nmode = strict\nname, \"a,b\" , c\r\n\n/// doc\n";
    let mut lx = Lexer::new(input);
    assert_eq!(lx.next_token().unwrap(), Token::Section("users".to_string()));
    assert_eq!(lx.next_token().unwrap(), Token::Subsection("admins".to_string()));
    assert_eq!(lx.next_token().unwrap(), Token::Separator);
    assert_eq!(
        lx.next_token().unwrap(),
        Token::KeyValue("mode".to_string(), "strict".to_string())
    );
    assert_eq!(
        lx.next_token().unwrap(),
        Token::CsvLine(vec!["name".to_string(), "a,b".to_string(), "c".to_string()])
    );
    assert_eq!(lx.next_token().unwrap(), Token::Eof);
    assert_eq!(lx.next_token().unwrap(), Token::Eof);
}

#[test]
fn csv_and_values() {
    assert_eq!(Lexer::parse_value("  \"x y\" "), "x y");
    assert_eq!(Lexer::parse_value(" \" "), "\"");
    assert_eq!(split_csv("a,,b"), vec!["a", "", "b"]);
    assert_eq!(split_csv("k=v, w"), vec!["k=v", "w"]);
}

#[test]
fn field_definitions() {
    assert_eq!(parse_field_def("age:num"), ("age".to_string(), "num".to_string()));
    assert_eq!(
        parse_field_def("name _:req"),
        ("name".to_string(), "_:req".to_string())
    );
    assert_eq!(parse_field_def(" plain "), ("plain".to_string(), "s".to_string()));
    assert_eq!(
        extract_constraints("_:req,_:min=1,x,_:_:max=9"),
        vec!["min=1".to_string(), "max=9".to_string()]
    );
}

#[test]
fn parse_document_into_tables_and_fields() {
    let input = "mode = Strict\n[users]\nname:s, age:num _:req\nAlice, 30\nBob, 41\n[.roles]\nrole\nadmin\n";
    let doc = parse_sson(input).unwrap();
    assert_eq!(doc.mode, SsonMode::Strict);
    assert_eq!(doc.tables.len(), 2);
    assert_eq!(doc.tables[0].name, "users");
    assert_eq!(doc.tables[0].columns, vec!["name:s", "age:num _:req"]);
    assert_eq!(doc.tables[0].rows.len(), 2);
    assert_eq!(doc.tables[1].name, "users.roles");
    assert_eq!(doc.tables[1].columns, vec!["role"]);
    assert_eq!(doc.fields.len(), 3);
    assert_eq!(doc.fields[0].path, "users.name");
    assert_eq!(doc.fields[0].type_code, TypeCode::Str);
    assert!(!doc.fields[0].required);
    assert_eq!(doc.fields[1].path, "users.age:num");
    assert_eq!(doc.fields[1].type_code, TypeCode::Str);
    assert!(doc.fields[1].required);
    assert_eq!(doc.fields[2].path, "users.roles.role");
    assert_eq!(column_cells(&doc.tables[0], 1), vec!["30", "41"]);
}

#[test]
fn rows_outside_sections_are_dropped() {
    let doc = parse_sson("a, b\n").unwrap();
    assert!(doc.tables.is_empty());
    assert!(doc.fields.is_empty());
    assert_eq!(doc.mode, SsonMode::Generative);
}

#[test]
fn sson_error_messages() {
    assert_eq!(
        SsonError::Parse { line: 12, message: "bad".to_string() }.to_string(),
        "Parse error at line 12: bad"
    );
    assert_eq!(
        SsonError::CircularRef { path: "a.b".to_string() }.to_string(),
        "Circular reference detected: a.b"
    );
    assert_eq!(
        SsonError::UnknownTypeCode("zz".to_string()).to_string(),
        "Unknown type code: 'zz'"
    );
    assert_eq!(
        SsonError::StrictViolation("x".to_string()).to_string(),
        "Validation failed in strict mode: x"
    );
    let io = SsonError::Io(std::io::Error::new(std::io::ErrorKind::Other, "disk"));
    assert_eq!(io.to_string(), "IO error: disk");
}
