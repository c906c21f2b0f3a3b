use sapri::doc_parser::{parse_document, parse_header, parse_tokens};
use sapri::field_props::FieldPropertySpec;
use sapri::sson_ast::{SsonMode, TypeCode};
use sapri::sson_lexer::Token;

fn s(x: &str) -> String {
    x.to_string()
}

#[test]
fn header_cells_are_read() {
    let (name, tc, props) = parse_header("name _:req");
    assert_eq!(name, "name");
    assert_eq!(tc, TypeCode::Str);
    assert_eq!(props, vec![FieldPropertySpec::Required]);

    let (name, tc, props) = parse_header(" age:num ");
    assert_eq!(name, "age");
    assert_eq!(tc, TypeCode::Num);
    assert!(props.is_empty());

    let (name, tc, props) = parse_header("code _:len=4, _:default=x, plain");
    assert_eq!(name, "code");
    assert_eq!(tc, TypeCode::Str);
    assert_eq!(
        props,
        vec![
            FieldPropertySpec::Length { min: None, max: Some(4) },
            FieldPropertySpec::Default(s("x")),
        ]
    );

    let (name, tc, props) = parse_header("bare");
    assert_eq!((name.as_str(), tc, props.len()), ("bare", TypeCode::Str, 0));
}

#[test]
fn a_document_becomes_tables_and_fields() {
    let input = "mode = strict\nowner = me\n[users]\nname _:req, age:num\nAda, 36\nBob, 41\n";
    let doc = parse_document(input);
    assert_eq!(doc.mode, SsonMode::Strict);
    assert_eq!(doc.meta, vec![(s("owner"), s("me"))]);
    assert_eq!(doc.tables.len(), 1);
    let t = &doc.tables[0];
    assert_eq!(t.name, "users");
    assert_eq!(t.columns, vec![s("name"), s("age")]);
    assert_eq!(t.rows, vec![vec![s("Ada"), s("36")], vec![s("Bob"), s("41")]]);
    // One node per column: the header's nodes take the column's cells.
    let paths: Vec<&str> = doc.nodes.iter().map(|n| n.path.as_str()).collect();
    assert_eq!(paths, vec!["users.name", "users.age"]);
    assert!(doc.nodes[0].required);
    assert_eq!(doc.nodes[1].type_code, TypeCode::Num);
    assert_eq!(doc.nodes[0].values, vec![s("Ada"), s("Bob")]);
    assert_eq!(doc.nodes[1].values, vec![s("36"), s("41")]);
}

#[test]
fn relative_sections_and_meta_sections() {
    let toks = vec![
        Token::Section(s("shop.orders")),
        Token::CsvLine(vec![s("id"), s("total")]),
        Token::Subsection(s("items")),
        Token::Section(s(".lines.extra")),
        Token::Section(s("_META")),
        Token::CsvLine(vec![s("ignored")]),
        Token::Separator,
        Token::Subsection(s("loose")),
    ];
    let doc = parse_tokens(toks);
    let names: Vec<&str> = doc.tables.iter().map(|t| t.name.as_str()).collect();
    assert_eq!(names, vec!["shop.orders", "shop.orders.items", "shop.orders.lines.extra", "loose"]);
    assert_eq!(doc.tables[0].columns, vec![s("id"), s("total")]);
    assert_eq!(doc.mode, SsonMode::Generative);
}

#[test]
fn later_meta_values_replace_earlier_ones() {
    let toks = vec![
        Token::KeyValue(s("a"), s("1")),
        Token::KeyValue(s("b"), s("2")),
        Token::KeyValue(s("a"), s("3")),
        Token::KeyValue(s("mode"), s("STRICT")),
    ];
    let doc = parse_tokens(toks);
    assert_eq!(doc.meta, vec![(s("a"), s("3")), (s("b"), s("2"))]);
    assert_eq!(doc.mode, SsonMode::Strict);
    assert!(doc.tables.is_empty());
    assert!(doc.nodes.is_empty());
}

#[test]
fn property_cells_are_left_out_of_rows() {
    let toks = vec![
        Token::Section(s("t")),
        Token::CsvLine(vec![s("x"), s("y")]),
        Token::CsvLine(vec![s("1"), s("_:req"), s("2")]),
        Token::CsvLine(vec![s("3")]),
    ];
    let doc = parse_tokens(toks);
    assert_eq!(doc.tables[0].rows, vec![vec![s("1"), s("2")], vec![s("3")]]);
    assert_eq!(doc.nodes.len(), 2);
    assert_eq!(doc.nodes[0].values, vec![s("1"), s("3")]);
    assert_eq!(doc.nodes[1].values, vec![s("2")]);
}

#[test]
fn one_node_per_column_keeps_the_header_properties() {
    let toks = vec![
        Token::Section(s("user")),
        Token::CsvLine(vec![s("name_:req"), s("age:n")]),
        Token::CsvLine(vec![s("Alice"), s("30")]),
    ];
    let doc = parse_tokens(toks);
    assert_eq!(doc.nodes.len(), 2);
    let name = doc.nodes.iter().find(|n| n.path == "user.name").unwrap();
    assert!(name.required);
    assert_eq!(name.values, vec![s("Alice")]);
    let age = doc.nodes.iter().find(|n| n.path == "user.age").unwrap();
    assert_eq!(age.type_code, TypeCode::Num);
    assert_eq!(age.values, vec![s("30")]);
}
