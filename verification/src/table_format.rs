//! The tabular `.sson` format: fields, lexer tokens, validation rules and
//! errors, each with its textual rendering.

use vstd::prelude::*;
use crate::error_codes::{decimal, push_decimal};
use crate::text::{char_string, join_strings, join_with, views};

verus! {

/// A column of a table, with its optional type (`:string`, `:int`, ...).
#[derive(Debug, Clone, PartialEq)]
pub struct Field {
    pub name: String,
    pub field_type: Option<String>,
}

/// What can go wrong while reading a table document.
#[derive(Debug, Clone, PartialEq)]
pub enum SsonError {
    SyntaxError { line: usize, col: usize, message: String },
    UnexpectedToken { line: usize, col: usize, expected: String, found: String },
    MissingSectionName { line: usize },
    FieldCountMismatch { line: usize, expected: usize, got: usize },
    InvalidChar { line: usize, c: char },
    InvalidValue { line: usize, value: String, expected_type: String },
    IoError(String),
    Other(String),
}

/// The decimal text of a count.
pub open spec fn num(n: usize) -> Seq<char> {
    decimal(n as nat)
}

/// The human-readable message of an error.
pub open spec fn error_text(e: SsonError) -> Seq<char> {
    match e {
        SsonError::SyntaxError { line, col, message } => "Syntax error at "@ + num(line) + ":"@
            + num(col) + ": "@ + message@,
        SsonError::UnexpectedToken { line, col, expected, found } => "Unexpected token at "@ + num(
            line,
        ) + ":"@ + num(col) + ": expected "@ + expected@ + ", found "@ + found@,
        SsonError::MissingSectionName { line } => "Missing section name at line "@ + num(line),
        SsonError::FieldCountMismatch { line, expected, got } => "Field count mismatch at line "@
            + num(line) + ": expected "@ + num(expected) + ", got "@ + num(got),
        SsonError::InvalidChar { line, c } => "Invalid character '"@ + seq![c] + "' at line "@
            + num(line),
        SsonError::InvalidValue { line, value, expected_type } => "Invalid value '"@ + value@
            + "' at line "@ + num(line) + ", expected "@ + expected_type@,
        SsonError::IoError(msg) => "IO error: "@ + msg@,
        SsonError::Other(msg) => "Error: "@ + msg@,
    }
}

impl SsonError {
    /// The message of this error, as its `Display` form.
    pub fn to_string(&self) -> (r: String)
        ensures
            r@ == error_text(*self),
    {
        let mut r = String::new();
        match self {
            SsonError::SyntaxError { line, col, message } => {
                r.append("Syntax error at ");
                push_decimal(&mut r, *line);
                r.append(":");
                push_decimal(&mut r, *col);
                r.append(": ");
                r.append(message.as_str());
            },
            SsonError::UnexpectedToken { line, col, expected, found } => {
                r.append("Unexpected token at ");
                push_decimal(&mut r, *line);
                r.append(":");
                push_decimal(&mut r, *col);
                r.append(": expected ");
                r.append(expected.as_str());
                r.append(", found ");
                r.append(found.as_str());
            },
            SsonError::MissingSectionName { line } => {
                r.append("Missing section name at line ");
                push_decimal(&mut r, *line);
            },
            SsonError::FieldCountMismatch { line, expected, got } => {
                r.append("Field count mismatch at line ");
                push_decimal(&mut r, *line);
                r.append(": expected ");
                push_decimal(&mut r, *expected);
                r.append(", got ");
                push_decimal(&mut r, *got);
            },
            SsonError::InvalidChar { line, c } => {
                r.append("Invalid character '");
                let cs = char_string(*c);
                r.append(cs.as_str());
                r.append("' at line ");
                push_decimal(&mut r, *line);
            },
            SsonError::InvalidValue { line, value, expected_type } => {
                r.append("Invalid value '");
                r.append(value.as_str());
                r.append("' at line ");
                push_decimal(&mut r, *line);
                r.append(", expected ");
                r.append(expected_type.as_str());
            },
            SsonError::IoError(msg) => {
                r.append("IO error: ");
                r.append(msg.as_str());
            },
            SsonError::Other(msg) => {
                r.append("Error: ");
                r.append(msg.as_str());
            },
        }
        proof {
            assert(r@ =~= error_text(*self));
        }
        r
    }
}

/// A lexical unit of a table document.
#[derive(Debug, Clone, PartialEq)]
pub enum Token {
    /// A block separator line (`=====`).
    Separator,
    /// A section header `[path]`.
    Section(String),
    /// A relative subsection header `[.child]`.
    Subsection(String),
    /// A `key = value` pair.
    KeyValue(String, String),
    /// A line of comma-separated values.
    CsvLine(Vec<String>),
    /// A comment; the flag marks a `///` doc comment.
    Comment(bool, String),
    /// End of input.
    Eof,
}

/// The textual form of a token.
pub open spec fn token_text(t: Token) -> Seq<char> {
    match t {
        Token::Separator => "==="@,
        Token::Section(s) => "["@ + s@ + "]"@,
        Token::Subsection(s) => "[."@ + s@ + "]"@,
        Token::KeyValue(k, v) => k@ + "="@ + v@,
        Token::CsvLine(vals) => "CSV["@ + join_with(views(vals@), ","@) + "]"@,
        Token::Comment(doc, txt) => if doc {
            "///"@ + txt@
        } else {
            "//"@ + txt@
        },
        Token::Eof => "EOF"@,
    }
}

impl Token {
    /// The token as its `Display` form.
    pub fn to_string(&self) -> (r: String)
        ensures
            r@ == token_text(*self),
    {
        let mut r = String::new();
        match self {
            Token::Separator => {
                r.append("===");
            },
            Token::Section(s) => {
                r.append("[");
                r.append(s.as_str());
                r.append("]");
            },
            Token::Subsection(s) => {
                r.append("[.");
                r.append(s.as_str());
                r.append("]");
            },
            Token::KeyValue(k, v) => {
                r.append(k.as_str());
                r.append("=");
                r.append(v.as_str());
            },
            Token::CsvLine(vals) => {
                r.append("CSV[");
                let joined = join_strings(vals, ",");
                r.append(joined.as_str());
                r.append("]");
            },
            Token::Comment(doc, txt) => {
                if *doc {
                    r.append("///");
                } else {
                    r.append("//");
                }
                r.append(txt.as_str());
            },
            Token::Eof => {
                r.append("EOF");
            },
        }
        proof {
            assert(r@ =~= token_text(*self));
        }
        r
    }
}

/// A rule a validated document must keep.
#[derive(Debug, Clone)]
pub enum ValidationRule {
    RequiredField { section: String, field: String },
    ValidType,
    UniqueNames,
    NoCircularDeps,
}

/// Checks documents against a list of rules.
pub struct Validator {
    rules: Vec<ValidationRule>,
}

impl Validator {
    /// The rules a validator checks.
    pub closed spec fn rule_list(&self) -> Seq<ValidationRule> {
        self.rules@
    }

    /// A validator with the default rules: `module.desc` required, valid
    /// types, unique names.
    pub fn new() -> (v: Self)
        ensures
            v.rule_list().len() == 3,
            v.rule_list()[0] matches ValidationRule::RequiredField { section, field } && section@
                == "module"@ && field@ == "desc"@,
            v.rule_list()[1] is ValidType,
            v.rule_list()[2] is UniqueNames,
    {
        let mut rules: Vec<ValidationRule> = Vec::new();
        rules.push(
            ValidationRule::RequiredField {
                section: String::from_str("module"),
                field: String::from_str("desc"),
            },
        );
        rules.push(ValidationRule::ValidType);
        rules.push(ValidationRule::UniqueNames);
        Validator { rules }
    }
}

} // verus!
