//! Shared types of the constraint parser: modes, token and field kinds,
//! configuration, error locations and warnings, and path helpers.

use vstd::prelude::*;
use crate::state_machine::ParserState;
use crate::text::{trim, to_lowercase, lowercase_of, trim_of, TrimClass, chars_of, is_alphanumeric, alphanumeric};

verus! {

#[verifier::external_type_specification]
#[verifier::external_body]
pub struct ExPathBuf(std::path::PathBuf);

/// Execution mode of the parser.
#[derive(Debug, Clone, Copy, PartialEq, Eq, Default, Structural)]
pub enum ParserMode {
    /// Stop at the first error; not exportable.
    #[default]
    Strict,
    /// Collect warnings, continue and try to recover.
    Generative,
}

/// Kinds of lexer tokens.
#[derive(Debug, Clone, PartialEq, Eq, Structural)]
pub enum TokenType {
    Sep,
    Section,
    Subsection,
    KeyVal,
    List,
    Comment,
    Eof,
    PropEvoker,
    String,
    Number,
    Bool,
    Null,
}

/// Kinds of field values.
#[derive(Debug, Clone, Copy, PartialEq, Eq, Default, Structural)]
pub enum FieldType {
    #[default]
    Null,
    Bool,
    Number,
    String,
    Array,
    Object,
}

/// How CSV rows are aligned to the columns.
#[derive(Debug, Clone, Copy, PartialEq, Eq, Default, Structural)]
pub enum Alignment {
    #[default]
    Strict,
    PadNull,
    TrimExtra,
    InlinePropExtract,
}

/// Global configuration of the parser.
#[derive(Debug, Clone)]
pub struct ParserConfig {
    pub mode: ParserMode,
    pub encoding: String,
    pub max_depth: usize,
    pub version: String,
    pub state: ParserState,
}

impl Default for ParserConfig {
    fn default() -> (c: Self)
        ensures
            c.mode == ParserMode::Strict,
            c.encoding@ == "utf-8"@,
            c.max_depth == 100,
            c.version@ == "2.0"@,
            c.state == ParserState::Init,
    {
        ParserConfig {
            mode: ParserMode::Strict,
            encoding: String::from_str("utf-8"),
            max_depth: 100,
            version: String::from_str("2.0"),
            state: ParserState::Init,
        }
    }
}

/// State of a validation.
#[derive(Debug, Clone, Copy, PartialEq, Eq, Default, Structural)]
pub enum ValidationState {
    #[default]
    Pending,
    Valid,
    Invalid,
}

/// Where an error was found.
#[derive(Debug, Clone)]
pub struct ErrorLocation {
    pub file: Option<std::path::PathBuf>,
    pub line: usize,
    pub col: usize,
    pub path: String,
}

/// A parse warning in the standard format.
#[derive(Debug, Clone)]
pub struct ParseWarning {
    pub code: String,
    pub message: String,
    pub location: ErrorLocation,
    pub recovered: bool,
}

/// A lexer token.
#[derive(Debug, Clone)]
pub struct Token {
    pub token_type: TokenType,
    pub value: String,
    pub line: usize,
    pub col: usize,
}

/// A path trimmed of surrounding white space and lowercased.
pub fn normalize_path(path: &str) -> (r: String)
    ensures
        r@ == lowercase_of(trim_of(path@, TrimClass::White)),
{
    let t = trim(path);
    to_lowercase(t.as_str())
}

/// A character allowed in a path: alphanumeric, `.` or `_`.
pub open spec fn path_char(c: char) -> bool {
    alphanumeric(c) || c == '.' || c == '_'
}

/// Whether `path` is non-empty and made only of alphanumeric characters,
/// dots and underscores.
pub fn is_valid_path(path: &str) -> (r: bool)
    ensures
        r == (path@.len() > 0 && forall|i: int| 0 <= i < path@.len() ==> path_char(#[trigger] path@[i])),
{
    let chars = chars_of(path);
    if chars.len() == 0 {
        return false;
    }
    let mut i: usize = 0;
    while i < chars.len()
        invariant
            i <= chars@.len(),
            chars@ == path@,
            forall|j: int| 0 <= j < i ==> path_char(#[trigger] path@[j]),
        decreases chars@.len() - i,
    {
        let c = chars[i];
        if !(is_alphanumeric(c) || c == '.' || c == '_') {
            proof {
                assert(!path_char(path@[i as int]));
            }
            return false;
        }
        i += 1;
    }
    true
}

} // verus!
