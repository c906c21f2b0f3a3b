//! Types of the structural `.sson` dictionary: short type codes, the
//! operating mode, locations, references, dependencies, warnings and the
//! pieces of a validation report.

use vstd::prelude::*;
use crate::text::{lowercase_of, same_text, to_lowercase};

verus! {

/// A normalised field type, written with one or two characters.
#[derive(Debug, Clone, Copy, PartialEq, Eq, Hash, Default, Structural)]
pub enum TypeCode {
    #[default]
    Str,
    Num,
    Bool,
    Date,
    Time,
    Path,
    Enum,
    Ref,
    Any,
}

/// The type code that a lower-case spelling stands for: the short code,
/// or one of its long names.
pub open spec fn type_code_named(s: Seq<char>) -> Option<TypeCode> {
    if s == "s"@ || s == "str"@ || s == "string"@ {
        Some(TypeCode::Str)
    } else if s == "n"@ || s == "num"@ || s == "number"@ {
        Some(TypeCode::Num)
    } else if s == "b"@ || s == "bool"@ || s == "boolean"@ {
        Some(TypeCode::Bool)
    } else if s == "d"@ || s == "date"@ {
        Some(TypeCode::Date)
    } else if s == "t"@ || s == "time"@ || s == "timestamp"@ {
        Some(TypeCode::Time)
    } else if s == "p"@ || s == "path"@ {
        Some(TypeCode::Path)
    } else if s == "e"@ || s == "enum"@ {
        Some(TypeCode::Enum)
    } else if s == "r"@ || s == "ref"@ || s == "reference"@ {
        Some(TypeCode::Ref)
    } else if s == "*"@ || s == "any"@ {
        Some(TypeCode::Any)
    } else {
        None
    }
}

/// The one-character spelling of a type code.
pub open spec fn short_name(t: TypeCode) -> Seq<char> {
    match t {
        TypeCode::Str => "s"@,
        TypeCode::Num => "n"@,
        TypeCode::Bool => "b"@,
        TypeCode::Date => "d"@,
        TypeCode::Time => "t"@,
        TypeCode::Path => "p"@,
        TypeCode::Enum => "e"@,
        TypeCode::Ref => "r"@,
        TypeCode::Any => "*"@,
    }
}

fn any_of(s: &str, a: &str, b: &str, c: &str) -> (r: bool)
    ensures
        r == (s@ == a@ || s@ == b@ || s@ == c@),
{
    same_text(s, a) || same_text(s, b) || same_text(s, c)
}

impl TypeCode {
    /// The type code of an already lower-cased spelling.
    pub fn from_lowercase(s: &str) -> (r: Option<Self>)
        ensures
            r == type_code_named(s@),
    {
        if any_of(s, "s", "str", "string") {
            Some(TypeCode::Str)
        } else if any_of(s, "n", "num", "number") {
            Some(TypeCode::Num)
        } else if any_of(s, "b", "bool", "boolean") {
            Some(TypeCode::Bool)
        } else if any_of(s, "d", "date", "date") {
            Some(TypeCode::Date)
        } else if any_of(s, "t", "time", "timestamp") {
            Some(TypeCode::Time)
        } else if any_of(s, "p", "path", "path") {
            Some(TypeCode::Path)
        } else if any_of(s, "e", "enum", "enum") {
            Some(TypeCode::Enum)
        } else if any_of(s, "r", "ref", "reference") {
            Some(TypeCode::Ref)
        } else if any_of(s, "*", "any", "any") {
            Some(TypeCode::Any)
        } else {
            None
        }
    }

    /// The type code a spelling stands for, case-insensitively.
    pub fn from_short(s: &str) -> (r: Option<Self>)
        ensures
            r == type_code_named(lowercase_of(s@)),
    {
        let lower = to_lowercase(s);
        Self::from_lowercase(lower.as_str())
    }

    /// The one-character spelling of this type code.
    pub fn to_short(self) -> (r: &'static str)
        ensures
            r@ == short_name(self),
    {
        match self {
            TypeCode::Str => "s",
            TypeCode::Num => "n",
            TypeCode::Bool => "b",
            TypeCode::Date => "d",
            TypeCode::Time => "t",
            TypeCode::Path => "p",
            TypeCode::Enum => "e",
            TypeCode::Ref => "r",
            TypeCode::Any => "*",
        }
    }

    /// Like `from_short`, with an error message for unknown spellings
    /// (the `FromStr` form).
    pub fn parse_code(s: &str) -> (r: Result<Self, String>)
        ensures
            type_code_named(lowercase_of(s@)) matches Some(t) ==> r == Ok::<TypeCode, String>(t),
            type_code_named(lowercase_of(s@)) is None ==> (r matches Err(e) && e@
                == "Unknown type code: '"@ + s@ + "'"@),
    {
        match Self::from_short(s) {
            Some(t) => Ok(t),
            None => {
                let mut e = String::from_str("Unknown type code: '");
                e.append(s);
                e.append("'");
                Err(e)
            },
        }
    }
}

/// Reading a type code back from its short spelling gives the same code.
pub proof fn lemma_short_name_roundtrip(t: TypeCode)
    ensures
        type_code_named(short_name(t)) == Some(t),
{
    reveal_strlit("s");
    reveal_strlit("n");
    reveal_strlit("b");
    reveal_strlit("d");
    reveal_strlit("t");
    reveal_strlit("p");
    reveal_strlit("e");
    reveal_strlit("r");
    reveal_strlit("*");
    reveal_strlit("str");
    reveal_strlit("string");
    reveal_strlit("num");
    reveal_strlit("number");
    reveal_strlit("bool");
    reveal_strlit("boolean");
    reveal_strlit("date");
    reveal_strlit("time");
    reveal_strlit("timestamp");
    reveal_strlit("path");
    reveal_strlit("enum");
    reveal_strlit("ref");
    reveal_strlit("reference");
    reveal_strlit("any");
    assert("s"@[0] == 's' && "n"@[0] == 'n' && "b"@[0] == 'b' && "d"@[0] == 'd');
    assert("t"@[0] == 't' && "p"@[0] == 'p' && "e"@[0] == 'e' && "r"@[0] == 'r');
    assert("*"@[0] == '*');
}

/// Whether constraint violations stop processing (`Strict`) or are
/// recorded while processing goes on (`Generative`).
#[derive(Debug, Clone, Copy, PartialEq, Eq, Structural)]
pub enum SsonMode {
    Strict,
    Generative,
}

/// The mode a lower-case spelling selects: `strict` is strict, anything
/// else generative.
pub open spec fn mode_named(s: Seq<char>) -> SsonMode {
    if s == "strict"@ {
        SsonMode::Strict
    } else {
        SsonMode::Generative
    }
}

impl SsonMode {
    /// The mode an already lower-cased spelling selects.
    pub fn from_lowercase(s: &str) -> (m: Self)
        ensures
            m == mode_named(s@),
    {
        if same_text(s, "strict") {
            SsonMode::Strict
        } else {
            SsonMode::Generative
        }
    }
}

impl Default for SsonMode {
    /// `Generative`.
    fn default() -> (m: Self)
        ensures
            m == SsonMode::Generative,
    {
        SsonMode::Generative
    }
}

/// Where a field was defined.
#[derive(Debug, Clone, PartialEq)]
pub struct Location {
    pub file: String,
    pub line: usize,
    pub column: usize,
}

/// A reference waiting to be resolved before validation.
#[derive(Debug, Clone, PartialEq)]
pub struct PendingRef {
    pub field_path: String,
    pub ref_target: String,
    pub resolved: bool,
}

/// An external dependency of a document.
#[derive(Debug, Clone, PartialEq)]
pub struct Dependency {
    pub name: String,
    pub version: Option<String>,
    pub features: Vec<String>,
}

/// A problem found while parsing that did not stop the parse.
#[derive(Debug, Clone, PartialEq)]
pub struct ParseWarning {
    pub code: String,
    pub message: String,
    pub location: Option<Location>,
    pub recoverable: bool,
}

/// A problem found while parsing.
#[derive(Debug, Clone, PartialEq)]
pub struct ParseError {
    pub code: String,
    pub message: String,
    pub location: Option<Location>,
    pub fatal: bool,
}

/// Provenance of a validation report.
#[derive(Debug, Clone)]
pub struct ReportMeta {
    pub parser_version: String,
    pub mode: SsonMode,
    pub timestamp: String,
    pub source: String,
}

/// The kind of a reported violation.
#[derive(Debug, Clone, Copy, PartialEq, Eq, Structural)]
pub enum ViolationType {
    MutexViolation,
    GuardFail,
    CircularRef,
    MissingRequired,
    TypeMismatch,
    StateImpossible,
}

/// How serious a reported problem is.
#[derive(Debug, Clone, Copy, PartialEq, Eq, Structural)]
pub enum Severity {
    Error,
    Warning,
}

/// Where in a document a problem was found.
#[derive(Debug, Clone)]
pub struct ErrorLocation {
    pub path: String,
    pub line: Option<usize>,
    pub column: Option<usize>,
}

/// A correction a report proposes.
#[derive(Debug, Clone, Copy, PartialEq, Eq, Structural)]
pub enum PatchAction {
    AddField,
    RemoveField,
    ChangeType,
    UpdateConstraint,
    InjectDefault,
    BreakCycle,
}

/// The state of one state machine of a document, as reported.
#[derive(Debug, Clone)]
pub struct StateMachineReport {
    pub name: String,
    pub current_state: String,
    pub valid_transitions: Vec<String>,
    pub dead_ends: Vec<String>,
    pub cycles_detected: bool,
    pub ttl_remaining: Option<usize>,
}

} // verus!
