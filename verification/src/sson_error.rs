//! Errors of the structural `.sson` parser and their messages.

use vstd::prelude::*;
use crate::error_codes::{decimal, push_decimal};

verus! {

/// `std::io::Error`, carried opaquely by `SsonError::Io`.
#[verifier::external_type_specification]
#[verifier::external_body]
pub struct ExIoError(std::io::Error);

/// What can go wrong while parsing or validating a `.sson` document.
#[derive(Debug)]
pub enum SsonError {
    Parse { line: usize, message: String },
    CircularRef { path: String },
    UnknownTypeCode(String),
    StrictViolation(String),
    Io(std::io::Error),
}

/// The message of an error other than `Io`; for `Io` the fixed prefix of
/// its message.
pub open spec fn sson_error_text(e: SsonError) -> Seq<char> {
    match e {
        SsonError::Parse { line, message } => "Parse error at line "@ + decimal(line as nat)
            + ": "@ + message@,
        SsonError::CircularRef { path } => "Circular reference detected: "@ + path@,
        SsonError::UnknownTypeCode(code) => "Unknown type code: '"@ + code@ + "'"@,
        SsonError::StrictViolation(msg) => "Validation failed in strict mode: "@ + msg@,
        SsonError::Io(_) => "IO error: "@,
    }
}

/// `std::io::Error`'s `Display` text; it may come from the operating
/// system, so nothing is claimed of it.
#[verifier::external_body]
fn io_error_text(e: &std::io::Error) -> String {
    e.to_string()
}

impl SsonError {
    /// The error's message (its `Display` form). For `Io` the message is
    /// `IO error: ` followed by the I/O error's own text.
    pub fn to_string(&self) -> (r: String)
        ensures
            !(*self is Io) ==> r@ == sson_error_text(*self),
            *self is Io ==> r@.take(sson_error_text(*self).len() as int) == sson_error_text(*self),
    {
        let mut r = String::new();
        match self {
            SsonError::Parse { line, message } => {
                r.append("Parse error at line ");
                push_decimal(&mut r, *line);
                r.append(": ");
                r.append(message.as_str());
            },
            SsonError::CircularRef { path } => {
                r.append("Circular reference detected: ");
                r.append(path.as_str());
            },
            SsonError::UnknownTypeCode(code) => {
                r.append("Unknown type code: '");
                r.append(code.as_str());
                r.append("'");
            },
            SsonError::StrictViolation(msg) => {
                r.append("Validation failed in strict mode: ");
                r.append(msg.as_str());
            },
            SsonError::Io(e) => {
                r.append("IO error: ");
                let ghost head = r@;
                let text = io_error_text(e);
                r.append(text.as_str());
                proof {
                    assert(r@.take(head.len() as int) =~= head);
                }
            },
        }
        proof {
            if !(*self is Io) {
                assert(r@ =~= sson_error_text(*self));
            }
        }
        r
    }
}

} // verus!
