//! Error categories, severities and the standard error/warning codes
//! (`ERR_<CATEGORY>_<NNN>`, `WRN_<CATEGORY>_<NNN>`).

use vstd::prelude::*;

verus! {

/// Category of an error.
#[derive(Debug, Clone, Copy, PartialEq, Eq, Hash)]
pub enum ErrorCategory {
    /// Syntax error while parsing.
    Parse,
    /// Reference resolution error.
    Resolve,
    /// Constraint validation error.
    Validate,
    /// Circular reference.
    Circular,
    /// Execution timed out.
    Timeout,
    /// Maximum depth exceeded.
    MaxDepth,
    /// Required field missing.
    MissingRequired,
    /// Incompatible type.
    TypeMismatch,
    /// Invalid state.
    InvalidState,
    /// Recovery failed.
    RecoveryFailed,
    /// Internal error.
    Internal,
}

/// The text of a category inside a code.
pub open spec fn category_name(c: ErrorCategory) -> Seq<char> {
    match c {
        ErrorCategory::Parse => "PARSE"@,
        ErrorCategory::Resolve => "RESOLVE"@,
        ErrorCategory::Validate => "VALIDATE"@,
        ErrorCategory::Circular => "CIRCULAR"@,
        ErrorCategory::Timeout => "TIMEOUT"@,
        ErrorCategory::MaxDepth => "MAX_DEPTH"@,
        ErrorCategory::MissingRequired => "MISSING_REQUIRED"@,
        ErrorCategory::TypeMismatch => "TYPE_MISMATCH"@,
        ErrorCategory::InvalidState => "INVALID_STATE"@,
        ErrorCategory::RecoveryFailed => "RECOVERY_FAILED"@,
        ErrorCategory::Internal => "INTERNAL"@,
    }
}

impl ErrorCategory {
    /// The category's name as it appears in codes (e.g. `MAX_DEPTH`).
    pub fn as_str(&self) -> (r: &'static str)
        ensures
            r@ == category_name(*self),
    {
        match self {
            ErrorCategory::Parse => "PARSE",
            ErrorCategory::Resolve => "RESOLVE",
            ErrorCategory::Validate => "VALIDATE",
            ErrorCategory::Circular => "CIRCULAR",
            ErrorCategory::Timeout => "TIMEOUT",
            ErrorCategory::MaxDepth => "MAX_DEPTH",
            ErrorCategory::MissingRequired => "MISSING_REQUIRED",
            ErrorCategory::TypeMismatch => "TYPE_MISMATCH",
            ErrorCategory::InvalidState => "INVALID_STATE",
            ErrorCategory::RecoveryFailed => "RECOVERY_FAILED",
            ErrorCategory::Internal => "INTERNAL",
        }
    }

    /// The category's name (what `Display` shows).
    pub fn to_string(&self) -> (r: String)
        ensures
            r@ == category_name(*self),
    {
        String::from_str(self.as_str())
    }
}

/// Severity of an error.
#[derive(Debug, Clone, Copy, PartialEq, Eq)]
pub enum Severity {
    /// Blocking error (not exportable).
    Error,
    /// Non-blocking warning.
    Warning,
    /// Information only.
    Info,
}

/// The text of a severity.
pub open spec fn severity_name(s: Severity) -> Seq<char> {
    match s {
        Severity::Error => "ERROR"@,
        Severity::Warning => "WARNING"@,
        Severity::Info => "INFO"@,
    }
}

impl Severity {
    /// The severity's name (what `Display` shows).
    pub fn to_string(&self) -> (r: String)
        ensures
            r@ == severity_name(*self),
    {
        match self {
            Severity::Error => String::from_str("ERROR"),
            Severity::Warning => String::from_str("WARNING"),
            Severity::Info => String::from_str("INFO"),
        }
    }
}

/// The decimal digit character for `d` (< 10).
pub open spec fn digit_char(d: nat) -> char {
    if d == 0 {
        '0'
    } else if d == 1 {
        '1'
    } else if d == 2 {
        '2'
    } else if d == 3 {
        '3'
    } else if d == 4 {
        '4'
    } else if d == 5 {
        '5'
    } else if d == 6 {
        '6'
    } else if d == 7 {
        '7'
    } else if d == 8 {
        '8'
    } else {
        '9'
    }
}

/// The decimal representation of `n`, without leading zeros.
pub open spec fn decimal(n: nat) -> Seq<char>
    decreases n,
{
    if n < 10 {
        seq![digit_char(n)]
    } else {
        decimal(n / 10).push(digit_char(n % 10))
    }
}

/// `s` left-padded with zeros to at least three characters (`{:03}`).
pub open spec fn zero_pad3(s: Seq<char>) -> Seq<char> {
    if s.len() >= 3 {
        s
    } else {
        Seq::new((3 - s.len()) as nat, |_i: int| '0') + s
    }
}

/// The standard code `<prefix>_<CATEGORY>_<NNN>`.
pub open spec fn code_text(prefix: Seq<char>, c: ErrorCategory, code: u16) -> Seq<char> {
    prefix + seq!['_'] + category_name(c) + seq!['_'] + zero_pad3(decimal(code as nat))
}

proof fn lemma_decimal_len(n: nat)
    ensures
        n < 10 ==> decimal(n).len() == 1,
        10 <= n < 100 ==> decimal(n).len() == 2,
        n >= 100 ==> decimal(n).len() >= 3,
    decreases n,
{
    if n >= 10 {
        lemma_decimal_len(n / 10);
    }
}

fn digit_str(d: usize) -> (s: &'static str)
    requires
        d < 10,
    ensures
        s@ == seq![digit_char(d as nat)],
{
    proof {
        reveal_strlit("0");
        reveal_strlit("1");
        reveal_strlit("2");
        reveal_strlit("3");
        reveal_strlit("4");
        reveal_strlit("5");
        reveal_strlit("6");
        reveal_strlit("7");
        reveal_strlit("8");
        reveal_strlit("9");
    }
    let s = if d == 0 {
        "0"
    } else if d == 1 {
        "1"
    } else if d == 2 {
        "2"
    } else if d == 3 {
        "3"
    } else if d == 4 {
        "4"
    } else if d == 5 {
        "5"
    } else if d == 6 {
        "6"
    } else if d == 7 {
        "7"
    } else if d == 8 {
        "8"
    } else {
        "9"
    };
    assert(s@ =~= seq![digit_char(d as nat)]);
    s
}

/// Appends the decimal digits of `n`.
pub(crate) fn push_decimal(out: &mut String, n: usize)
    ensures
        final(out)@ == old(out)@ + decimal(n as nat),
    decreases n,
{
    if n >= 10 {
        push_decimal(out, n / 10);
    }
    out.append(digit_str(n % 10));
    proof {
        assert(old(out)@ + decimal(n as nat) =~= (if n >= 10 {
            old(out)@ + decimal((n / 10) as nat)
        } else {
            old(out)@
        }) + seq![digit_char((n % 10) as nat)]);
    }
}

/// Appends the decimal digits of `n`.
pub(crate) fn push_decimal_u64(out: &mut String, n: u64)
    ensures
        final(out)@ == old(out)@ + decimal(n as nat),
    decreases n,
{
    if n >= 10 {
        push_decimal_u64(out, n / 10);
    }
    let d: u64 = n % 10;
    out.append(digit_str(d as usize));
    proof {
        assert(old(out)@ + decimal(n as nat) =~= (if n >= 10 {
            old(out)@ + decimal((n / 10) as nat)
        } else {
            old(out)@
        }) + seq![digit_char((n % 10) as nat)]);
    }
}

fn code_string(prefix: &str, category: ErrorCategory, code: u16) -> (r: String)
    ensures
        r@ == code_text(prefix@, category, code),
{
    let mut r = String::from_str(prefix);
    proof {
        reveal_strlit("_");
        reveal_strlit("0");
    }
    r.append("_");
    r.append(category.as_str());
    r.append("_");
    let ghost before = r@;
    if code < 100 {
        r.append("0");
    }
    if code < 10 {
        r.append("0");
    }
    push_decimal(&mut r, code as usize);
    proof {
        lemma_decimal_len(code as nat);
        assert(r@ =~= code_text(prefix@, category, code));
    }
    r
}

/// The standard error code `ERR_<CATEGORY>_<NNN>` (code zero-padded to three digits).
pub fn error_code(category: ErrorCategory, code: u16) -> (r: String)
    ensures
        r@ == code_text("ERR"@, category, code),
{
    code_string("ERR", category, code)
}

/// The standard warning code `WRN_<CATEGORY>_<NNN>` (code zero-padded to three digits).
pub fn warning_code(category: ErrorCategory, code: u16) -> (r: String)
    ensures
        r@ == code_text("WRN"@, category, code),
{
    code_string("WRN", category, code)
}

/// Unexpected token while parsing.
pub const PARSE_UNEXPECTED_TOKEN: &'static str = "ERR_PARSE_001";
/// Input ended too early.
pub const PARSE_UNEXPECTED_EOF: &'static str = "ERR_PARSE_002";
/// Malformed section header.
pub const PARSE_INVALID_SECTION: &'static str = "ERR_PARSE_003";
/// Malformed `key = value` line.
pub const PARSE_INVALID_KEYVAL: &'static str = "ERR_PARSE_004";
/// A referenced path does not exist.
pub const RESOLVE_PATH_NOT_FOUND: &'static str = "ERR_RESOLVE_001";
/// A reference is malformed.
pub const RESOLVE_INVALID_REF: &'static str = "ERR_RESOLVE_002";
/// References form a cycle.
pub const RESOLVE_CIRCULAR: &'static str = "ERR_RESOLVE_003";
/// Resolution went too deep.
pub const RESOLVE_MAX_DEPTH: &'static str = "ERR_RESOLVE_004";
/// A required field is missing.
pub const VALIDATE_REQUIRED_MISSING: &'static str = "ERR_VALIDATE_001";
/// A value is below its minimum.
pub const VALIDATE_MIN_FAILED: &'static str = "ERR_VALIDATE_002";
/// A value is above its maximum.
pub const VALIDATE_MAX_FAILED: &'static str = "ERR_VALIDATE_003";
/// A value does not match its pattern.
pub const VALIDATE_PATTERN_FAILED: &'static str = "ERR_VALIDATE_004";
/// A value is not one of its enumeration.
pub const VALIDATE_ENUM_FAILED: &'static str = "ERR_VALIDATE_005";
/// More than one field of a mutex group is set.
pub const VALIDATE_MUTEX_FAILED: &'static str = "ERR_VALIDATE_006";
/// A guard condition does not hold.
pub const VALIDATE_GUARD_FAILED: &'static str = "ERR_VALIDATE_007";
/// A sum constraint does not hold.
pub const VALIDATE_SUM_FAILED: &'static str = "ERR_VALIDATE_008";
/// A value has the wrong type.
pub const VALIDATE_TYPE_MISMATCH: &'static str = "ERR_VALIDATE_009";
/// A state transition is not allowed.
pub const STATE_INVALID_TRANSITION: &'static str = "ERR_STATE_001";
/// The state machine cannot move.
pub const STATE_DEADLOCK: &'static str = "ERR_STATE_002";
/// The time budget ran out.
pub const SYS_TIMEOUT: &'static str = "ERR_SYS_001";
/// An internal error.
pub const SYS_INTERNAL: &'static str = "ERR_SYS_002";
/// A recovery was applied.
pub const RECOVERY_APPLIED: &'static str = "WRN_RECOVERY_001";
/// A default value was used.
pub const DEFAULT_USED: &'static str = "WRN_DEFAULT_001";
/// A field was ignored.
pub const FIELD_IGNORED: &'static str = "WRN_FIELD_001";
/// A value was converted to the expected type.
pub const TYPE_COERCED: &'static str = "WRN_TYPE_001";
/// A deprecated field is used.
pub const DEPRECATED_FIELD: &'static str = "WRN_DEPRECATED_001";

} // verus!
