//! The error handler: in strict mode every error is kept; in generative
//! mode an error whose hint names a recovery that needs neither an AI nor
//! the user is recovered and kept as a `[RECOVERED]` warning. Every
//! attempt is logged.

use vstd::prelude::*;
use crate::error_codes::{ErrorCategory, Severity};
use crate::parser_types::ParserMode;

verus! {

/// What a hint suggests doing about an error. Values are kept as text.
#[derive(Debug, PartialEq)]
pub enum RecoveryAction {
    AddField { default_value: Option<String> },
    RemoveField,
    ChangeValue { new_value: String },
    CoerceType { target_type: String },
    ApplyDefault,
    IgnoreField,
    CreateObserver { name: String },
    AskUser { question: String },
}

fn copy_text(s: &Option<String>) -> (r: Option<String>)
    ensures
        r == *s,
{
    match s {
        Some(t) => Some(t.clone()),
        None => None,
    }
}

impl RecoveryAction {
    /// A copy of this action.
    pub fn copy(&self) -> (r: RecoveryAction)
        ensures
            r == *self,
    {
        match self {
            RecoveryAction::AddField { default_value } => RecoveryAction::AddField {
                default_value: copy_text(default_value),
            },
            RecoveryAction::RemoveField => RecoveryAction::RemoveField,
            RecoveryAction::ChangeValue { new_value } => RecoveryAction::ChangeValue {
                new_value: new_value.clone(),
            },
            RecoveryAction::CoerceType { target_type } => RecoveryAction::CoerceType {
                target_type: target_type.clone(),
            },
            RecoveryAction::ApplyDefault => RecoveryAction::ApplyDefault,
            RecoveryAction::IgnoreField => RecoveryAction::IgnoreField,
            RecoveryAction::CreateObserver { name } => RecoveryAction::CreateObserver {
                name: name.clone(),
            },
            RecoveryAction::AskUser { question } => RecoveryAction::AskUser {
                question: question.clone(),
            },
        }
    }
}

/// An error with what the handler reads of it: code, message, category,
/// severity, the path it concerns and the recovery its hint suggests.
#[derive(Debug)]
pub struct HandledError {
    pub code: String,
    pub message: String,
    pub category: ErrorCategory,
    pub severity: Severity,
    pub path: String,
    pub action: Option<RecoveryAction>,
}

/// The standard error for a missing required field: its hint is to add
/// the field.
pub fn missing_required_error(field: &str) -> (e: HandledError)
    ensures
        e.code@ == "ERR_VALIDATE_001"@,
        e.message@ == "Required field '"@ + field@ + "' is missing"@,
        e.category == ErrorCategory::MissingRequired,
        e.severity == Severity::Error,
        e.path@ == field@,
        e.action == Some(RecoveryAction::AddField { default_value: None }),
{
    let mut message = String::from_str("Required field '");
    message.append(field);
    message.append("' is missing");
    HandledError {
        code: String::from_str("ERR_VALIDATE_001"),
        message,
        category: ErrorCategory::MissingRequired,
        severity: Severity::Error,
        path: String::from_str(field),
        action: Some(RecoveryAction::AddField { default_value: None }),
    }
}

/// One recovery attempt: the error's message, the action tried and
/// whether it succeeded.
#[derive(Debug)]
pub struct RecoveryEntry {
    pub original_error: String,
    pub recovery_action: RecoveryAction,
    pub success: bool,
}

/// Whether a suggested action recovers an error without help: creating an
/// observer needs an AI and asking needs the user; no hint recovers
/// nothing.
pub open spec fn recovers(a: Option<RecoveryAction>) -> bool {
    match a {
        Some(RecoveryAction::CreateObserver { .. }) => false,
        Some(RecoveryAction::AskUser { .. }) => false,
        Some(_) => true,
        None => false,
    }
}

/// The action logged for an attempt: the hint's, else `IgnoreField`.
pub open spec fn attempted(a: Option<RecoveryAction>) -> RecoveryAction {
    match a {
        Some(x) => x,
        None => RecoveryAction::IgnoreField,
    }
}

/// Collects errors and warnings, recovering what it can in generative
/// mode.
#[derive(Debug)]
pub struct ErrorHandlerImpl {
    errors: Vec<HandledError>,
    warnings: Vec<HandledError>,
    recovery_log: Vec<RecoveryEntry>,
    mode: ParserMode,
}

impl ErrorHandlerImpl {
    /// The errors kept, in order.
    pub closed spec fn errors_of(&self) -> Seq<HandledError> {
        self.errors@
    }

    /// The warnings kept, in order.
    pub closed spec fn warnings_of(&self) -> Seq<HandledError> {
        self.warnings@
    }

    /// The recovery attempts, in order.
    pub closed spec fn log_of(&self) -> Seq<RecoveryEntry> {
        self.recovery_log@
    }

    /// The mode.
    pub closed spec fn mode_of(&self) -> ParserMode {
        self.mode
    }

    /// A handler with nothing collected.
    pub fn new(mode: ParserMode) -> (h: Self)
        ensures
            h.mode_of() == mode,
            h.errors_of().len() == 0,
            h.warnings_of().len() == 0,
            h.log_of().len() == 0,
    {
        ErrorHandlerImpl {
            errors: Vec::new(),
            warnings: Vec::new(),
            recovery_log: Vec::new(),
            mode,
        }
    }

    /// Records an error: kept in strict mode, recovered if it can be in
    /// generative mode.
    pub fn add_error(&mut self, error: HandledError)
        ensures
            final(self).mode_of() == old(self).mode_of(),
            old(self).mode_of() == ParserMode::Strict ==> final(self).errors_of() == old(
                self,
            ).errors_of().push(error) && final(self).warnings_of() == old(self).warnings_of()
                && final(self).log_of() == old(self).log_of(),
            old(self).mode_of() == ParserMode::Generative ==> {
                &&& final(self).log_of().len() == old(self).log_of().len() + 1
                &&& final(self).log_of().drop_last() == old(self).log_of()
                &&& final(self).log_of().last().original_error == error.message
                &&& final(self).log_of().last().recovery_action == attempted(error.action)
                &&& final(self).log_of().last().success == recovers(error.action)
                &&& recovers(error.action) ==> {
                    &&& final(self).errors_of() == old(self).errors_of()
                    &&& final(self).warnings_of().len() == old(self).warnings_of().len() + 1
                    &&& final(self).warnings_of().drop_last() == old(self).warnings_of()
                    &&& final(self).warnings_of().last().code@ == "WRN_RECOVERY_001"@
                    &&& final(self).warnings_of().last().message@ == "[RECOVERED] "@
                        + error.message@
                    &&& final(self).warnings_of().last().severity == Severity::Warning
                    &&& final(self).warnings_of().last().category == error.category
                    &&& final(self).warnings_of().last().path == error.path
                    &&& final(self).warnings_of().last().action == error.action
                }
                &&& !recovers(error.action) ==> final(self).errors_of() == old(
                    self,
                ).errors_of().push(error) && final(self).warnings_of() == old(self).warnings_of()
            },
    {
        match self.mode {
            ParserMode::Strict => {
                self.errors.push(error);
            },
            ParserMode::Generative => {
                self.try_recovery(error);
            },
        }
    }

    fn try_recovery(&mut self, error: HandledError)
        ensures
            final(self).mode_of() == old(self).mode_of(),
            final(self).log_of().len() == old(self).log_of().len() + 1,
            final(self).log_of().drop_last() == old(self).log_of(),
            final(self).log_of().last().original_error == error.message,
            final(self).log_of().last().recovery_action == attempted(error.action),
            final(self).log_of().last().success == recovers(error.action),
            recovers(error.action) ==> {
                &&& final(self).errors_of() == old(self).errors_of()
                &&& final(self).warnings_of().len() == old(self).warnings_of().len() + 1
                &&& final(self).warnings_of().drop_last() == old(self).warnings_of()
                &&& final(self).warnings_of().last().code@ == "WRN_RECOVERY_001"@
                &&& final(self).warnings_of().last().message@ == "[RECOVERED] "@ + error.message@
                &&& final(self).warnings_of().last().severity == Severity::Warning
                &&& final(self).warnings_of().last().category == error.category
                &&& final(self).warnings_of().last().path == error.path
                &&& final(self).warnings_of().last().action == error.action
            },
            !recovers(error.action) ==> final(self).errors_of() == old(self).errors_of().push(
                error,
            ) && final(self).warnings_of() == old(self).warnings_of(),
    {
        proof {
            reveal_strlit("WRN_RECOVERY_001");
            reveal_strlit("[RECOVERED] ");
        }
        let (action, success) = match &error.action {
            Some(a) => {
                let ok = match a {
                    RecoveryAction::CreateObserver { .. } => false,
                    RecoveryAction::AskUser { .. } => false,
                    _ => true,
                };
                (a.copy(), ok)
            },
            None => (RecoveryAction::IgnoreField, false),
        };
        let ghost before_log = self.recovery_log@;
        self.recovery_log.push(
            RecoveryEntry { original_error: error.message.clone(), recovery_action: action, success },
        );
        proof {
            assert(self.recovery_log@.drop_last() =~= before_log);
        }
        if success {
            let HandledError { code: _, message, category, severity: _, path, action } = error;
            let mut m = String::from_str("[RECOVERED] ");
            m.append(message.as_str());
            let ghost before = self.warnings@;
            self.warnings.push(
                HandledError {
                    code: String::from_str("WRN_RECOVERY_001"),
                    message: m,
                    category,
                    severity: Severity::Warning,
                    path,
                    action,
                },
            );
            proof {
                assert(self.warnings@.drop_last() =~= before);
            }
        } else {
            self.errors.push(error);
        }
    }

    /// Records a warning.
    pub fn add_warning(&mut self, warning: HandledError)
        ensures
            final(self).mode_of() == old(self).mode_of(),
            final(self).warnings_of() == old(self).warnings_of().push(warning),
            final(self).errors_of() == old(self).errors_of(),
            final(self).log_of() == old(self).log_of(),
    {
        self.warnings.push(warning);
    }

    /// Whether some error is kept.
    pub fn has_blocking_errors(&self) -> (r: bool)
        ensures
            r == (self.errors_of().len() > 0),
    {
        self.errors.len() > 0
    }

    /// Whether some error is kept.
    pub fn has_errors(&self) -> (r: bool)
        ensures
            r == (self.errors_of().len() > 0),
    {
        self.has_blocking_errors()
    }

    /// The errors kept.
    pub fn errors(&self) -> (r: &[HandledError])
        ensures
            r@ == self.errors_of(),
    {
        self.errors.as_slice()
    }

    /// The warnings kept.
    pub fn warnings(&self) -> (r: &[HandledError])
        ensures
            r@ == self.warnings_of(),
    {
        self.warnings.as_slice()
    }

    /// The recovery attempts.
    pub fn recovery_log(&self) -> (r: &[RecoveryEntry])
        ensures
            r@ == self.log_of(),
    {
        self.recovery_log.as_slice()
    }

    /// Forgets all errors, warnings and attempts.
    pub fn clear(&mut self)
        ensures
            final(self).mode_of() == old(self).mode_of(),
            final(self).errors_of().len() == 0,
            final(self).warnings_of().len() == 0,
            final(self).log_of().len() == 0,
    {
        self.errors.clear();
        self.warnings.clear();
        self.recovery_log.clear();
    }
}

} // verus!
