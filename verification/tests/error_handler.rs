use sapri::error_codes::{ErrorCategory, Severity};
use sapri::error_handler::{missing_required_error, ErrorHandlerImpl, HandledError, RecoveryAction};
use sapri::parser_types::ParserMode;

fn error_with(action: Option<RecoveryAction>) -> HandledError {
    HandledError {
        code: "ERR_TEST".to_string(),
        message: "test".to_string(),
        category: ErrorCategory::Parse,
        severity: Severity::Error,
        path: "p".to_string(),
        action,
    }
}

#[test]
fn integration_test_test_error_handler_strict() {
    let mut handler = ErrorHandlerImpl::new(ParserMode::Strict);
    handler.add_error(missing_required_error("field"));
    assert!(handler.has_errors());
    assert_eq!(handler.errors().len(), 1);
    assert_eq!(handler.warnings().len(), 0);
}

#[test]
fn test_error_handler_generative() {
    let mut handler = ErrorHandlerImpl::new(ParserMode::Generative);
    handler.add_error(missing_required_error("field"));
    assert!(!handler.has_errors());
    assert_eq!(handler.warnings().len(), 1);
    assert_eq!(handler.recovery_log().len(), 1);
}

#[test]
fn missing_required_error_reads_well() {
    let e = missing_required_error("age");
    assert_eq!(e.code, "ERR_VALIDATE_001");
    assert_eq!(e.message, "Required field 'age' is missing");
    assert_eq!(e.category, ErrorCategory::MissingRequired);
    assert_eq!(e.action, Some(RecoveryAction::AddField { default_value: None }));
}

#[test]
fn recovered_errors_become_warnings() {
    let mut handler = ErrorHandlerImpl::new(ParserMode::Generative);
    handler.add_error(error_with(Some(RecoveryAction::CoerceType { target_type: "n".to_string() })));
    let w = &handler.warnings()[0];
    assert_eq!(w.code, "WRN_RECOVERY_001");
    assert_eq!(w.message, "[RECOVERED] test");
    assert_eq!(w.severity, Severity::Warning);
    let entry = &handler.recovery_log()[0];
    assert_eq!(entry.original_error, "test");
    assert!(entry.success);
    assert_eq!(entry.recovery_action, RecoveryAction::CoerceType { target_type: "n".to_string() });
}

#[test]
fn errors_needing_help_are_kept() {
    let mut handler = ErrorHandlerImpl::new(ParserMode::Generative);
    handler.add_error(error_with(Some(RecoveryAction::AskUser { question: "?".to_string() })));
    handler.add_error(error_with(Some(RecoveryAction::CreateObserver { name: "o".to_string() })));
    handler.add_error(error_with(None));
    assert_eq!(handler.errors().len(), 3);
    assert!(handler.warnings().is_empty());
    let log = handler.recovery_log();
    assert_eq!(log.len(), 3);
    assert!(log.iter().all(|e| !e.success));
    assert_eq!(log[2].recovery_action, RecoveryAction::IgnoreField);
    handler.clear();
    assert!(!handler.has_blocking_errors());
    assert!(handler.recovery_log().is_empty());
}
