use sapri::error_codes::{
    error_code, warning_code, ErrorCategory, PARSE_UNEXPECTED_TOKEN, SYS_TIMEOUT, VALIDATE_TYPE_MISMATCH,
};
use sapri::parser_types::{ParserConfig, ParserMode};
use sapri::pipeline::{count_words, ActionOutcome, ParserStateMachine, TransitionError};
use sapri::state_machine::{ParserAction, ParserState};

#[test]
fn test_action_naming() {
    assert_eq!(ParserAction::Lex.to_string(), "lex");
    assert_eq!(ParserAction::Parse.to_string(), "parse");
    assert_eq!(ParserAction::Resolve.to_string(), "resolve");
    assert_eq!(ParserAction::Validate.to_string(), "validate");
    assert_eq!(ParserAction::Nop.to_string(), "nop");
}

#[test]
fn test_error_code_format() {
    assert_eq!(error_code(ErrorCategory::Parse, 1), "ERR_PARSE_001");
    assert_eq!(error_code(ErrorCategory::Validate, 99), "ERR_VALIDATE_099");
    assert_eq!(warning_code(ErrorCategory::Parse, 1), "WRN_PARSE_001");
}

#[test]
fn error_code_wide_numbers() {
    assert_eq!(error_code(ErrorCategory::Parse, 1234), "ERR_PARSE_1234");
    assert_eq!(error_code(ErrorCategory::Parse, 0), "ERR_PARSE_000");
}

#[test]
fn pipeline_walks_every_stage_in_strict_mode() {
    let mut m = ParserStateMachine::new(ParserMode::Strict, "input".to_string(), 1000);
    let mut seen = vec![m.current_state()];
    while !m.is_finished() {
        let t = m.find_transition(m.current_state()).unwrap();
        let to = t.to;
        m.push_backtrack();
        let fallback = m.after_action(to, ActionOutcome::Done);
        assert!(!fallback);
        seen.push(m.current_state());
    }
    assert_eq!(
        seen,
        vec![
            ParserState::Init,
            ParserState::Lexing,
            ParserState::Parsing,
            ParserState::Resolving,
            ParserState::Deduplicating,
            ParserState::Validating,
            ParserState::Validated,
            ParserState::Exported,
        ]
    );
    assert!(m.find_transition(ParserState::Exported).is_none());
}

#[test]
fn pipeline_failures_depend_on_mode() {
    let mut strict = ParserStateMachine::new(ParserMode::Strict, String::new(), 1);
    assert!(!strict.after_action(ParserState::Lexing, ActionOutcome::Failed));
    assert_eq!(strict.current_state(), ParserState::Error);

    let mut generative = ParserStateMachine::new(ParserMode::Generative, String::new(), 1);
    assert!(generative.after_action(ParserState::Lexing, ActionOutcome::Raised));
    assert_eq!(generative.current_state(), ParserState::Lexing);
}

#[test]
fn pipeline_transitions_and_recovery() {
    let mut m = ParserStateMachine::new(ParserMode::Generative, String::new(), 1);
    assert!(m.is_valid_transition(ParserState::Error, ParserState::Lexing));
    assert!(!m.is_valid_transition(ParserState::Init, ParserState::Parsing));
    assert_eq!(m.transition(ParserState::Init, ParserState::Lexing), Ok(true));
    assert_eq!(m.current_state(), ParserState::Lexing);
    let err = m.transition(ParserState::Init, ParserState::Parsing).unwrap_err();
    assert_eq!(err, TransitionError::Invalid { from: ParserState::Init, to: ParserState::Parsing });
    assert_eq!(err.to_string(), "Invalid transition: Init → Parsing");
    let none = m.transition(ParserState::Exported, ParserState::Init).unwrap_err();
    assert_eq!(none.to_string(), "No transition from state: Exported");
    assert_eq!(m.current_state(), ParserState::Lexing);

    assert_eq!(m.recover(), Err(()));
    assert_eq!(m.current_state(), ParserState::Error);
    for _ in 0..7 {
        m.push_backtrack();
    }
    assert_eq!(m.recover(), Ok(ParserState::Error));

    m.configure("text", ParserMode::Strict);
    let t = m.find_transition(ParserState::Error).unwrap();
    assert_eq!(t.action, ParserAction::Rec);
    assert_eq!(t.on_fail, ParserAction::Flush);
}

#[test]
fn error_action_by_mode() {
    let mut strict = ParserStateMachine::new(ParserMode::Strict, String::new(), 1);
    assert_eq!(strict.action_err(), ActionOutcome::Raised);
    assert_eq!(strict.current_state(), ParserState::Error);
    let mut gen = ParserStateMachine::new(ParserMode::Generative, String::new(), 1);
    assert_eq!(gen.action_err(), ActionOutcome::Failed);
    assert_eq!(gen.current_state(), ParserState::Init);
}

#[test]
fn state_machine_impl_test_transition_validation() {
    let sm = ParserStateMachine::new(ParserMode::Strict, "test".to_string(), 1000);

    assert!(sm.is_valid_transition(ParserState::Init, ParserState::Lexing));
    assert!(sm.is_valid_transition(ParserState::Lexing, ParserState::Parsing));
    assert!(!sm.is_valid_transition(ParserState::Init, ParserState::Exported));
}

#[test]
fn integration_test_test_transition_validation() {
    let sm = ParserStateMachine::new(ParserMode::Strict, "test".to_string(), 1000);

    assert!(sm.is_valid_transition(ParserState::Init, ParserState::Lexing));
    assert!(sm.is_valid_transition(ParserState::Lexing, ParserState::Parsing));
    assert!(!sm.is_valid_transition(ParserState::Init, ParserState::Exported));
}

#[test]
fn standard_codes_agree_with_the_code_builders() {
    assert_eq!(error_code(ErrorCategory::Parse, 1), PARSE_UNEXPECTED_TOKEN);
    assert_eq!(error_code(ErrorCategory::Validate, 9), VALIDATE_TYPE_MISMATCH);
    assert_eq!(SYS_TIMEOUT, "ERR_SYS_001");
}

#[test]
fn words_are_counted() {
    assert_eq!(count_words(""), 0);
    assert_eq!(count_words("   "), 0);
    assert_eq!(count_words("a"), 1);
    assert_eq!(count_words(" a  bb\tc\n"), 3);
    assert_eq!(count_words("x\u{00A0}y"), 2);
}

#[test]
fn generative_run_is_exported_but_not_exportable() {
    let mut m = ParserStateMachine::new(ParserMode::Generative, String::new(), 1);
    let mut config = ParserConfig::default();
    config.mode = ParserMode::Generative;
    let r = m.run_pipeline("a b  c", &config);
    assert!(!r.exportable);
    if !r.timed_out {
        assert_eq!(r.state, ParserState::Exported);
        assert!(r.errors.is_empty());
        assert!(r.parsed);
        assert_eq!(r.stats.total_tokens, 3);
        assert_eq!(r.stats.total_fields, 10);
        assert!(!r.score_is_one);
    }
}

#[test]
fn strict_run_stops_at_validation() {
    let mut m = ParserStateMachine::new(ParserMode::Generative, String::new(), 1);
    let r = m.run_pipeline("one two", &ParserConfig::default());
    assert!(!r.exportable);
    if !r.timed_out {
        assert_eq!(r.state, ParserState::Error);
        let codes: Vec<&str> = r.errors.iter().map(|e| e.code.as_str()).collect();
        assert_eq!(codes, vec!["ERR_VALIDATE", "ERR_Validate"]);
        assert_eq!(r.errors[0].message, "Validation failed: S=0.000");
        assert_eq!(r.errors[1].message, "Validation failed");
        assert_eq!(r.stats.total_errors, 2);
        assert_eq!(r.stats.total_tokens, 2);
    }
}

#[test]
fn timeout_is_reported_last() {
    let mut m = ParserStateMachine::new(ParserMode::Strict, "x".to_string(), 0);
    let r = m.run_pipeline_internal();
    if r.timed_out {
        let last = r.errors.last().unwrap();
        assert_eq!(last.code, "ERR_TIMEOUT");
        assert_eq!(last.message, "Timeout after 0 ms");
        assert!(r.state != ParserState::Exported && r.state != ParserState::Error);
        // A strict run stopped before it fails has raised nothing else.
        assert_eq!(r.errors.len(), 1);
        assert_eq!(r.stats.total_errors, 1);
        if r.state == ParserState::Init {
            assert_eq!(r.stats.total_tokens, 0);
            assert!(!r.parsed);
        }
    }
}
