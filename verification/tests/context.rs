use sapri::atom::{Atom, AtomImpl, UrcmCtx};
use sapri::charmap::CharMap;
use sapri::parser_types::{is_valid_path, normalize_path, ParserConfig, ParserMode};
use sapri::state_machine::{ParserAction, ParserState, SimpleStateMachine, StateError, Transition};

#[test]
fn atoms_and_their_dependencies() {
    let n = Atom::new('x', "input", AtomImpl::Number);
    assert!(!n.is_react());
    assert!(n.deps().is_empty());
    let p = Atom::new_promise('p', "later", vec!['x', 'y']);
    assert!(p.is_react());
    assert_eq!(p.deps(), vec!['x', 'y']);
    assert_eq!(p.label, "later");
    let c = Atom::new('c', "sum", AtomImpl::Computed { deps: vec!['a'] });
    assert!(c.is_react());
    assert_eq!(c.deps(), vec!['a']);
}

#[test]
fn context_records_promises() {
    let mut ctx = UrcmCtx::new(7u32);
    ctx.def_promise('p', "p", vec!['a', 'b']).def_promise('q', "q", vec!['a']);
    let mut syms = ctx.symbols();
    syms.sort();
    assert_eq!(syms, vec!['p', 'q']);
    ctx.def_promise('p', "again", vec![]);
    assert_eq!(ctx.symbols().len(), 2);
}

#[test]
fn char_map_replaces_and_keeps_order() {
    let mut m: CharMap<u8> = CharMap::new();
    m.insert('b', 1);
    m.insert('a', 2);
    m.insert('b', 3);
    assert_eq!(m.get('b'), Some(&3));
    assert_eq!(m.get('a'), Some(&2));
    assert_eq!(m.get('z'), None);
    assert_eq!(m.keys(), vec!['b', 'a']);
}

#[test]
fn parser_paths_and_config() {
    assert_eq!(normalize_path("  User.Name "), "user.name");
    assert!(is_valid_path("user_1.name"));
    assert!(!is_valid_path(""));
    assert!(!is_valid_path("a-b"));
    assert!(is_valid_path("città"));
    let c = ParserConfig::default();
    assert_eq!(c.mode, ParserMode::Strict);
    assert_eq!(c.encoding, "utf-8");
    assert_eq!(c.max_depth, 100);
    assert_eq!(c.version, "2.0");
}

#[test]
fn transitions_and_the_simple_machine() {
    let t = Transition::new(ParserState::Init, ParserState::Lexing, ParserAction::Lex)
        .with_guard("ready")
        .on_fail(ParserAction::Flush);
    assert_eq!(t.guard.as_deref(), Some("ready"));
    assert_eq!(t.on_fail, ParserAction::Flush);
    assert_eq!(t.to, ParserState::Lexing);

    let mut m = SimpleStateMachine::new();
    assert!(m.is_valid_transition(ParserState::Parsing, ParserState::Validated));
    assert!(!m.is_valid_transition(ParserState::Init, ParserState::Exported));
    assert_eq!(m.transition(ParserState::Init, ParserState::Lexing), Ok(true));
    assert_eq!(
        m.transition(ParserState::Init, ParserState::Lexing),
        Err(StateError::WrongState { current: ParserState::Lexing, expected: ParserState::Init })
    );
    assert_eq!(m.current_state(), ParserState::Lexing);
    assert_eq!(ParserState::Deduplicating.to_string(), "Deduplicating");
    assert_eq!(ParserAction::Error.to_string(), "err");
}

#[test]
fn simple_pipeline_run_and_errors() {
    let mut m = SimpleStateMachine::new();
    m.transition(ParserState::Init, ParserState::Lexing).unwrap();
    assert_eq!(m.run_pipeline("input", &ParserConfig::default()), Ok(true));
    assert_eq!(m.current_state(), ParserState::Exported);
    let e = m.transition(ParserState::Init, ParserState::Lexing).unwrap_err();
    assert_eq!(e.to_string(), "Current state is Exported, expected Init");
}

#[test]
fn state_machine_impl_test_simple_state_machine() {
    let mut sm = SimpleStateMachine::new();
    let config = ParserConfig::default();

    let exportable = sm.run_pipeline("test input", &config).unwrap();

    assert_eq!(sm.current_state(), ParserState::Exported);
    assert!(exportable);
}

#[test]
fn integration_test_test_simple_state_machine() {
    let mut sm = SimpleStateMachine::new();
    let config = ParserConfig::default();

    let exportable = sm.run_pipeline("test", &config).unwrap();

    assert_eq!(sm.current_state(), ParserState::Exported);
    assert!(exportable);
}
