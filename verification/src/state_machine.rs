//! Parser pipeline states, actions, transitions and a simple state machine
//! that walks the pipeline `Init → Lexing → Parsing → Validated → Exported`.

use vstd::prelude::*;
use crate::parser_types::ParserConfig;

verus! {

/// States of the parser.
#[derive(Debug, Clone, Copy, PartialEq, Eq, Hash, Structural)]
pub enum ParserState {
    Init,
    Lexing,
    Parsing,
    Resolving,
    Deduplicating,
    Validating,
    Validated,
    Exported,
    Error,
}

/// The name of a state (as `Display` shows it).
pub open spec fn state_name(s: ParserState) -> Seq<char> {
    match s {
        ParserState::Init => "Init"@,
        ParserState::Lexing => "Lexing"@,
        ParserState::Parsing => "Parsing"@,
        ParserState::Resolving => "Resolving"@,
        ParserState::Deduplicating => "Deduplicating"@,
        ParserState::Validating => "Validating"@,
        ParserState::Validated => "Validated"@,
        ParserState::Exported => "Exported"@,
        ParserState::Error => "Error"@,
    }
}

impl ParserState {
    /// The state's name.
    pub fn to_string(&self) -> (r: String)
        ensures
            r@ == state_name(*self),
    {
        String::from_str(
            match self {
                ParserState::Init => "Init",
                ParserState::Lexing => "Lexing",
                ParserState::Parsing => "Parsing",
                ParserState::Resolving => "Resolving",
                ParserState::Deduplicating => "Deduplicating",
                ParserState::Validating => "Validating",
                ParserState::Validated => "Validated",
                ParserState::Exported => "Exported",
                ParserState::Error => "Error",
            },
        )
    }
}

/// Actions that the pipeline runs.
#[derive(Debug, Clone, Copy, PartialEq, Eq, Structural)]
pub enum ParserAction {
    Lex,
    Parse,
    Resolve,
    Dedup,
    Validate,
    Error,
    Rec,
    Flush,
    Nop,
}

/// The name of an action (as `Display` shows it).
pub open spec fn action_name(a: ParserAction) -> Seq<char> {
    match a {
        ParserAction::Lex => "lex"@,
        ParserAction::Parse => "parse"@,
        ParserAction::Resolve => "resolve"@,
        ParserAction::Dedup => "dedup"@,
        ParserAction::Validate => "validate"@,
        ParserAction::Error => "err"@,
        ParserAction::Rec => "rec"@,
        ParserAction::Flush => "flush"@,
        ParserAction::Nop => "nop"@,
    }
}

impl ParserAction {
    /// The action's name.
    pub fn to_string(&self) -> (r: String)
        ensures
            r@ == action_name(*self),
    {
        String::from_str(
            match self {
                ParserAction::Lex => "lex",
                ParserAction::Parse => "parse",
                ParserAction::Resolve => "resolve",
                ParserAction::Dedup => "dedup",
                ParserAction::Validate => "validate",
                ParserAction::Error => "err",
                ParserAction::Rec => "rec",
                ParserAction::Flush => "flush",
                ParserAction::Nop => "nop",
            },
        )
    }
}

/// A transition between two states.
#[derive(Debug, Clone)]
pub struct Transition {
    pub from: ParserState,
    pub to: ParserState,
    pub action: ParserAction,
    pub guard: Option<String>,
    pub on_fail: ParserAction,
}

impl Transition {
    /// A transition without guard that falls back to `Err` on failure.
    pub fn new(from: ParserState, to: ParserState, action: ParserAction) -> (t: Self)
        ensures
            t.from == from,
            t.to == to,
            t.action == action,
            t.guard is None,
            t.on_fail == ParserAction::Error,
    {
        Transition { from, to, action, guard: None, on_fail: ParserAction::Error }
    }

    /// The same transition, guarded by `guard`.
    pub fn with_guard(self, guard: &str) -> (t: Self)
        ensures
            t.from == self.from,
            t.to == self.to,
            t.action == self.action,
            t.guard matches Some(g) && g@ == guard@,
            t.on_fail == self.on_fail,
    {
        let mut t = self;
        t.guard = Some(String::from_str(guard));
        t
    }

    /// The same transition, with `action` run on failure.
    pub fn on_fail(self, action: ParserAction) -> (t: Self)
        ensures
            t.from == self.from,
            t.to == self.to,
            t.action == self.action,
            t.guard == self.guard,
            t.on_fail == action,
    {
        let mut t = self;
        t.on_fail = action;
        t
    }
}

/// A transition was asked from a state the machine is not in.
#[derive(Debug, Clone, Copy, PartialEq, Eq)]
pub enum StateError {
    /// The machine is in `current`, not in the `expected` starting state.
    WrongState { current: ParserState, expected: ParserState },
}

/// The message of a refused transition.
pub open spec fn state_error_text(e: StateError) -> Seq<char> {
    match e {
        StateError::WrongState { current, expected } => "Current state is "@ + state_name(current)
            + ", expected "@ + state_name(expected),
    }
}

impl StateError {
    /// The message of this error.
    pub fn to_string(&self) -> (r: String)
        ensures
            r@ == state_error_text(*self),
    {
        match self {
            StateError::WrongState { current, expected } => {
                let mut r = String::from_str("Current state is ");
                let a = current.to_string();
                r.append(a.as_str());
                r.append(", expected ");
                let b = expected.to_string();
                r.append(b.as_str());
                proof {
                    assert(r@ =~= state_error_text(*self));
                }
                r
            },
        }
    }
}

/// The transitions of the simple pipeline.
pub open spec fn simple_transition_allowed(from: ParserState, to: ParserState) -> bool {
    ||| from == ParserState::Init && to == ParserState::Lexing
    ||| from == ParserState::Lexing && to == ParserState::Parsing
    ||| from == ParserState::Parsing && to == ParserState::Validated
    ||| from == ParserState::Validated && to == ParserState::Exported
}

/// A minimal state machine: it only checks that a transition starts from
/// the state it is in.
#[derive(Debug)]
pub struct SimpleStateMachine {
    state: ParserState,
}

impl SimpleStateMachine {
    /// The current state.
    pub closed spec fn state(&self) -> ParserState {
        self.state
    }

    /// A machine in state `Init`.
    pub fn new() -> (m: Self)
        ensures
            m.state() == ParserState::Init,
    {
        SimpleStateMachine { state: ParserState::Init }
    }

    /// Moves from `from` to `to`; fails, without moving, unless the machine is
    /// in `from`.
    pub fn transition(&mut self, from: ParserState, to: ParserState) -> (r: Result<bool, StateError>)
        ensures
            old(self).state() == from ==> r == Ok::<bool, StateError>(true) && final(self).state()
                == to,
            old(self).state() != from ==> r == Err::<bool, StateError>(
                StateError::WrongState { current: old(self).state(), expected: from },
            ) && final(self).state() == old(self).state(),
    {
        if self.state != from {
            return Err(StateError::WrongState { current: self.state, expected: from });
        }
        self.state = to;
        Ok(true)
    }

    /// The current state.
    pub fn current_state(&self) -> (s: ParserState)
        ensures
            s == self.state(),
    {
        self.state
    }

    /// Runs the simple pipeline from `Init` through `Lexing`, `Parsing` and
    /// `Validated` to `Exported`; the result is always exportable.
    pub fn run_pipeline(&mut self, _input: &str, _config: &ParserConfig) -> (r: Result<bool, StateError>)
        ensures
            r == Ok::<bool, StateError>(true),
            final(self).state() == ParserState::Exported,
    {
        self.state = ParserState::Init;
        self.transition(ParserState::Init, ParserState::Lexing)?;
        self.transition(ParserState::Lexing, ParserState::Parsing)?;
        self.transition(ParserState::Parsing, ParserState::Validated)?;
        self.transition(ParserState::Validated, ParserState::Exported)?;
        Ok(true)
    }

    /// Whether `from → to` is one of the steps of the simple pipeline.
    pub fn is_valid_transition(&self, from: ParserState, to: ParserState) -> (r: bool)
        ensures
            r == simple_transition_allowed(from, to),
    {
        (from == ParserState::Init && to == ParserState::Lexing) || (from == ParserState::Lexing
            && to == ParserState::Parsing) || (from == ParserState::Parsing && to
            == ParserState::Validated) || (from == ParserState::Validated && to
            == ParserState::Exported)
    }
}

impl Default for SimpleStateMachine {
    fn default() -> (m: Self)
        ensures
            m.state() == ParserState::Init,
    {
        Self::new()
    }
}

/// A transition succeeds exactly from the current state, and a failed one
/// leaves the machine where it was; walking the simple pipeline's steps in
/// order from `Init` therefore ends in `Exported`.
pub proof fn lemma_simple_pipeline_reaches_exported()
    ensures
        simple_transition_allowed(ParserState::Init, ParserState::Lexing),
        simple_transition_allowed(ParserState::Lexing, ParserState::Parsing),
        simple_transition_allowed(ParserState::Parsing, ParserState::Validated),
        simple_transition_allowed(ParserState::Validated, ParserState::Exported),
        forall|s: ParserState| !simple_transition_allowed(ParserState::Exported, s),
        forall|s: ParserState| !simple_transition_allowed(s, ParserState::Init),
{
}

} // verus!
