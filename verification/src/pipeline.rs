//! The parser pipeline's state machine: its transition table
//! (`lex → parse → resolve → dedup → validate → flush`, with recovery from
//! `Error`), transition lookup and checks, the backtracking stack, and the
//! decision taken after each action.

use vstd::prelude::*;
use crate::parser_types::{ParserConfig, ParserMode};
use crate::state_machine::{ParserAction, ParserState, Transition, state_name};
use crate::error_codes::{decimal, push_decimal_u64};
use crate::text::{char_in_class, chars_of, is_white, TrimClass};

verus! {

/// The step the pipeline takes from a state: target state, action, and
/// the action run when it fails. `Exported` has none.
pub open spec fn pipeline_step(from: ParserState) -> Option<(ParserState, ParserAction, ParserAction)> {
    match from {
        ParserState::Init => Some((ParserState::Lexing, ParserAction::Lex, ParserAction::Error)),
        ParserState::Lexing => Some((ParserState::Parsing, ParserAction::Parse, ParserAction::Error)),
        ParserState::Parsing => Some(
            (ParserState::Resolving, ParserAction::Resolve, ParserAction::Error),
        ),
        ParserState::Resolving => Some(
            (ParserState::Deduplicating, ParserAction::Dedup, ParserAction::Error),
        ),
        ParserState::Deduplicating => Some(
            (ParserState::Validating, ParserAction::Validate, ParserAction::Error),
        ),
        ParserState::Validating => Some(
            (ParserState::Validated, ParserAction::Nop, ParserAction::Error),
        ),
        ParserState::Validated => Some(
            (ParserState::Exported, ParserAction::Flush, ParserAction::Error),
        ),
        ParserState::Error => Some((ParserState::Lexing, ParserAction::Rec, ParserAction::Flush)),
        ParserState::Exported => None,
    }
}

/// The transition table, in the order it is built.
pub open spec fn pipeline_table() -> Seq<ParserState> {
    seq![
        ParserState::Init,
        ParserState::Lexing,
        ParserState::Parsing,
        ParserState::Resolving,
        ParserState::Deduplicating,
        ParserState::Validating,
        ParserState::Validated,
        ParserState::Error,
    ]
}

/// Transition `t` is the table's step from its source state.
pub open spec fn is_step(t: Transition) -> bool {
    &&& t.guard is None
    &&& pipeline_step(t.from) matches Some(s)
    &&& t.to == s.0
    &&& t.action == s.1
    &&& t.on_fail == s.2
}

/// How an action ended.
#[derive(Debug, Clone, Copy, PartialEq, Eq, Structural)]
pub enum ActionOutcome {
    /// It succeeded.
    Done,
    /// It failed without an error (the pipeline may go on).
    Failed,
    /// It raised an error.
    Raised,
}

/// Why a requested transition was refused.
#[derive(Debug, Clone, Copy, PartialEq, Eq, Structural)]
pub enum TransitionError {
    /// The table's step from `from` does not lead to `to`.
    Invalid { from: ParserState, to: ParserState },
    /// The table has no step from `from`.
    NoTransition { from: ParserState },
}

/// The message of a refused transition.
pub open spec fn transition_error_text(e: TransitionError) -> Seq<char> {
    match e {
        TransitionError::Invalid { from, to } => "Invalid transition: "@ + state_name(from)
            + " → "@ + state_name(to),
        TransitionError::NoTransition { from } => "No transition from state: "@ + state_name(from),
    }
}

impl TransitionError {
    /// The message of this error.
    pub fn to_string(&self) -> (r: String)
        ensures
            r@ == transition_error_text(*self),
    {
        let mut r = String::new();
        match self {
            TransitionError::Invalid { from, to } => {
                r.append("Invalid transition: ");
                let a = from.to_string();
                r.append(a.as_str());
                r.append(" → ");
                let b = to.to_string();
                r.append(b.as_str());
            },
            TransitionError::NoTransition { from } => {
                r.append("No transition from state: ");
                let a = from.to_string();
                r.append(a.as_str());
            },
        }
        proof {
            assert(r@ =~= transition_error_text(*self));
        }
        r
    }
}

/// The state after an action of a step towards `to`: success moves on; a
/// quiet failure moves on only in generative mode; a raised error stops in
/// strict mode and moves on otherwise.
pub open spec fn state_after(mode: ParserMode, to: ParserState, outcome: ActionOutcome) -> ParserState {
    match outcome {
        ActionOutcome::Done => to,
        ActionOutcome::Failed => if mode == ParserMode::Generative {
            to
        } else {
            ParserState::Error
        },
        ActionOutcome::Raised => if mode == ParserMode::Strict {
            ParserState::Error
        } else {
            to
        },
    }
}

/// The pipeline's time budget in milliseconds for a mode.
pub open spec fn timeout_for(mode: ParserMode) -> u64 {
    match mode {
        ParserMode::Strict => 5000,
        ParserMode::Generative => 30000,
    }
}

/// The parser's state machine: its transitions, its state, its input and
/// mode, and a bounded stack of states to return to on recovery.
#[derive(Debug)]
pub struct ParserStateMachine {
    transitions: Vec<Transition>,
    current_state: ParserState,
    mode: ParserMode,
    input: String,
    timeout_ms: u64,
    backtrack_stack: Vec<ParserState>,
    max_backtrack_depth: usize,
}

impl ParserStateMachine {
    /// The current state.
    pub closed spec fn state(&self) -> ParserState {
        self.current_state
    }

    /// The mode.
    pub closed spec fn mode_of(&self) -> ParserMode {
        self.mode
    }

    /// The input text.
    pub closed spec fn input_of(&self) -> Seq<char> {
        self.input@
    }

    /// The time budget in milliseconds.
    pub closed spec fn timeout_of(&self) -> u64 {
        self.timeout_ms
    }

    /// The states saved for recovery, oldest first.
    pub closed spec fn backtrack(&self) -> Seq<ParserState> {
        self.backtrack_stack@
    }

    /// The source states of the transitions, in table order.
    pub closed spec fn sources(&self) -> Seq<ParserState> {
        Seq::new(self.transitions@.len(), |i: int| self.transitions@[i].from)
    }

    /// The transitions are the pipeline's table and the stack holds at
    /// most five states.
    pub closed spec fn wf(&self) -> bool {
        &&& self.sources() == pipeline_table()
        &&& forall|i: int| 0 <= i < self.transitions@.len() ==> is_step(#[trigger] self.transitions@[i])
        &&& self.max_backtrack_depth == 5
        &&& self.backtrack_stack@.len() <= 5
    }

    /// A machine in `Init` holding the pipeline's transitions.
    pub fn new(mode: ParserMode, input: String, timeout_ms: u64) -> (m: Self)
        ensures
            m.wf(),
            m.state() == ParserState::Init,
            m.mode_of() == mode,
            m.input_of() == input@,
            m.timeout_of() == timeout_ms,
            m.backtrack() == Seq::<ParserState>::empty(),
    {
        let mut transitions: Vec<Transition> = Vec::new();
        transitions.push(Transition::new(ParserState::Init, ParserState::Lexing, ParserAction::Lex));
        transitions.push(
            Transition::new(ParserState::Lexing, ParserState::Parsing, ParserAction::Parse),
        );
        transitions.push(
            Transition::new(ParserState::Parsing, ParserState::Resolving, ParserAction::Resolve),
        );
        transitions.push(
            Transition::new(ParserState::Resolving, ParserState::Deduplicating, ParserAction::Dedup),
        );
        transitions.push(
            Transition::new(
                ParserState::Deduplicating,
                ParserState::Validating,
                ParserAction::Validate,
            ),
        );
        transitions.push(
            Transition::new(ParserState::Validating, ParserState::Validated, ParserAction::Nop),
        );
        transitions.push(
            Transition::new(ParserState::Validated, ParserState::Exported, ParserAction::Flush),
        );
        transitions.push(
            Transition::new(ParserState::Error, ParserState::Lexing, ParserAction::Rec).on_fail(
                ParserAction::Flush,
            ),
        );
        let m = ParserStateMachine {
            transitions,
            current_state: ParserState::Init,
            mode,
            input,
            timeout_ms,
            backtrack_stack: Vec::new(),
            max_backtrack_depth: 5,
        };
        proof {
            assert(m.sources() =~= pipeline_table());
        }
        m
    }

    /// The transition the table gives from `from`.
    pub fn find_transition(&self, from: ParserState) -> (r: Option<&Transition>)
        requires
            self.wf(),
        ensures
            r matches Some(t) ==> t.from == from && is_step(*t),
            r is None ==> pipeline_step(from) is None,
    {
        let mut i: usize = 0;
        while i < self.transitions.len()
            invariant
                self.wf(),
                i <= self.transitions@.len(),
                forall|j: int| 0 <= j < i ==> self.transitions@[j].from != from,
            decreases self.transitions@.len() - i,
        {
            if self.transitions[i].from == from {
                proof {
                    assert(is_step(self.transitions@[i as int]));
                }
                return Some(&self.transitions[i]);
            }
            i += 1;
        }
        proof {
            assert(pipeline_table().len() == 8);
            assert(self.sources().len() == self.transitions@.len());
            assert forall|j: int| 0 <= j < 8 implies pipeline_table()[j] != from by {
                assert(self.sources()[j] == self.transitions@[j].from);
            }
            assert(pipeline_table()[0] == ParserState::Init);
            assert(pipeline_table()[7] == ParserState::Error);
        }
        None
    }

    /// Moves from `from` to `to` when the table's step from `from` leads
    /// to `to`; refuses otherwise, without moving.
    pub fn transition(&mut self, from: ParserState, to: ParserState) -> (r: Result<
        bool,
        TransitionError,
    >)
        requires
            old(self).wf(),
        ensures
            final(self).wf(),
            final(self).mode_of() == old(self).mode_of(),
            final(self).backtrack() == old(self).backtrack(),
            pipeline_step(from) matches Some(s) && s.0 == to ==> r == Ok::<bool, TransitionError>(
                true,
            ) && final(self).state() == to,
            pipeline_step(from) matches Some(s) && s.0 != to ==> r == Err::<bool, TransitionError>(
                TransitionError::Invalid { from, to },
            ) && final(self).state() == old(self).state(),
            pipeline_step(from) is None ==> r == Err::<bool, TransitionError>(
                TransitionError::NoTransition { from },
            ) && final(self).state() == old(self).state(),
    {
        match self.find_transition(from) {
            Some(t) => {
                if t.to == to {
                    self.current_state = to;
                    Ok(true)
                } else {
                    Err(TransitionError::Invalid { from, to })
                }
            },
            None => Err(TransitionError::NoTransition { from }),
        }
    }

    /// The current state.
    pub fn current_state(&self) -> (s: ParserState)
        ensures
            s == self.state(),
    {
        self.current_state
    }

    /// Whether the table has a transition `from → to`.
    pub fn is_valid_transition(&self, from: ParserState, to: ParserState) -> (r: bool)
        requires
            self.wf(),
        ensures
            r == (pipeline_step(from) matches Some(s) && s.0 == to),
    {
        match self.find_transition(from) {
            Some(t) => t.to == to,
            None => false,
        }
    }

    /// Saves the current state for recovery, unless five are saved already.
    pub fn push_backtrack(&mut self)
        requires
            old(self).wf(),
        ensures
            final(self).input_of() == old(self).input_of(),
            final(self).timeout_of() == old(self).timeout_of(),
            final(self).wf(),
            final(self).state() == old(self).state(),
            final(self).mode_of() == old(self).mode_of(),
            old(self).backtrack().len() < 5 ==> final(self).backtrack() == old(
                self,
            ).backtrack().push(old(self).state()),
            old(self).backtrack().len() >= 5 ==> final(self).backtrack() == old(self).backtrack(),
    {
        if self.backtrack_stack.len() < self.max_backtrack_depth {
            self.backtrack_stack.push(self.current_state);
        }
    }

    /// Recovery: returns to the most recently saved state (`Ok`), or, with
    /// none saved, goes to `Error` and fails.
    pub fn recover(&mut self) -> (r: Result<ParserState, ()>)
        requires
            old(self).wf(),
        ensures
            final(self).input_of() == old(self).input_of(),
            final(self).timeout_of() == old(self).timeout_of(),
            final(self).wf(),
            final(self).mode_of() == old(self).mode_of(),
            old(self).backtrack().len() > 0 ==> r == Ok::<ParserState, ()>(
                old(self).backtrack().last(),
            ) && final(self).state() == old(self).backtrack().last() && final(self).backtrack()
                == old(self).backtrack().drop_last(),
            old(self).backtrack().len() == 0 ==> r == Err::<ParserState, ()>(())
                && final(self).state() == ParserState::Error && final(self).backtrack() == old(
                self,
            ).backtrack(),
    {
        match self.backtrack_stack.pop() {
            Some(prev) => {
                self.current_state = prev;
                Ok(prev)
            },
            None => {
                self.current_state = ParserState::Error;
                Err(())
            },
        }
    }

    /// The error-collecting action: in strict mode it stops the machine in
    /// `Error` and raises; in generative mode it fails quietly.
    pub fn action_err(&mut self) -> (r: ActionOutcome)
        requires
            old(self).wf(),
        ensures
            final(self).input_of() == old(self).input_of(),
            final(self).timeout_of() == old(self).timeout_of(),
            final(self).wf(),
            final(self).mode_of() == old(self).mode_of(),
            final(self).backtrack() == old(self).backtrack(),
            old(self).mode_of() == ParserMode::Strict ==> r == ActionOutcome::Raised
                && final(self).state() == ParserState::Error,
            old(self).mode_of() == ParserMode::Generative ==> r == ActionOutcome::Failed
                && final(self).state() == old(self).state(),
    {
        match self.mode {
            ParserMode::Strict => {
                self.current_state = ParserState::Error;
                ActionOutcome::Raised
            },
            ParserMode::Generative => ActionOutcome::Failed,
        }
    }

    /// Whether the pipeline has stopped (in `Exported` or `Error`).
    pub fn is_finished(&self) -> (r: bool)
        ensures
            r == (self.state() == ParserState::Exported || self.state() == ParserState::Error),
    {
        self.current_state == ParserState::Exported || self.current_state == ParserState::Error
    }

    /// Takes the state the pipeline reaches after the action of a step
    /// towards `to` ended with `outcome`; answers whether the step's
    /// fallback action must run (after a raised error).
    pub fn after_action(&mut self, to: ParserState, outcome: ActionOutcome) -> (run_fallback: bool)
        requires
            old(self).wf(),
        ensures
            final(self).input_of() == old(self).input_of(),
            final(self).timeout_of() == old(self).timeout_of(),
            final(self).wf(),
            final(self).mode_of() == old(self).mode_of(),
            final(self).backtrack() == old(self).backtrack(),
            final(self).state() == state_after(old(self).mode_of(), to, outcome),
            run_fallback == (outcome == ActionOutcome::Raised),
    {
        match outcome {
            ActionOutcome::Done => {
                self.current_state = to;
                false
            },
            ActionOutcome::Failed => {
                self.current_state = if self.mode == ParserMode::Generative {
                    to
                } else {
                    ParserState::Error
                };
                false
            },
            ActionOutcome::Raised => {
                self.current_state = if self.mode == ParserMode::Strict {
                    ParserState::Error
                } else {
                    to
                };
                true
            },
        }
    }

    /// Sets the input and the mode for a run, with the mode's time budget
    /// (5 s strict, 30 s generative).
    pub fn configure(&mut self, input: &str, mode: ParserMode)
        requires
            old(self).wf(),
        ensures
            final(self).wf(),
            final(self).state() == old(self).state(),
            final(self).backtrack() == old(self).backtrack(),
            final(self).input_of() == input@,
            final(self).mode_of() == mode,
            final(self).timeout_of() == timeout_for(mode),
    {
        self.input = String::from_str(input);
        self.mode = mode;
        self.timeout_ms = match mode {
            ParserMode::Strict => 5000,
            ParserMode::Generative => 30000,
        };
    }
}

/// Following the table from `Init` passes through every pipeline stage and
/// ends in `Exported`, which has no way out; `Error` leads back to
/// `Lexing`.
pub proof fn lemma_pipeline_path()
    ensures
        pipeline_step(ParserState::Init).unwrap().0 == ParserState::Lexing,
        pipeline_step(ParserState::Lexing).unwrap().0 == ParserState::Parsing,
        pipeline_step(ParserState::Parsing).unwrap().0 == ParserState::Resolving,
        pipeline_step(ParserState::Resolving).unwrap().0 == ParserState::Deduplicating,
        pipeline_step(ParserState::Deduplicating).unwrap().0 == ParserState::Validating,
        pipeline_step(ParserState::Validating).unwrap().0 == ParserState::Validated,
        pipeline_step(ParserState::Validated).unwrap().0 == ParserState::Exported,
        pipeline_step(ParserState::Exported) is None,
        pipeline_step(ParserState::Error).unwrap().0 == ParserState::Lexing,
        forall|s: ParserState| #[trigger] pipeline_step(s) matches Some(st) ==> st.0 != ParserState::Init,
{
}

/// In generative mode no action outcome leads to `Error`; in strict mode
/// every failure does.
pub proof fn lemma_mode_outcomes(to: ParserState, outcome: ActionOutcome)
    ensures
        state_after(ParserMode::Generative, to, outcome) == to,
        outcome != ActionOutcome::Done ==> state_after(ParserMode::Strict, to, outcome)
            == ParserState::Error,
        state_after(ParserMode::Strict, to, ActionOutcome::Done) == to,
{
}


/// `std::time::Instant`, held opaquely.
#[verifier::external_type_specification]
#[verifier::external_body]
pub struct ExInstant(std::time::Instant);

/// `std::time::Instant::now`: the clock, of which nothing is claimed.
#[verifier::external_body]
fn clock_now() -> std::time::Instant {
    std::time::Instant::now()
}

/// `std::time::Instant::elapsed`: the time since `start`, of which
/// nothing is claimed.
#[verifier::external_body]
fn elapsed_since(start: &std::time::Instant) -> std::time::Duration {
    start.elapsed()
}

/// `std::time::Duration::as_nanos`: nothing is claimed of the count.
#[verifier::external_body]
fn duration_nanos(d: &std::time::Duration) -> u128 {
    d.as_nanos()
}

/// Whether more than `timeout_ms` milliseconds have passed since `start`.
fn timed_out_since(start: &std::time::Instant, timeout_ms: u64) -> bool {
    let d = elapsed_since(start);
    let n = duration_nanos(&d);
    let limit: u128 = (timeout_ms as u128) * 1_000_000;
    n > limit
}

/// How many words (maximal runs of non-whitespace) `s` holds.
pub open spec fn word_count(s: Seq<char>) -> nat
    decreases s.len(),
{
    if s.len() == 0 {
        0
    } else if is_white(s.last()) {
        word_count(s.drop_last())
    } else if s.len() == 1 || is_white(s[s.len() - 2]) {
        word_count(s.drop_last()) + 1
    } else {
        word_count(s.drop_last())
    }
}

proof fn lemma_word_count_bound(s: Seq<char>)
    ensures
        word_count(s) <= s.len(),
    decreases s.len(),
{
    if s.len() > 0 {
        lemma_word_count_bound(s.drop_last());
    }
}

/// Counts the words of `s`.
pub fn count_words(s: &str) -> (r: usize)
    ensures
        r == word_count(s@),
{
    let cs = chars_of(s);
    let mut n: usize = 0;
    let mut i: usize = 0;
    while i < cs.len()
        invariant
            i <= cs@.len(),
            cs@ == s@,
            n == word_count(cs@.take(i as int)),
        decreases cs@.len() - i,
    {
        proof {
            assert(cs@.take(i + 1).drop_last() =~= cs@.take(i as int));
            lemma_word_count_bound(cs@.take(i as int));
        }
        let white = char_in_class(cs[i], TrimClass::White);
        if !white && (i == 0 || char_in_class(cs[i - 1], TrimClass::White)) {
            n += 1;
        }
        i += 1;
    }
    proof {
        assert(cs@.take(cs@.len() as int) =~= cs@);
    }
    n
}

/// The counters of a pipeline run.
#[derive(Debug, Clone, Copy, PartialEq, Eq, Default, Structural)]
pub struct PipelineStats {
    pub total_tokens: usize,
    pub resolved_refs: usize,
    pub total_fields: usize,
    pub total_errors: usize,
    pub total_warnings: usize,
    pub recovery_count: usize,
}

/// An error or a warning of a run: its code and its message.
#[derive(Debug, Clone)]
pub struct PipelineIssue {
    pub code: String,
    pub message: String,
}

/// What a run of the pipeline ends with. No field is ever counted valid,
/// so the score is 1 until a validation has seen fields, and 0 after.
#[derive(Debug, Clone)]
pub struct PipelineReport {
    pub state: ParserState,
    pub parsed: bool,
    pub errors: Vec<PipelineIssue>,
    pub warnings: Vec<PipelineIssue>,
    pub stats: PipelineStats,
    pub score_is_one: bool,
    pub exportable: bool,
    pub timed_out: bool,
}

/// The state a run is in while it goes: what the actions have set.
struct RunContext {
    parsed: bool,
    errors: Vec<PipelineIssue>,
    warnings: Vec<PipelineIssue>,
    stats: PipelineStats,
    score_is_one: bool,
}

/// The codes of a list of issues.
pub open spec fn issue_codes(v: Seq<PipelineIssue>) -> Seq<Seq<char>> {
    v.map_values(|i: PipelineIssue| i.code@)
}

/// The name of an action as its variant is spelled.
pub open spec fn action_label(a: ParserAction) -> Seq<char> {
    match a {
        ParserAction::Lex => "Lex"@,
        ParserAction::Parse => "Parse"@,
        ParserAction::Resolve => "Resolve"@,
        ParserAction::Dedup => "Dedup"@,
        ParserAction::Validate => "Validate"@,
        ParserAction::Error => "Err"@,
        ParserAction::Rec => "Rec"@,
        ParserAction::Flush => "Flush"@,
        ParserAction::Nop => "Nop"@,
    }
}

fn action_label_str(a: ParserAction) -> (r: &'static str)
    ensures
        r@ == action_label(a),
{
    proof {
        reveal_strlit("Lex");
        reveal_strlit("Parse");
        reveal_strlit("Resolve");
        reveal_strlit("Dedup");
        reveal_strlit("Validate");
        reveal_strlit("Err");
        reveal_strlit("Rec");
        reveal_strlit("Flush");
        reveal_strlit("Nop");
    }
    match a {
        ParserAction::Lex => "Lex",
        ParserAction::Parse => "Parse",
        ParserAction::Resolve => "Resolve",
        ParserAction::Dedup => "Dedup",
        ParserAction::Validate => "Validate",
        ParserAction::Error => "Err",
        ParserAction::Rec => "Rec",
        ParserAction::Flush => "Flush",
        ParserAction::Nop => "Nop",
    }
}

/// Rank of a state on the way to `Exported`; the run stops at rank 0.
pub open spec fn stage_rank(s: ParserState) -> nat {
    match s {
        ParserState::Init => 7,
        ParserState::Lexing => 6,
        ParserState::Parsing => 5,
        ParserState::Resolving => 4,
        ParserState::Deduplicating => 3,
        ParserState::Validating => 2,
        ParserState::Validated => 1,
        ParserState::Exported => 0,
        ParserState::Error => 0,
    }
}

/// The counters after lexing `input`.
pub open spec fn lexed_stats(input: Seq<char>) -> PipelineStats {
    PipelineStats {
        total_tokens: word_count(input) as usize,
        resolved_refs: 0,
        total_fields: 0,
        total_errors: 0,
        total_warnings: 0,
        recovery_count: 0,
    }
}

/// The counters after deduplication.
pub open spec fn dedup_stats(input: Seq<char>) -> PipelineStats {
    PipelineStats { total_fields: 10, ..lexed_stats(input) }
}

/// The issue codes of a strict run that reaches validation.
pub open spec fn strict_failure_codes() -> Seq<Seq<char>> {
    seq!["ERR_VALIDATE"@, "ERR_Validate"@]
}

/// What a run's context holds on reaching state `s` (without a timeout).
/// What a run holds on reaching stage `s` in `mode` on `input`, given
/// what it has parsed, the issues and warnings it has raised, its counters
/// and whether its score is still 1.
pub open spec fn stage_holds(
    s: ParserState,
    mode: ParserMode,
    input: Seq<char>,
    parsed: bool,
    errors: Seq<PipelineIssue>,
    warnings: Seq<PipelineIssue>,
    stats: PipelineStats,
    score_is_one: bool,
) -> bool {
    &&& warnings.len() == 0
    &&& s == ParserState::Init ==> !parsed && errors.len() == 0 && score_is_one
        && stats == PipelineStats::default_spec()
    &&& s == ParserState::Lexing ==> !parsed && errors.len() == 0 && score_is_one && stats
        == lexed_stats(input)
    &&& (s == ParserState::Parsing || s == ParserState::Resolving) ==> parsed && errors.len() == 0
        && score_is_one && stats == lexed_stats(input)
    &&& s == ParserState::Deduplicating ==> parsed && errors.len() == 0 && score_is_one && stats
        == dedup_stats(input)
    &&& (s == ParserState::Validating || s == ParserState::Validated || s
        == ParserState::Exported) ==> mode == ParserMode::Generative && parsed && errors.len()
        == 0 && !score_is_one && stats == dedup_stats(input)
    &&& s == ParserState::Error ==> mode == ParserMode::Strict && parsed && issue_codes(errors)
        == strict_failure_codes() && !score_is_one && stats == PipelineStats {
        total_errors: 2,
        ..dedup_stats(input)
    }
}

spec fn run_at(s: ParserState, mode: ParserMode, input: Seq<char>, c: RunContext) -> bool {
    stage_holds(s, mode, input, c.parsed, c.errors@, c.warnings@, c.stats, c.score_is_one)
}

impl PipelineStats {
    /// All counters at zero.
    pub open spec fn default_spec() -> PipelineStats {
        PipelineStats {
            total_tokens: 0,
            resolved_refs: 0,
            total_fields: 0,
            total_errors: 0,
            total_warnings: 0,
            recovery_count: 0,
        }
    }

    fn zero() -> (r: PipelineStats)
        ensures
            r == PipelineStats::default_spec(),
    {
        PipelineStats {
            total_tokens: 0,
            resolved_refs: 0,
            total_fields: 0,
            total_errors: 0,
            total_warnings: 0,
            recovery_count: 0,
        }
    }
}

fn issue(code: &str, message: String) -> (r: PipelineIssue)
    ensures
        r.code@ == code@,
        r.message@ == message@,
{
    PipelineIssue { code: String::from_str(code), message }
}

impl ParserStateMachine {
    /// Runs one action on the run's context. Returns how it ended and,
    /// when it raised, the error's message.
    fn execute_action(&mut self, action: ParserAction, ctx: &mut RunContext) -> (r: (
        ActionOutcome,
        String,
    ))
        requires
            old(self).wf(),
            old(ctx).stats.total_errors < usize::MAX,
        ensures
            final(self).wf(),
            final(self).mode_of() == old(self).mode_of(),
            final(self).input_of() == old(self).input_of(),
            final(self).timeout_of() == old(self).timeout_of(),
            final(ctx).warnings@.len() <= old(ctx).warnings@.len() + 1,
            action != ParserAction::Rec ==> final(ctx).warnings@ == old(ctx).warnings@,
            action == ParserAction::Lex ==> r.0 == ActionOutcome::Done && final(ctx).stats
                == (PipelineStats { total_tokens: word_count(old(self).input_of()) as usize, ..old(ctx).stats })
                && final(ctx).parsed == old(ctx).parsed && final(ctx).errors@ == old(ctx).errors@
                && final(ctx).score_is_one == old(ctx).score_is_one,
            action == ParserAction::Parse ==> r.0 == ActionOutcome::Done && final(ctx).parsed
                && final(ctx).stats == old(ctx).stats && final(ctx).errors@ == old(ctx).errors@
                && final(ctx).score_is_one == old(ctx).score_is_one,
            action == ParserAction::Resolve ==> r.0 == ActionOutcome::Done && final(ctx).parsed
                == old(ctx).parsed && final(ctx).stats == (if old(ctx).parsed {
                PipelineStats { resolved_refs: 0, ..old(ctx).stats }
            } else {
                old(ctx).stats
            }) && final(ctx).errors@ == old(ctx).errors@ && final(ctx).score_is_one
                == old(ctx).score_is_one,
            action == ParserAction::Dedup ==> r.0 == ActionOutcome::Done && final(ctx).parsed
                == old(ctx).parsed && final(ctx).stats == (PipelineStats {
                total_fields: 10,
                ..old(ctx).stats
            }) && final(ctx).errors@ == old(ctx).errors@ && final(ctx).score_is_one
                == old(ctx).score_is_one,
            action == ParserAction::Validate ==> final(ctx).parsed == old(ctx).parsed
                && final(ctx).score_is_one == (old(ctx).stats.total_fields == 0) && if old(
                ctx,
            ).stats.total_fields != 0 && old(self).mode_of() == ParserMode::Strict {
                r.0 == ActionOutcome::Raised && r.1@ == "Validation failed"@ && issue_codes(
                    final(ctx).errors@,
                ) == issue_codes(old(ctx).errors@).push("ERR_VALIDATE"@) && final(ctx).stats
                    == (PipelineStats { total_errors: (old(ctx).stats.total_errors + 1) as usize, ..old(ctx).stats })
            } else {
                r.0 == ActionOutcome::Done && final(ctx).errors@ == old(ctx).errors@
                    && final(ctx).stats == old(ctx).stats
            },
            action == ParserAction::Error ==> final(ctx).parsed == old(ctx).parsed
                && final(ctx).stats == old(ctx).stats && final(ctx).errors@ == old(ctx).errors@
                && final(ctx).score_is_one == old(ctx).score_is_one && (old(self).mode_of()
                == ParserMode::Strict ==> r.0 == ActionOutcome::Raised) && (old(self).mode_of()
                == ParserMode::Generative ==> r.0 == ActionOutcome::Failed),
            (action == ParserAction::Flush || action == ParserAction::Nop) ==> r.0
                == ActionOutcome::Done && final(ctx).parsed == old(ctx).parsed && final(ctx).stats
                == old(ctx).stats && final(ctx).errors@ == old(ctx).errors@
                && final(ctx).score_is_one == old(ctx).score_is_one,
            action == ParserAction::Rec ==> final(ctx).parsed == old(ctx).parsed
                && final(ctx).errors@ == old(ctx).errors@ && final(ctx).score_is_one
                == old(ctx).score_is_one,
    {
        proof {
            reveal_strlit("Validation failed");
            reveal_strlit("ERR_VALIDATE");
        }
        match action {
            ParserAction::Lex => {
                ctx.stats.total_tokens = count_words(self.input.as_str());
                (ActionOutcome::Done, String::new())
            },
            ParserAction::Parse => {
                ctx.parsed = true;
                (ActionOutcome::Done, String::new())
            },
            ParserAction::Resolve => {
                if ctx.parsed {
                    ctx.stats.resolved_refs = 0;
                }
                (ActionOutcome::Done, String::new())
            },
            ParserAction::Dedup => {
                ctx.stats.total_fields = 10;
                (ActionOutcome::Done, String::new())
            },
            ParserAction::Validate => {
                ctx.score_is_one = ctx.stats.total_fields == 0;
                if !ctx.score_is_one && self.mode == ParserMode::Strict {
                    let ghost before = ctx.errors@;
                    ctx.errors.push(
                        issue("ERR_VALIDATE", String::from_str("Validation failed: S=0.000")),
                    );
                    ctx.stats.total_errors = ctx.stats.total_errors + 1;
                    proof {
                        assert(issue_codes(ctx.errors@) =~= issue_codes(before).push(
                            "ERR_VALIDATE"@,
                        ));
                    }
                    (ActionOutcome::Raised, String::from_str("Validation failed"))
                } else {
                    (ActionOutcome::Done, String::new())
                }
            },
            ParserAction::Error => {
                let o = self.action_err();
                (o, String::from_str("Strict mode: stopping on error"))
            },
            ParserAction::Rec => {
                match self.recover() {
                    Ok(prev) => {
                        if ctx.stats.recovery_count < usize::MAX {
                            ctx.stats.recovery_count = ctx.stats.recovery_count + 1;
                        }
                        if self.mode == ParserMode::Generative && ctx.stats.total_warnings
                            < usize::MAX {
                            let mut m = String::from_str("Recovered from error, returning to ");
                            let name = prev.to_string();
                            m.append(name.as_str());
                            ctx.warnings.push(issue("WRN_RECOVERY", m));
                            ctx.stats.total_warnings = ctx.stats.total_warnings + 1;
                        }
                        (ActionOutcome::Done, String::new())
                    },
                    Err(()) => (
                        ActionOutcome::Raised,
                        String::from_str("Recovery failed: no backtrack state"),
                    ),
                }
            },
            ParserAction::Flush => (ActionOutcome::Done, String::new()),
            ParserAction::Nop => (ActionOutcome::Done, String::new()),
        }
    }

    /// Runs the pipeline from `Init` until it is exported, fails, or runs
    /// out of its time budget. Without a timeout a generative run is
    /// exported and a strict one stops in `Error` at validation; no run is
    /// exportable, since its score falls to 0 once fields are validated.
    pub fn run_pipeline_internal(&mut self) -> (r: PipelineReport)
        requires
            old(self).wf(),
        ensures
            final(self).wf(),
            final(self).mode_of() == old(self).mode_of(),
            final(self).input_of() == old(self).input_of(),
            final(self).timeout_of() == old(self).timeout_of(),
            final(self).state() == r.state,
            r.exportable == (r.state == ParserState::Exported && r.score_is_one),
            !r.exportable,
            r.warnings@.len() == 0,
            !r.timed_out ==> (old(self).mode_of() == ParserMode::Generative ==> r.state
                == ParserState::Exported && r.parsed && r.errors@.len() == 0 && r.stats
                == dedup_stats(old(self).input_of())),
            !r.timed_out ==> (old(self).mode_of() == ParserMode::Strict ==> r.state
                == ParserState::Error && r.parsed && issue_codes(r.errors@)
                == strict_failure_codes() && r.stats == (PipelineStats {
                total_errors: 2,
                ..dedup_stats(old(self).input_of())
            })),
            r.timed_out ==> r.state != ParserState::Exported && r.state != ParserState::Error
                && r.errors@.len() >= 1 && r.errors@.last().code@ == "ERR_TIMEOUT"@
                && r.errors@.last().message@ == "Timeout after "@ + decimal(
                old(self).timeout_of() as nat,
            ) + " ms"@,
            r.timed_out ==> stage_holds(
                r.state,
                old(self).mode_of(),
                old(self).input_of(),
                r.parsed,
                r.errors@.drop_last(),
                r.warnings@,
                PipelineStats { total_errors: (r.stats.total_errors - 1) as usize, ..r.stats },
                r.score_is_one,
            ),
    {
        proof {
            reveal_strlit("ERR_TIMEOUT");
            reveal_strlit("Timeout after ");
            reveal_strlit(" ms");
            reveal_strlit("ERR_");
            reveal_strlit("ERR_VALIDATE");
            reveal_strlit("ERR_Validate");
            reveal_strlit("Validate");
        }
        let start = clock_now();
        self.current_state = ParserState::Init;
        let mut ctx = RunContext {
            parsed: false,
            errors: Vec::new(),
            warnings: Vec::new(),
            stats: PipelineStats::zero(),
            score_is_one: true,
        };
        let ghost mode = self.mode;
        let ghost input = self.input@;
        let ghost timeout = self.timeout_ms;
        let mut timed_out = false;
        while !timed_out && self.current_state != ParserState::Exported && self.current_state
            != ParserState::Error
            invariant
                self.wf(),
                self.mode == mode,
                self.input@ == input,
                self.timeout_ms == timeout,
                run_at(self.current_state, mode, input, ctx),
                timed_out ==> self.current_state != ParserState::Exported && self.current_state
                    != ParserState::Error,
            decreases 2 * stage_rank(self.current_state) + (if timed_out {
                0int
            } else {
                1int
            }),
        {
            if timed_out_since(&start, self.timeout_ms) {
                timed_out = true;
            } else {
                let from = self.current_state;
                let ghost errors_start = ctx.errors@;
                let step = match self.find_transition(from) {
                    Some(t) => Some((t.to, t.action, t.on_fail)),
                    None => None,
                };
                match step {
                    Some((to, action, on_fail)) => {
                        assert(pipeline_step(from) == Some((to, action, on_fail)));
                        self.push_backtrack();
                        let (outcome, message) = self.execute_action(action, &mut ctx);
                        let run_fallback = self.after_action(to, outcome);
                        if run_fallback {
                            let mut code = String::from_str("ERR_");
                            code.append(action_label_str(action));
                            let ghost before = ctx.errors@;
                            let ghost pushed = PipelineIssue { code, message };
                            ctx.errors.push(PipelineIssue { code, message });
                            ctx.stats.total_errors = ctx.stats.total_errors + 1;
                            let state_now = self.current_state;
                            let _ = self.execute_action(on_fail, &mut ctx);
                            self.current_state = state_now;
                            proof {
                                reveal_strlit("ERR_");
                                reveal_strlit("Validate");
                                reveal_strlit("ERR_Validate");
                                assert(issue_codes(before.push(pushed)) =~= issue_codes(
                                    before,
                                ).push("ERR_"@ + action_label(action)));
                                assert(("ERR_"@ + action_label(ParserAction::Validate))
                                    =~= "ERR_Validate"@);
                            }
                        }
                    },
                    None => {
                        self.current_state = ParserState::Error;
                    },
                }
                proof {
                    reveal_strlit("ERR_VALIDATE");
                    reveal_strlit("ERR_Validate");
                    if from == ParserState::Deduplicating {
                        assert(issue_codes(errors_start) =~= Seq::<Seq<char>>::empty());
                        assert(strict_failure_codes() =~= Seq::<Seq<char>>::empty().push(
                            "ERR_VALIDATE"@,
                        ).push("ERR_Validate"@));
                    }
                }
            }
        }
        let mut errors = ctx.errors;
        let mut stats = ctx.stats;
        if timed_out {
            let mut m = String::from_str("Timeout after ");
            push_decimal_u64(&mut m, self.timeout_ms);
            m.append(" ms");
            let ghost before = errors@;
            errors.push(issue("ERR_TIMEOUT", m));
            proof {
                assert(errors@.drop_last() =~= before);
            }
            stats.total_errors = stats.total_errors + 1;
        }
        let state = self.current_state;
        PipelineReport {
            state,
            parsed: ctx.parsed,
            errors,
            warnings: ctx.warnings,
            stats,
            score_is_one: ctx.score_is_one,
            exportable: state == ParserState::Exported && ctx.score_is_one,
            timed_out,
        }
    }

    /// Runs the pipeline on `input` in the mode of `config`, with that
    /// mode's time budget (see `run_pipeline_internal`).
    pub fn run_pipeline(&mut self, input: &str, config: &ParserConfig) -> (r: PipelineReport)
        requires
            old(self).wf(),
        ensures
            final(self).wf(),
            final(self).mode_of() == config.mode,
            final(self).input_of() == input@,
            final(self).state() == r.state,
            !r.exportable,
            !r.timed_out ==> (config.mode == ParserMode::Generative ==> r.state
                == ParserState::Exported && r.errors@.len() == 0 && r.stats == dedup_stats(
                input@,
            )),
            !r.timed_out ==> (config.mode == ParserMode::Strict ==> r.state == ParserState::Error
                && issue_codes(r.errors@) == strict_failure_codes() && r.stats == (PipelineStats {
                total_errors: 2,
                ..dedup_stats(input@)
            })),
            r.timed_out ==> r.errors@.len() >= 1 && r.errors@.last().code@ == "ERR_TIMEOUT"@
                && r.errors@.last().message@ == "Timeout after "@ + decimal(
                timeout_for(config.mode) as nat,
            ) + " ms"@,
            r.timed_out ==> stage_holds(
                r.state,
                config.mode,
                input@,
                r.parsed,
                r.errors@.drop_last(),
                r.warnings@,
                PipelineStats { total_errors: (r.stats.total_errors - 1) as usize, ..r.stats },
                r.score_is_one,
            ),
    {
        self.configure(input, config.mode);
        self.run_pipeline_internal()
    }
}

} // verus!
