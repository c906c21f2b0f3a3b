//! Validation of the flat dictionary: which fields pass their `enum=[...]`
//! constraints, and the tally of passes, violations and warnings (with the
//! weights the equilibrium score is computed from).

use vstd::prelude::*;
use crate::sson_ast::SsonMode;
use crate::text::{
    has_prefix, same_text, slice_string, split_char, split_on, starts_with, trim, trim_end_of,
    trim_of, views, TrimClass, lemma_trail_count_exact, in_class,
};

verus! {

/// A cell value as validation sees it: only text values are compared
/// against enumerations.
#[derive(Debug, Clone, PartialEq)]
pub enum CellValue {
    Null,
    Number,
    Bool(bool),
    Text(String),
}

/// The allowed values of an `enum=[a, b, c]` constraint: the text after
/// `enum=[` without its trailing `]`s, split at commas, each piece trimmed.
pub open spec fn enum_values(c: Seq<char>) -> Seq<Seq<char>> {
    let inner = trim_end_of(c.skip(6), TrimClass::Only(']'));
    split_on(inner, ',').map_values(|p: Seq<char>| trim_of(p, TrimClass::White))
}

/// Whether the text values all belong to the enumeration of constraint `c`.
pub open spec fn texts_allowed(values: Seq<CellValue>, c: Seq<char>) -> bool {
    forall|j: int|
        0 <= j < values.len() ==> (#[trigger] values[j] matches CellValue::Text(s) ==> enum_values(
            c,
        ).contains(s@))
}

/// A field passes when it has values and every text value belongs to each
/// of its enumerations.
pub open spec fn node_passes(values: Seq<CellValue>, constraints: Seq<Seq<char>>) -> bool {
    &&& values.len() > 0
    &&& forall|i: int|
        0 <= i < constraints.len() && has_prefix(#[trigger] constraints[i], "enum=["@)
            ==> texts_allowed(values, constraints[i])
}

/// The allowed values of an enumeration constraint.
fn enum_list(c: &str) -> (r: Vec<String>)
    requires
        c@.len() >= 6,
    ensures
        views(r@) == enum_values(c@),
{
    let n = c.unicode_len();
    let rest = slice_string(c, 6, n);
    let chars = crate::text::chars_of(rest.as_str());
    let mut end: usize = chars.len();
    while end > 0 && chars[end - 1] == ']'
        invariant
            end <= chars@.len(),
            chars@ == rest@,
            forall|i: int| end <= i < chars@.len() ==> in_class(#[trigger] rest@[i], TrimClass::Only(']')),
        decreases end,
    {
        end -= 1;
    }
    proof {
        lemma_trail_count_exact(rest@, TrimClass::Only(']'), (chars@.len() - end) as int);
        assert(rest@ =~= c@.skip(6));
    }
    let inner = slice_string(rest.as_str(), 0, end);
    proof {
        assert(inner@ =~= trim_end_of(rest@, TrimClass::Only(']')));
    }
    let pieces = split_char(inner.as_str(), ',');
    let mut out: Vec<String> = Vec::new();
    let mut i: usize = 0;
    while i < pieces.len()
        invariant
            i <= pieces@.len(),
            views(pieces@) == split_on(inner@, ','),
            views(out@) == split_on(inner@, ',').take(i as int).map_values(
                |p: Seq<char>| trim_of(p, TrimClass::White),
            ),
        decreases pieces@.len() - i,
    {
        let t = trim(pieces[i].as_str());
        let ghost before = out@;
        out.push(t);
        proof {
            assert(views(out@) =~= views(before).push(t@));
            assert(split_on(inner@, ',').take(i + 1).map_values(
                |p: Seq<char>| trim_of(p, TrimClass::White),
            ) =~= split_on(inner@, ',').take(i as int).map_values(
                |p: Seq<char>| trim_of(p, TrimClass::White),
            ).push(t@));
        }
        i += 1;
    }
    proof {
        assert(split_on(inner@, ',').take(pieces@.len() as int) =~= split_on(inner@, ','));
    }
    out
}

/// Whether `s` is one of `list`.
fn listed(list: &Vec<String>, s: &str) -> (r: bool)
    ensures
        r == views(list@).contains(s@),
{
    let mut i: usize = 0;
    while i < list.len()
        invariant
            i <= list@.len(),
            forall|j: int| 0 <= j < i ==> list@[j]@ != s@,
        decreases list@.len() - i,
    {
        if same_text(list[i].as_str(), s) {
            proof {
                assert(views(list@)[i as int] == s@);
            }
            return true;
        }
        i += 1;
    }
    proof {
        if views(list@).contains(s@) {
            let k = choose|k: int| 0 <= k < views(list@).len() && views(list@)[k] == s@;
            assert(list@[k]@ == s@);
        }
    }
    false
}

/// Whether a field with these values passes these constraints.
pub fn evaluate_node(values: &Vec<CellValue>, constraints: &Vec<String>) -> (r: bool)
    ensures
        r == node_passes(values@, views(constraints@)),
{
    if values.len() == 0 {
        return false;
    }
    let mut i: usize = 0;
    while i < constraints.len()
        invariant
            i <= constraints@.len(),
            values@.len() > 0,
            forall|k: int|
                0 <= k < i && has_prefix(#[trigger] views(constraints@)[k], "enum=["@)
                    ==> texts_allowed(values@, views(constraints@)[k]),
        decreases constraints@.len() - i,
    {
        let c = constraints[i].as_str();
        proof {
            assert(views(constraints@)[i as int] == c@);
        }
        if starts_with(c, "enum=[") {
            proof {
                reveal_strlit("enum=[");
            }
            let allowed = enum_list(c);
            let mut j: usize = 0;
            while j < values.len()
                invariant
                    j <= values@.len(),
                    i < constraints@.len(),
                    views(constraints@)[i as int] == c@,
                    has_prefix(c@, "enum=["@),
                    views(allowed@) == enum_values(c@),
                    forall|k: int|
                        0 <= k < i && has_prefix(#[trigger] views(constraints@)[k], "enum=["@)
                            ==> texts_allowed(values@, views(constraints@)[k]),
                    forall|m: int|
                        0 <= m < j ==> (#[trigger] values@[m] matches CellValue::Text(s)
                            ==> enum_values(c@).contains(s@)),
                decreases values@.len() - j,
            {
                match &values[j] {
                    CellValue::Text(s) => {
                        if !listed(&allowed, s.as_str()) {
                            proof {
                                assert(!texts_allowed(values@, c@));
                                assert(has_prefix(views(constraints@)[i as int], "enum=["@));
                            }
                            return false;
                        }
                    },
                    _ => {},
                }
                j += 1;
            }
        }
        i += 1;
    }
    true
}

/// The running tally of a validation pass: violations, warnings, the
/// passed and the total weight (in halves: a required field weighs two,
/// an optional one), whether a strict violation stopped the pass, and the
/// pass/fail score of each field looked at.
pub struct TallyView {
    pub violations: nat,
    pub warnings: nat,
    pub valid_weight: nat,
    pub total_weight: nat,
    pub stopped: bool,
    pub scores: Seq<bool>,
}

/// The tally over fields given as (required, passed), in order: each field
/// adds its weight to the total, and to the passed weight when it passed;
/// a failed field is a violation, which stops the pass in strict mode and
/// is also a warning in generative mode.
pub open spec fn tally_of(checks: Seq<(bool, bool)>, mode: SsonMode) -> TallyView
    decreases checks.len(),
{
    if checks.len() == 0 {
        TallyView {
            violations: 0,
            warnings: 0,
            valid_weight: 0,
            total_weight: 0,
            stopped: false,
            scores: Seq::empty(),
        }
    } else {
        let t = tally_of(checks.drop_last(), mode);
        let (required, passed) = checks.last();
        let w: nat = if required {
            2
        } else {
            1
        };
        if t.stopped {
            t
        } else if passed {
            TallyView {
                valid_weight: t.valid_weight + w,
                total_weight: t.total_weight + w,
                scores: t.scores.push(true),
                ..t
            }
        } else if mode == SsonMode::Strict {
            TallyView {
                violations: t.violations + 1,
                total_weight: t.total_weight + w,
                stopped: true,
                scores: t.scores.push(false),
                ..t
            }
        } else {
            TallyView {
                violations: t.violations + 1,
                warnings: t.warnings + 1,
                total_weight: t.total_weight + w,
                scores: t.scores.push(false),
                ..t
            }
        }
    }
}

/// The result of a validation pass.
#[derive(Debug, Clone)]
pub struct Tally {
    pub violations: u128,
    pub warnings: u128,
    pub valid_weight: u128,
    pub total_weight: u128,
    pub stopped: bool,
    pub scores: Vec<bool>,
}

proof fn lemma_tally_bounds(checks: Seq<(bool, bool)>, mode: SsonMode)
    ensures
        tally_of(checks, mode).total_weight <= 2 * checks.len(),
        tally_of(checks, mode).valid_weight <= tally_of(checks, mode).total_weight,
        tally_of(checks, mode).violations <= checks.len(),
        tally_of(checks, mode).warnings <= tally_of(checks, mode).violations,
    decreases checks.len(),
{
    if checks.len() > 0 {
        lemma_tally_bounds(checks.drop_last(), mode);
    }
}

/// In generative mode every violation is also a warning and the pass never
/// stops; in strict mode there are no warnings and the pass stops at the
/// first violation, so there is at most one.
pub proof fn lemma_tally_modes(checks: Seq<(bool, bool)>)
    ensures
        tally_of(checks, SsonMode::Generative).warnings == tally_of(
            checks,
            SsonMode::Generative,
        ).violations,
        !tally_of(checks, SsonMode::Generative).stopped,
        tally_of(checks, SsonMode::Generative).scores.len() == checks.len(),
        tally_of(checks, SsonMode::Strict).warnings == 0,
        tally_of(checks, SsonMode::Strict).violations <= 1,
        tally_of(checks, SsonMode::Strict).stopped <==> tally_of(
            checks,
            SsonMode::Strict,
        ).violations == 1,
    decreases checks.len(),
{
    if checks.len() > 0 {
        lemma_tally_modes(checks.drop_last());
    }
}

/// Tallies a validation pass over fields given as (required, passed).
pub fn tally_validation(checks: &Vec<(bool, bool)>, mode: SsonMode) -> (t: Tally)
    ensures
        t.violations == tally_of(checks@, mode).violations,
        t.warnings == tally_of(checks@, mode).warnings,
        t.valid_weight == tally_of(checks@, mode).valid_weight,
        t.total_weight == tally_of(checks@, mode).total_weight,
        t.stopped == tally_of(checks@, mode).stopped,
        t.scores@ == tally_of(checks@, mode).scores,
{
    let mut t = Tally {
        violations: 0,
        warnings: 0,
        valid_weight: 0,
        total_weight: 0,
        stopped: false,
        scores: Vec::new(),
    };
    let n = checks.len();
    let mut i: usize = 0;
    while i < n
        invariant
            n == checks@.len(),
            i <= n,
            t.violations == tally_of(checks@.take(i as int), mode).violations,
            t.warnings == tally_of(checks@.take(i as int), mode).warnings,
            t.valid_weight == tally_of(checks@.take(i as int), mode).valid_weight,
            t.total_weight == tally_of(checks@.take(i as int), mode).total_weight,
            t.stopped == tally_of(checks@.take(i as int), mode).stopped,
            t.scores@ == tally_of(checks@.take(i as int), mode).scores,
        decreases checks@.len() - i,
    {
        proof {
            assert(checks@.take(i + 1).drop_last() =~= checks@.take(i as int));
            lemma_tally_bounds(checks@.take(i as int), mode);
        }
        if t.stopped {
            i += 1;
            continue;
        }
        let (required, passed) = checks[i];
        let w: u128 = if required {
            2
        } else {
            1
        };
        t.total_weight = t.total_weight + w;
        if passed {
            t.valid_weight = t.valid_weight + w;
            t.scores.push(true);
        } else {
            t.violations = t.violations + 1;
            t.scores.push(false);
            match mode {
                SsonMode::Strict => {
                    t.stopped = true;
                },
                SsonMode::Generative => {
                    t.warnings = t.warnings + 1;
                },
            }
        }
        i += 1;
    }
    proof {
        assert(checks@.take(checks@.len() as int) =~= checks@);
    }
    t
}

} // verus!
