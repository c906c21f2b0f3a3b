//! Field properties written after `_:` in column headers: `req`, `opt`,
//! `null`, `default=v`, `min=N`, `max=N`, `len=N`, `pattern="re"`,
//! `desc="text"`, `name[]`, `ref=name`, `ref[name]`, `mutex=[a,b]`,
//! `mutex[a,b]`, `enum=[a,b]`, `[a,b]` and type overrides such as `num`.

use vstd::prelude::*;
use crate::numbers::{float_syntax, is_float_literal, parse_usize, usize_of};
use crate::sson_ast::{TypeCode, type_code_named};
use crate::text::{
    chars_of, ends_with, has_prefix, has_suffix, lowercase_of, same_text, slice_string, split_char,
    split_on, starts_with, trim, trim_class, trim_of, views, TrimClass, find_char, first_index_of,
    lemma_first_index_of,
};

verus! {

/// A field property. Range bounds are kept as the text of the number.
#[derive(Debug, Clone, PartialEq)]
pub enum FieldPropertySpec {
    Required,
    Optional,
    Null,
    Default(String),
    Range { min: Option<String>, max: Option<String> },
    Length { min: Option<usize>, max: Option<usize> },
    Pattern(String),
    Description(String),
    RefTarget(String),
    Mutex(Vec<String>),
    Enum(Vec<String>),
    Guard { path: String, expected: String },
    Implies { if_field: String, then_field: String },
    Sum { fields: Vec<String>, target: String },
    SeeAlso(Vec<String>),
    StateTransition { from: String, to: Vec<String> },
    TypeOverride(TypeCode),
}

/// A property with its strings taken as character sequences.
pub enum PropView {
    Required,
    Optional,
    Null,
    Default(Seq<char>),
    Range(Option<Seq<char>>, Option<Seq<char>>),
    Length(Option<usize>, Option<usize>),
    Pattern(Seq<char>),
    Description(Seq<char>),
    RefTarget(Seq<char>),
    Mutex(Seq<Seq<char>>),
    Enum(Seq<Seq<char>>),
    Guard(Seq<char>, Seq<char>),
    Implies(Seq<char>, Seq<char>),
    Sum(Seq<Seq<char>>, Seq<char>),
    SeeAlso(Seq<Seq<char>>),
    StateTransition(Seq<char>, Seq<Seq<char>>),
    TypeOverride(TypeCode),
}

/// The view of an optional string.
pub open spec fn opt_text(o: Option<String>) -> Option<Seq<char>> {
    match o {
        Some(s) => Some(s@),
        None => None,
    }
}

impl View for FieldPropertySpec {
    type V = PropView;

    open spec fn view(&self) -> PropView {
        match self {
            FieldPropertySpec::Required => PropView::Required,
            FieldPropertySpec::Optional => PropView::Optional,
            FieldPropertySpec::Null => PropView::Null,
            FieldPropertySpec::Default(v) => PropView::Default(v@),
            FieldPropertySpec::Range { min, max } => PropView::Range(opt_text(*min), opt_text(*max)),
            FieldPropertySpec::Length { min, max } => PropView::Length(*min, *max),
            FieldPropertySpec::Pattern(p) => PropView::Pattern(p@),
            FieldPropertySpec::Description(d) => PropView::Description(d@),
            FieldPropertySpec::RefTarget(t) => PropView::RefTarget(t@),
            FieldPropertySpec::Mutex(v) => PropView::Mutex(views(v@)),
            FieldPropertySpec::Enum(v) => PropView::Enum(views(v@)),
            FieldPropertySpec::Guard { path, expected } => PropView::Guard(path@, expected@),
            FieldPropertySpec::Implies { if_field, then_field } => PropView::Implies(
                if_field@,
                then_field@,
            ),
            FieldPropertySpec::Sum { fields, target } => PropView::Sum(views(fields@), target@),
            FieldPropertySpec::SeeAlso(v) => PropView::SeeAlso(views(v@)),
            FieldPropertySpec::StateTransition { from, to } => PropView::StateTransition(
                from@,
                views(to@),
            ),
            FieldPropertySpec::TypeOverride(t) => PropView::TypeOverride(*t),
        }
    }
}

/// The comma-separated items of `s`, each trimmed.
pub open spec fn items_of(s: Seq<char>) -> Seq<Seq<char>> {
    split_on(s, ',').map_values(|p: Seq<char>| trim_of(p, TrimClass::White))
}

/// `s` is enclosed by `open` and a final `]`.
pub open spec fn bracketed(s: Seq<char>, open: Seq<char>) -> bool {
    has_prefix(s, open) && has_suffix(s, "]"@)
}

/// `path=value` inside `guard[...]`, each side trimmed.
pub open spec fn guard_of(inner: Seq<char>) -> Option<PropView> {
    match first_index_of(inner, '=') {
        Some(i) => Some(
            PropView::Guard(
                trim_of(inner.take(i), TrimClass::White),
                trim_of(inner.skip(i + 1), TrimClass::White),
            ),
        ),
        None => None,
    }
}

/// `A,B` inside `implies[...]`: exactly two items.
pub open spec fn implies_of(items: Seq<Seq<char>>) -> Option<PropView> {
    if items.len() == 2 {
        Some(PropView::Implies(items[0], items[1]))
    } else {
        None
    }
}

/// `sum[a,b]=c`: the items before the first `]`, and the trimmed target
/// after the `=` that follows it.
pub open spec fn sum_of(r: Seq<char>) -> Option<PropView> {
    match first_index_of(r, ']') {
        Some(j) => if j + 1 < r.len() && r[j + 1] == '=' && j >= 4 {
            Some(PropView::Sum(items_of(r.subrange(4, j)), trim_of(r.skip(j + 2), TrimClass::White)))
        } else {
            None
        },
        None => None,
    }
}

/// `A→B,C` inside `state[...]`: the trimmed state before the first arrow
/// and the items after it.
pub open spec fn state_of(inner: Seq<char>) -> Option<PropView> {
    match first_index_of(inner, '\u{2192}') {
        Some(k) => Some(
            PropView::StateTransition(trim_of(inner.take(k), TrimClass::White), items_of(inner.skip(k + 1))),
        ),
        None => None,
    }
}

/// The property a trimmed property text `r` spells, rules tried in order.
pub open spec fn field_property_of(r: Seq<char>) -> Option<PropView> {
    if r == "req"@ || r == "required"@ {
        Some(PropView::Required)
    } else if r == "opt"@ || r == "optional"@ {
        Some(PropView::Optional)
    } else if r == "null"@ || r == "NULL"@ {
        Some(PropView::Null)
    } else if has_prefix(r, "default="@) {
        Some(PropView::Default(r.skip(8)))
    } else if has_prefix(r, "min="@) && float_syntax(r.skip(4)) {
        Some(PropView::Range(Some(r.skip(4)), None))
    } else if has_prefix(r, "max="@) && float_syntax(r.skip(4)) {
        Some(PropView::Range(None, Some(r.skip(4))))
    } else if has_prefix(r, "len="@) && usize_of(r.skip(4)) is Some {
        Some(PropView::Length(None, usize_of(r.skip(4))))
    } else if has_prefix(r, "pattern="@) {
        Some(PropView::Pattern(trim_of(r.skip(8), TrimClass::Only('"'))))
    } else if has_prefix(r, "desc="@) {
        Some(PropView::Description(trim_of(r.skip(5), TrimClass::Only('"'))))
    } else if has_suffix(r, "[]"@) {
        Some(PropView::RefTarget(r.take(r.len() - 2)))
    } else if has_prefix(r, "ref="@) {
        Some(PropView::RefTarget(r.skip(4)))
    } else if bracketed(r, "ref["@) {
        Some(PropView::RefTarget(r.subrange(4, r.len() - 1)))
    } else if bracketed(r, "mutex=["@) {
        Some(PropView::Mutex(items_of(r.subrange(7, r.len() - 1))))
    } else if bracketed(r, "mutex["@) {
        Some(PropView::Mutex(items_of(r.subrange(6, r.len() - 1))))
    } else if bracketed(r, "enum=["@) {
        Some(PropView::Enum(items_of(r.subrange(6, r.len() - 1))))
    } else if bracketed(r, "guard["@) {
        guard_of(r.subrange(6, r.len() - 1))
    } else if bracketed(r, "implies["@) {
        implies_of(items_of(r.subrange(8, r.len() - 1)))
    } else if has_prefix(r, "sum["@) {
        sum_of(r)
    } else if bracketed(r, "see_also["@) {
        Some(PropView::SeeAlso(items_of(r.subrange(9, r.len() - 1))))
    } else if bracketed(r, "state["@) {
        state_of(r.subrange(6, r.len() - 1))
    } else if bracketed(r, "["@) {
        Some(PropView::Enum(items_of(r.subrange(1, r.len() - 1))))
    } else {
        match type_code_named(lowercase_of(r)) {
            Some(t) => Some(PropView::TypeOverride(t)),
            None => None,
        }
    }
}

/// The view of an optional property.
pub open spec fn opt_prop(r: Option<FieldPropertySpec>) -> Option<PropView> {
    match r {
        Some(p) => Some(p@),
        None => None,
    }
}

/// The comma-separated items of `s`, each trimmed.
pub fn split_trimmed(s: &str) -> (r: Vec<String>)
    ensures
        views(r@) == items_of(s@),
{
    let pieces = split_char(s, ',');
    let mut out: Vec<String> = Vec::new();
    let mut i: usize = 0;
    while i < pieces.len()
        invariant
            i <= pieces@.len(),
            views(pieces@) == split_on(s@, ','),
            views(out@) == split_on(s@, ',').take(i as int).map_values(
                |p: Seq<char>| trim_of(p, TrimClass::White),
            ),
        decreases pieces@.len() - i,
    {
        let t = trim(pieces[i].as_str());
        let ghost before = out@;
        out.push(t);
        proof {
            assert(views(out@) =~= views(before).push(t@));
            assert(split_on(s@, ',').take(i + 1).map_values(
                |p: Seq<char>| trim_of(p, TrimClass::White),
            ) =~= split_on(s@, ',').take(i as int).map_values(
                |p: Seq<char>| trim_of(p, TrimClass::White),
            ).push(t@));
        }
        i += 1;
    }
    proof {
        assert(split_on(s@, ',').take(pieces@.len() as int) =~= split_on(s@, ','));
    }
    out
}

/// The inside of `s` between a prefix of `k` characters and a final `]`,
/// when `s` has that prefix and ends with `]`.
fn inside(s: &str, open: &str, k: usize) -> (r: Option<String>)
    requires
        open@.len() == k,
        k > 0,
        open@[k - 1] == '[',
    ensures
        r matches Some(t) ==> bracketed(s@, open@) && t@ == s@.subrange(k as int, s@.len() - 1),
        r is None ==> !bracketed(s@, open@),
{
    proof {
        reveal_strlit("]");
    }
    if starts_with(s, open) && ends_with(s, "]") {
        let n = s.unicode_len();
        proof {
            assert(s@.take(k as int)[k - 1] == '[');
            assert(s@.skip(n - 1)[0] == ']');
            assert(n > k);
        }
        Some(slice_string(s, k, n - 1))
    } else {
        None
    }
}

fn after(s: &str, k: usize) -> (r: String)
    requires
        k <= s@.len(),
    ensures
        r@ == s@.skip(k as int),
{
    let n = s.unicode_len();
    let r = slice_string(s, k, n);
    proof {
        assert(r@ =~= s@.skip(k as int));
    }
    r
}

/// The two sides of the first `c` in `s`, each trimmed.
fn split_once_trimmed(s: &str, c: char) -> (r: Option<(String, String)>)
    ensures
        match first_index_of(s@, c) {
            Some(i) => r matches Some(p) && p.0@ == trim_of(s@.take(i), TrimClass::White) && p.1@
                == trim_of(s@.skip(i + 1), TrimClass::White),
            None => r is None,
        },
{
    proof {
        lemma_first_index_of(s@, c);
    }
    match find_char(s, c) {
        Some(i) => {
            let n = s.unicode_len();
            let a = slice_string(s, 0, i);
            let b = slice_string(s, i + 1, n);
            proof {
                assert(a@ =~= s@.take(i as int));
                assert(b@ =~= s@.skip(i + 1));
            }
            Some((trim(a.as_str()), trim(b.as_str())))
        },
        None => None,
    }
}

fn guard_from(inner: &str) -> (r: Option<FieldPropertySpec>)
    ensures
        opt_prop(r) == guard_of(inner@),
{
    match split_once_trimmed(inner, '=') {
        Some((path, expected)) => Some(FieldPropertySpec::Guard { path, expected }),
        None => None,
    }
}

fn state_from(inner: &str) -> (r: Option<FieldPropertySpec>)
    ensures
        opt_prop(r) == state_of(inner@),
{
    proof {
        lemma_first_index_of(inner@, '\u{2192}');
    }
    match find_char(inner, '\u{2192}') {
        Some(k) => {
            let n = inner.unicode_len();
            let a = slice_string(inner, 0, k);
            let b = slice_string(inner, k + 1, n);
            proof {
                assert(a@ =~= inner@.take(k as int));
                assert(b@ =~= inner@.skip(k + 1));
            }
            Some(
                FieldPropertySpec::StateTransition {
                    from: trim(a.as_str()),
                    to: split_trimmed(b.as_str()),
                },
            )
        },
        None => None,
    }
}

fn sum_from(r: &str) -> (p: Option<FieldPropertySpec>)
    ensures
        opt_prop(p) == sum_of(r@),
{
    proof {
        lemma_first_index_of(r@, ']');
    }
    match find_char(r, ']') {
        Some(j) => {
            let cs = chars_of(r);
            let n = cs.len();
            if j + 1 < n && cs[j + 1] == '=' && j >= 4 {
                let inner = slice_string(r, 4, j);
                let rest = slice_string(r, j + 2, n);
                proof {
                    assert(rest@ =~= r@.skip(j + 2));
                }
                Some(
                    FieldPropertySpec::Sum {
                        fields: split_trimmed(inner.as_str()),
                        target: trim(rest.as_str()),
                    },
                )
            } else {
                None
            }
        },
        None => None,
    }
}

fn implies_from(inner: &str) -> (r: Option<FieldPropertySpec>)
    ensures
        opt_prop(r) == implies_of(items_of(inner@)),
{
    let mut items = split_trimmed(inner);
    if items.len() == 2 {
        let ghost v = views(items@);
        let a = items.remove(0);
        let b = items.remove(0);
        proof {
            assert(a@ == v[0]);
            assert(b@ == v[1]);
        }
        Some(FieldPropertySpec::Implies { if_field: a, then_field: b })
    } else {
        None
    }
}

/// The property that a property text spells (after trimming it), if any.
pub fn parse_field_property(raw: &str) -> (r: Option<FieldPropertySpec>)
    ensures
        opt_prop(r) == field_property_of(trim_of(raw@, TrimClass::White)),
{
    proof {
        reveal_strlit("[");
        reveal_strlit("ref[");
        reveal_strlit("mutex=[");
        reveal_strlit("mutex[");
        reveal_strlit("enum=[");
        reveal_strlit("default=");
        reveal_strlit("min=");
        reveal_strlit("max=");
        reveal_strlit("len=");
        reveal_strlit("pattern=");
        reveal_strlit("desc=");
        reveal_strlit("ref=");
        reveal_strlit("[]");
        reveal_strlit("guard[");
        reveal_strlit("implies[");
        reveal_strlit("sum[");
        reveal_strlit("see_also[");
        reveal_strlit("state[");
    }
    let t = trim(raw);
    let r = t.as_str();
    if same_text(r, "req") || same_text(r, "required") {
        return Some(FieldPropertySpec::Required);
    }
    if same_text(r, "opt") || same_text(r, "optional") {
        return Some(FieldPropertySpec::Optional);
    }
    if same_text(r, "null") || same_text(r, "NULL") {
        return Some(FieldPropertySpec::Null);
    }
    if starts_with(r, "default=") {
        return Some(FieldPropertySpec::Default(after(r, 8)));
    }
    if starts_with(r, "min=") {
        let n = after(r, 4);
        if is_float_literal(n.as_str()) {
            return Some(FieldPropertySpec::Range { min: Some(n), max: None });
        }
    }
    if starts_with(r, "max=") {
        let n = after(r, 4);
        if is_float_literal(n.as_str()) {
            return Some(FieldPropertySpec::Range { min: None, max: Some(n) });
        }
    }
    if starts_with(r, "len=") {
        let n = after(r, 4);
        match parse_usize(n.as_str()) {
            Some(v) => {
                return Some(FieldPropertySpec::Length { min: None, max: Some(v) });
            },
            None => {},
        }
    }
    if starts_with(r, "pattern=") {
        let p = after(r, 8);
        return Some(FieldPropertySpec::Pattern(trim_class(p.as_str(), TrimClass::Only('"'))));
    }
    if starts_with(r, "desc=") {
        let d = after(r, 5);
        return Some(FieldPropertySpec::Description(trim_class(d.as_str(), TrimClass::Only('"'))));
    }
    if ends_with(r, "[]") {
        let n = r.unicode_len();
        let name = slice_string(r, 0, n - 2);
        proof {
            assert(name@ =~= r@.take(r@.len() - 2));
        }
        return Some(FieldPropertySpec::RefTarget(name));
    }
    if starts_with(r, "ref=") {
        return Some(FieldPropertySpec::RefTarget(after(r, 4)));
    }
    if let Some(name) = inside(r, "ref[", 4) {
        return Some(FieldPropertySpec::RefTarget(name));
    }
    if let Some(inner) = inside(r, "mutex=[", 7) {
        return Some(FieldPropertySpec::Mutex(split_trimmed(inner.as_str())));
    }
    if let Some(inner) = inside(r, "mutex[", 6) {
        return Some(FieldPropertySpec::Mutex(split_trimmed(inner.as_str())));
    }
    if let Some(inner) = inside(r, "enum=[", 6) {
        return Some(FieldPropertySpec::Enum(split_trimmed(inner.as_str())));
    }
    if let Some(inner) = inside(r, "guard[", 6) {
        return guard_from(inner.as_str());
    }
    if let Some(inner) = inside(r, "implies[", 8) {
        return implies_from(inner.as_str());
    }
    if starts_with(r, "sum[") {
        return sum_from(r);
    }
    if let Some(inner) = inside(r, "see_also[", 9) {
        return Some(FieldPropertySpec::SeeAlso(split_trimmed(inner.as_str())));
    }
    if let Some(inner) = inside(r, "state[", 6) {
        return state_from(inner.as_str());
    }
    if let Some(inner) = inside(r, "[", 1) {
        return Some(FieldPropertySpec::Enum(split_trimmed(inner.as_str())));
    }
    match TypeCode::from_short(r) {
        Some(tc) => Some(FieldPropertySpec::TypeOverride(tc)),
        None => None,
    }
}

} // verus!
