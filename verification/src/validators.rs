//! The built-in validators, called by name: `req`, `pattern`, `enum`,
//! `mutex`, `at_least_one`, `exactly`, `guard`, `type` and `length`.
//! `min`, `max` and `sum` compare floating-point numbers and are not
//! decided here.

use vstd::prelude::*;
use vstd::utf8::encode_utf8;
use crate::text::same_text;

verus! {

/// `regex::Regex`, held opaquely.
#[verifier::external_type_specification]
#[verifier::external_body]
pub struct ExRegex(regex::Regex);

/// Whether `regex::Regex::new` accepts a pattern.
pub uninterp spec fn regex_compiles(pattern: Seq<char>) -> bool;

/// What `regex::Regex::is_match` answers for a pattern and a haystack.
pub uninterp spec fn regex_matches(pattern: Seq<char>, text: Seq<char>) -> bool;

/// Compiles `pattern` with `regex::Regex::new` and, when it compiles,
/// searches `text` with `is_match`. The contract claims only that the
/// outcome is a function of the pattern (for compiling) and of the
/// pattern and the text (for matching).
#[verifier::external_body]
fn regex_search(pattern: &str, text: &str) -> (r: Option<bool>)
    ensures
        r is Some == regex_compiles(pattern@),
        r matches Some(b) ==> b == regex_matches(pattern@, text@),
{
    match regex::Regex::new(pattern) {
        Ok(re) => Some(re.is_match(text)),
        Err(_) => None,
    }
}

/// A field's value as the validators see it. Numbers and nested objects
/// are known by their kind only, arrays by their length.
#[derive(Debug, Clone, PartialEq)]
pub enum FieldValue {
    Null,
    Bool(bool),
    Text(String),
    Number,
    Object,
    /// An array, known by its length.
    Array(usize),
}

/// A field value with its text taken as characters.
pub enum ValueView {
    Null,
    Bool(bool),
    Text(Seq<char>),
    Number,
    Object,
    Array(usize),
}

impl View for FieldValue {
    type V = ValueView;

    open spec fn view(&self) -> ValueView {
        match self {
            FieldValue::Null => ValueView::Null,
            FieldValue::Bool(b) => ValueView::Bool(*b),
            FieldValue::Text(s) => ValueView::Text(s@),
            FieldValue::Number => ValueView::Number,
            FieldValue::Object => ValueView::Object,
            FieldValue::Array(n) => ValueView::Array(*n),
        }
    }
}

/// An object flattened to its fields: each path with its value.
#[derive(Debug, Clone)]
pub struct FlatObj {
    pub fields: Vec<(String, FieldValue)>,
}

/// The fields of an object, paths and values as views.
pub open spec fn flat_view(fs: Seq<(String, FieldValue)>) -> Seq<(Seq<char>, ValueView)> {
    fs.map_values(|e: (String, FieldValue)| (e.0@, e.1@))
}

impl View for FlatObj {
    type V = Seq<(Seq<char>, ValueView)>;

    open spec fn view(&self) -> Seq<(Seq<char>, ValueView)> {
        flat_view(self.fields@)
    }
}

/// The value of the first field with path `k`.
pub open spec fn lookup(fs: Seq<(Seq<char>, ValueView)>, k: Seq<char>) -> Option<ValueView>
    decreases fs.len(),
{
    if fs.len() == 0 {
        None
    } else if fs[0].0 == k {
        Some(fs[0].1)
    } else {
        lookup(fs.drop_first(), k)
    }
}

/// What a constraint's parameters say. Numbers that serve as counts or
/// lengths are given as whole numbers.
#[derive(Debug, Clone)]
pub struct ConstraintSpec {
    /// The field that `req`, `pattern` and `enum` look at.
    pub target: String,
    /// The `regex` parameter.
    pub regex: Option<String>,
    /// The `pattern` parameter.
    pub pattern: Option<String>,
    /// The `values` list.
    pub values: Option<Vec<FieldValue>>,
    /// The `enum` list.
    pub enum_values: Option<Vec<FieldValue>>,
    /// The `fields` list; an entry that is not a string is `None`.
    pub fields: Option<Vec<Option<String>>>,
    /// The `count` parameter.
    pub count: Option<usize>,
    /// The `exactly` parameter.
    pub exactly: Option<usize>,
    /// The `min` parameter, as a length.
    pub min: Option<usize>,
    /// The `max` parameter, as a length.
    pub max: Option<usize>,
    /// The `field` parameter.
    pub field: Option<String>,
    /// The `value` parameter.
    pub value: Option<FieldValue>,
    /// The `expected` parameter.
    pub expected: Option<String>,
    /// The `type` parameter.
    pub type_param: Option<String>,
    /// The `field1` parameter.
    pub field1: Option<String>,
    /// The `field2` parameter.
    pub field2: Option<String>,
    /// The `op` parameter.
    pub op: Option<String>,
}

/// The first of two optional texts that is there, else the empty text.
pub open spec fn text_or(a: Option<String>, b: Option<String>) -> Seq<char> {
    match a {
        Some(t) => t@,
        None => match b {
            Some(t) => t@,
            None => Seq::empty(),
        },
    }
}

/// The first of two optional lists that is there.
pub open spec fn list_or(a: Option<Vec<FieldValue>>, b: Option<Vec<FieldValue>>) -> Option<Vec<FieldValue>> {
    match a {
        Some(l) => Some(l),
        None => b,
    }
}

/// The first of two optional texts that is there.
pub open spec fn opt_text_or(a: Option<String>, b: Option<String>) -> Option<String> {
    match a {
        Some(t) => Some(t),
        None => b,
    }
}

/// The view of an optional value.
pub open spec fn opt_value(o: Option<FieldValue>) -> Option<ValueView> {
    match o {
        Some(v) => Some(v@),
        None => None,
    }
}

/// The view of an optional borrowed value.
pub open spec fn opt_ref(o: Option<&FieldValue>) -> Option<ValueView> {
    match o {
        Some(v) => Some(v@),
        None => None,
    }
}

/// The view of an optional string.
pub open spec fn opt_chars(o: Option<String>) -> Option<Seq<char>> {
    match o {
        Some(s) => Some(s@),
        None => None,
    }
}

/// Whether two values are equal, where that is decided without comparing
/// floating-point numbers: two numbers, two objects or two arrays are left
/// open.
pub open spec fn same_value(a: ValueView, b: ValueView) -> Option<bool> {
    match (a, b) {
        (ValueView::Number, ValueView::Number) => None,
        (ValueView::Object, ValueView::Object) => None,
        (ValueView::Array(_), ValueView::Array(_)) => None,
        _ => Some(a == b),
    }
}

/// Whether `v` is among `list`, scanning from the front; open at the
/// first entry whose equality with `v` is left open.
pub open spec fn scan_equal(list: Seq<FieldValue>, v: ValueView) -> Option<bool>
    decreases list.len(),
{
    if list.len() == 0 {
        Some(false)
    } else {
        match same_value(list[0]@, v) {
            Some(true) => Some(true),
            Some(false) => scan_equal(list.drop_first(), v),
            None => None,
        }
    }
}

/// How many of the named fields are present; entries that are not
/// names do not count.
pub open spec fn active_count(names: Seq<Option<String>>, obj: Seq<(Seq<char>, ValueView)>) -> nat
    decreases names.len(),
{
    if names.len() == 0 {
        0
    } else {
        let rest = active_count(names.drop_last(), obj);
        match names.last() {
            Some(n) => if lookup(obj, n@) is Some { rest + 1 } else { rest },
            None => rest,
        }
    }
}

/// What the `type` validator answers for a value and an expected type.
pub open spec fn type_matches(val: Option<ValueView>, expected: Seq<char>) -> bool {
    if expected == "null"@ {
        val is None || val == Some(ValueView::Null)
    } else if expected == "bool"@ {
        val matches Some(ValueView::Bool(_))
    } else if expected == "number"@ {
        val == Some(ValueView::Number)
    } else if expected == "string"@ {
        val matches Some(ValueView::Text(_))
    } else if expected == "object"@ {
        val == Some(ValueView::Object)
    } else {
        false
    }
}

/// The length of a text in UTF-8 bytes.
pub open spec fn byte_count(t: Seq<char>) -> nat {
    encode_utf8(t).len()
}

/// The text of a value for `pattern`: its text, else the empty text.
pub open spec fn text_or_empty(v: Option<ValueView>) -> Seq<char> {
    match v {
        Some(ValueView::Text(t)) => t,
        _ => Seq::empty(),
    }
}

/// What the `pattern` validator answers: an empty pattern accepts
/// everything; a pattern that does not compile accepts only the empty
/// text.
pub open spec fn pattern_check(pattern: Seq<char>, text: Seq<char>) -> bool {
    if pattern.len() == 0 {
        true
    } else if regex_compiles(pattern) {
        regex_matches(pattern, text)
    } else {
        text.len() == 0
    }
}

/// What `length` answers for a length: `exactly` decides when given,
/// else `min` (0 when absent) and `max` (no bound when absent).
pub open spec fn length_ok(len: nat, c: ConstraintSpec) -> bool {
    match c.exactly {
        Some(ex) => len == ex,
        None => (match c.min {
            Some(m) => m,
            None => 0usize,
        }) <= len && len <= (match c.max {
            Some(m) => m,
            None => usize::MAX,
        }),
    }
}

/// What the built-in validator `name` answers for `obj` and the
/// constraint `c`: `None` where floating-point numbers decide (`min`,
/// `max`, `sum`, and equalities between two numbers or two objects).
/// An unknown name answers `false`.
pub open spec fn builtin_check(name: Seq<char>, obj: Seq<(Seq<char>, ValueView)>, c: ConstraintSpec) -> Option<bool> {
    if name == "req"@ {
        Some(lookup(obj, c.target@) is Some)
    } else if name == "min"@ || name == "max"@ || name == "sum"@ {
        None
    } else if name == "pattern"@ {
        Some(pattern_check(text_or(c.regex, c.pattern), text_or_empty(lookup(obj, c.target@))))
    } else if name == "enum"@ {
        match (lookup(obj, c.target@), list_or(c.values, c.enum_values)) {
            (Some(v), Some(list)) => scan_equal(list@, v),
            _ => Some(false),
        }
    } else if name == "mutex"@ {
        match c.fields {
            Some(names) => Some(active_count(names@, obj) == 1),
            None => Some(false),
        }
    } else if name == "at_least_one"@ {
        match c.fields {
            Some(names) => Some(active_count(names@, obj) >= 1),
            None => Some(false),
        }
    } else if name == "exactly"@ {
        match c.fields {
            Some(names) => Some(active_count(names@, obj) == match c.count {
                Some(n) => n,
                None => match c.exactly {
                    Some(n) => n,
                    None => 0usize,
                },
            }),
            None => Some(false),
        }
    } else if name == "guard"@ {
        match (c.field, c.value) {
            (Some(f), Some(expected)) => match lookup(obj, f@) {
                Some(v) => same_value(v, expected@),
                None => Some(false),
            },
            _ => Some(false),
        }
    } else if name == "type"@ {
        match (c.field, opt_text_or(c.expected, c.type_param)) {
            (Some(f), Some(t)) => Some(type_matches(lookup(obj, f@), t@)),
            _ => Some(false),
        }
    } else if name == "length"@ {
        match c.field {
            Some(f) => match lookup(obj, f@) {
                Some(ValueView::Text(t)) => Some(length_ok(byte_count(t), c)),
                _ => Some(false),
            },
            None => Some(false),
        }
    } else {
        Some(false)
    }
}

impl FlatObj {
    /// The value of the first field with path `path`.
    pub fn get(&self, path: &str) -> (r: Option<&FieldValue>)
        ensures
            opt_ref(r) == lookup(self@, path@),
    {
        let mut i: usize = 0;
        proof {
            assert(self@.skip(0) =~= self@);
        }
        while i < self.fields.len()
            invariant
                i <= self.fields@.len(),
                lookup(self@, path@) == lookup(self@.skip(i as int), path@),
            decreases self.fields@.len() - i,
        {
            proof {
                assert(self@.skip(i as int).drop_first() =~= self@.skip(i + 1));
            }
            if same_text(self.fields[i].0.as_str(), path) {
                return Some(&self.fields[i].1);
            }
            i += 1;
        }
        None
    }
}

fn values_equal(a: &FieldValue, b: &FieldValue) -> (r: Option<bool>)
    ensures
        r == same_value(a@, b@),
{
    match (a, b) {
        (FieldValue::Number, FieldValue::Number) => None,
        (FieldValue::Object, FieldValue::Object) => None,
        (FieldValue::Array(_), FieldValue::Array(_)) => None,
        (FieldValue::Null, FieldValue::Null) => Some(true),
        (FieldValue::Bool(x), FieldValue::Bool(y)) => Some(*x == *y),
        (FieldValue::Text(x), FieldValue::Text(y)) => Some(same_text(x.as_str(), y.as_str())),
        _ => Some(false),
    }
}

fn scan_list(list: &Vec<FieldValue>, v: &FieldValue) -> (r: Option<bool>)
    ensures
        r == scan_equal(list@, v@),
{
    let mut i: usize = 0;
    proof {
        assert(list@.skip(0) =~= list@);
    }
    while i < list.len()
        invariant
            i <= list@.len(),
            scan_equal(list@, v@) == scan_equal(list@.skip(i as int), v@),
        decreases list@.len() - i,
    {
        proof {
            assert(list@.skip(i as int).drop_first() =~= list@.skip(i + 1));
        }
        match values_equal(&list[i], v) {
            Some(true) => {
                return Some(true);
            },
            None => {
                return None;
            },
            Some(false) => {},
        }
        i += 1;
    }
    Some(false)
}

fn count_active(names: &Vec<Option<String>>, obj: &FlatObj) -> (r: usize)
    ensures
        r == active_count(names@, obj@),
{
    let mut n: usize = 0;
    let mut i: usize = 0;
    while i < names.len()
        invariant
            i <= names@.len(),
            n == active_count(names@.take(i as int), obj@),
            n <= i,
        decreases names@.len() - i,
    {
        proof {
            assert(names@.take(i + 1).drop_last() =~= names@.take(i as int));
        }
        match &names[i] {
            Some(name) => {
                if obj.get(name.as_str()).is_some() {
                    n += 1;
                }
            },
            None => {},
        }
        i += 1;
    }
    proof {
        assert(names@.take(names@.len() as int) =~= names@);
    }
    n
}

fn check_type(val: Option<&FieldValue>, expected: &str) -> (r: bool)
    ensures
        r == type_matches(opt_ref(val), expected@),
{
    proof {
        reveal_strlit("null");
        reveal_strlit("bool");
        reveal_strlit("number");
        reveal_strlit("string");
        reveal_strlit("object");
    }
    if same_text(expected, "null") {
        match val {
            None => true,
            Some(FieldValue::Null) => true,
            _ => false,
        }
    } else if same_text(expected, "bool") {
        match val {
            Some(FieldValue::Bool(_)) => true,
            _ => false,
        }
    } else if same_text(expected, "number") {
        match val {
            Some(FieldValue::Number) => true,
            _ => false,
        }
    } else if same_text(expected, "string") {
        match val {
            Some(FieldValue::Text(_)) => true,
            _ => false,
        }
    } else if same_text(expected, "object") {
        match val {
            Some(FieldValue::Object) => true,
            _ => false,
        }
    } else {
        false
    }
}

fn check_pattern(pattern: &str, val: Option<&FieldValue>) -> (r: bool)
    ensures
        r == pattern_check(pattern@, text_or_empty(opt_ref(val))),
{
    if pattern.unicode_len() == 0 {
        return true;
    }
    let empty = String::new();
    let text: &str = match val {
        Some(FieldValue::Text(t)) => t.as_str(),
        _ => empty.as_str(),
    };
    match regex_search(pattern, text) {
        Some(b) => b,
        None => text.unicode_len() == 0,
    }
}

fn check_length(val: Option<&FieldValue>, c: &ConstraintSpec) -> (r: bool)
    ensures
        r == match opt_ref(val) {
            Some(ValueView::Text(t)) => length_ok(byte_count(t), *c),
            _ => false,
        },
{
    match val {
        Some(FieldValue::Text(t)) => {
            let bytes = t.as_str().as_bytes();
            let len = bytes.len();
            match c.exactly {
                Some(ex) => len == ex,
                None => {
                    let lo = match c.min {
                        Some(m) => m,
                        None => 0,
                    };
                    let hi = match c.max {
                        Some(m) => m,
                        None => usize::MAX,
                    };
                    len >= lo && len <= hi
                },
            }
        },
        _ => false,
    }
}

fn text_choice<'a>(a: &'a Option<String>, b: &'a Option<String>) -> (r: &'a str)
    ensures
        r@ == text_or(*a, *b),
{
    proof {
        reveal_strlit("");
    }
    match a {
        Some(t) => t.as_str(),
        None => match b {
            Some(t) => t.as_str(),
            None => "",
        },
    }
}

fn list_choice<'a>(a: &'a Option<Vec<FieldValue>>, b: &'a Option<Vec<FieldValue>>) -> (r: Option<&'a Vec<FieldValue>>)
    ensures
        match r {
            Some(l) => list_or(*a, *b) == Some(*l),
            None => list_or(*a, *b) is None,
        },
{
    match a {
        Some(l) => Some(l),
        None => match b {
            Some(l) => Some(l),
            None => None,
        },
    }
}

fn opt_text_choice<'a>(a: &'a Option<String>, b: &'a Option<String>) -> (r: Option<&'a String>)
    ensures
        match r {
            Some(t) => opt_text_or(*a, *b) == Some(*t),
            None => opt_text_or(*a, *b) is None,
        },
{
    match a {
        Some(t) => Some(t),
        None => match b {
            Some(t) => Some(t),
            None => None,
        },
    }
}

/// Runs the built-in validator `name` on `obj` with the constraint `c`.
/// `None` means that floating-point numbers decide the answer.
pub fn check_constraint(name: &str, obj: &FlatObj, c: &ConstraintSpec) -> (r: Option<bool>)
    ensures
        r == builtin_check(name@, obj@, *c),
{
    proof {
        reveal_strlit("req");
        reveal_strlit("min");
        reveal_strlit("max");
        reveal_strlit("sum");
        reveal_strlit("pattern");
        reveal_strlit("enum");
        reveal_strlit("mutex");
        reveal_strlit("at_least_one");
        reveal_strlit("exactly");
        reveal_strlit("guard");
        reveal_strlit("type");
        reveal_strlit("length");
    }
    if same_text(name, "req") {
        Some(obj.get(c.target.as_str()).is_some())
    } else if same_text(name, "min") || same_text(name, "max") || same_text(name, "sum") {
        None
    } else if same_text(name, "pattern") {
        Some(check_pattern(text_choice(&c.regex, &c.pattern), obj.get(c.target.as_str())))
    } else if same_text(name, "enum") {
        match (obj.get(c.target.as_str()), list_choice(&c.values, &c.enum_values)) {
            (Some(v), Some(list)) => scan_list(list, v),
            _ => Some(false),
        }
    } else if same_text(name, "mutex") {
        match &c.fields {
            Some(names) => Some(count_active(names, obj) == 1),
            None => Some(false),
        }
    } else if same_text(name, "at_least_one") {
        match &c.fields {
            Some(names) => Some(count_active(names, obj) >= 1),
            None => Some(false),
        }
    } else if same_text(name, "exactly") {
        match &c.fields {
            Some(names) => {
                let want: usize = match c.count {
                    Some(n) => n,
                    None => match c.exactly {
                        Some(n) => n,
                        None => 0,
                    },
                };
                Some(count_active(names, obj) == want)
            },
            None => Some(false),
        }
    } else if same_text(name, "guard") {
        match (&c.field, &c.value) {
            (Some(f), Some(expected)) => match obj.get(f.as_str()) {
                Some(v) => values_equal(v, expected),
                None => Some(false),
            },
            _ => Some(false),
        }
    } else if same_text(name, "type") {
        match (&c.field, opt_text_choice(&c.expected, &c.type_param)) {
            (Some(f), Some(t)) => Some(check_type(obj.get(f.as_str()), t.as_str())),
            _ => Some(false),
        }
    } else if same_text(name, "length") {
        match &c.field {
            Some(f) => Some(check_length(obj.get(f.as_str()), c)),
            None => Some(false),
        }
    } else {
        Some(false)
    }
}


// ---------------------------------------------------------------------------
// The function registry's and the base validator's built-ins
// ---------------------------------------------------------------------------

/// Whether two optional values are equal: an absent value equals only an
/// absent one; two present ones as `same_value` says.
pub open spec fn opt_same(a: Option<ValueView>, b: Option<ValueView>) -> Option<bool> {
    match (a, b) {
        (None, None) => Some(true),
        (Some(x), Some(y)) => same_value(x, y),
        _ => Some(false),
    }
}

/// A regex check with no shortcut for the empty pattern: a pattern that
/// does not compile accepts only the empty text.
pub open spec fn regex_check(pattern: Seq<char>, text: Seq<char>) -> bool {
    if regex_compiles(pattern) {
        regex_matches(pattern, text)
    } else {
        text.len() == 0
    }
}

/// How `compare` answers for two optional values and an operator: `eq`
/// and `ne` compare the values; `lt`, `le`, `gt` and `ge` compare them as
/// optional numbers, where a missing number comes first, and two numbers
/// are left open.
pub open spec fn compare_check(v1: Option<ValueView>, v2: Option<ValueView>, op: Seq<char>) -> Option<bool> {
    let n1: int = if v1 == Some(ValueView::Number) { 1 } else { 0 };
    let n2: int = if v2 == Some(ValueView::Number) { 1 } else { 0 };
    if op == "eq"@ {
        opt_same(v1, v2)
    } else if op == "ne"@ {
        match opt_same(v1, v2) {
            Some(b) => Some(!b),
            None => None,
        }
    } else if op == "lt"@ || op == "le"@ || op == "gt"@ || op == "ge"@ {
        if n1 == 1 && n2 == 1 {
            None
        } else if op == "lt"@ {
            Some(n1 < n2)
        } else if op == "le"@ {
            Some(n1 <= n2)
        } else if op == "gt"@ {
            Some(n1 > n2)
        } else {
            Some(n1 >= n2)
        }
    } else {
        Some(false)
    }
}

/// What the registry's `type` answers: as `type_matches`, and `array`
/// holds of arrays.
pub open spec fn registry_type(val: Option<ValueView>, expected: Seq<char>) -> bool {
    if expected == "array"@ {
        val matches Some(ValueView::Array(_))
    } else {
        type_matches(val, expected)
    }
}

/// What the registry's `length` answers for a length: `exactly` decides
/// when given; else each of `min` and `max` that is given bounds it.
pub open spec fn registry_length_ok(len: nat, c: ConstraintSpec) -> bool {
    match c.exactly {
        Some(ex) => len == ex,
        None => (match c.min {
            Some(m) => m <= len,
            None => true,
        }) && (match c.max {
            Some(m) => len <= m,
            None => true,
        }),
    }
}

/// What the function registry answers for the built-in `name`: `None`
/// when no built-in has that name; `Some(None)` where floating-point
/// numbers decide (`min`, `max`, `range`, `sum`, and equalities or
/// orders between two numbers, objects or arrays).
pub open spec fn registry_builtin_check(name: Seq<char>, obj: Seq<(Seq<char>, ValueView)>, c: ConstraintSpec) -> Option<
    Option<bool>,
> {
    if name == "req"@ {
        Some(Some(lookup(obj, c.target@) is Some))
    } else if name == "min"@ || name == "max"@ || name == "range"@ || name == "sum"@ {
        Some(None)
    } else if name == "pattern"@ {
        Some(Some(regex_check(text_or(c.regex, c.pattern), text_or_empty(lookup(obj, c.target@)))))
    } else if name == "enum"@ {
        Some(
            match (lookup(obj, c.target@), list_or(c.values, c.enum_values)) {
                (Some(v), Some(list)) => scan_equal(list@, v),
                _ => Some(false),
            },
        )
    } else if name == "mutex"@ || name == "at_least_one"@ || name == "exactly"@ {
        Some(
            match c.fields {
                Some(names) => Some(
                    if name == "mutex"@ {
                        active_count(names@, obj) == 1
                    } else if name == "at_least_one"@ {
                        active_count(names@, obj) >= 1
                    } else {
                        active_count(names@, obj) == match c.count {
                            Some(n) => n,
                            None => 0usize,
                        }
                    },
                ),
                None => Some(false),
            },
        )
    } else if name == "guard"@ {
        Some(
            match c.field {
                Some(f) => opt_same(lookup(obj, f@), opt_value(c.value)),
                None => Some(false),
            },
        )
    } else if name == "compare"@ {
        Some(
            match (c.field1, c.field2) {
                (Some(f1), Some(f2)) => compare_check(
                    lookup(obj, f1@),
                    lookup(obj, f2@),
                    match c.op {
                        Some(o) => o@,
                        None => "eq"@,
                    },
                ),
                _ => Some(false),
            },
        )
    } else if name == "type"@ {
        Some(
            Some(
                match (c.field, c.expected) {
                    (Some(f), Some(t)) => registry_type(lookup(obj, f@), t@),
                    _ => false,
                },
            ),
        )
    } else if name == "length"@ {
        Some(
            Some(
                match c.field {
                    Some(f) => match lookup(obj, f@) {
                        Some(ValueView::Text(t)) => registry_length_ok(byte_count(t), c),
                        Some(ValueView::Array(n)) => registry_length_ok(n as nat, c),
                        _ => false,
                    },
                    None => false,
                },
            ),
        )
    } else {
        None
    }
}

/// What the base validator answers for the built-in `name`: `None` where
/// floating-point numbers decide (`min`, `max`, `range`, `sum`, and
/// equalities between two numbers, objects or arrays); an unknown name
/// answers `false`. Its `pattern` reads only `regex`, its `enum` only
/// `values`.
pub open spec fn base_builtin_check(name: Seq<char>, obj: Seq<(Seq<char>, ValueView)>, c: ConstraintSpec) -> Option<bool> {
    if name == "req"@ {
        Some(lookup(obj, c.target@) is Some)
    } else if name == "min"@ || name == "max"@ || name == "range"@ || name == "sum"@ {
        None
    } else if name == "pattern"@ {
        Some(regex_check(text_or(c.regex, None), text_or_empty(lookup(obj, c.target@))))
    } else if name == "enum"@ {
        match (lookup(obj, c.target@), c.values) {
            (Some(v), Some(list)) => scan_equal(list@, v),
            _ => Some(false),
        }
    } else if name == "mutex"@ {
        match c.fields {
            Some(names) => Some(active_count(names@, obj) == 1),
            None => Some(false),
        }
    } else if name == "guard"@ {
        match c.field {
            Some(f) => opt_same(lookup(obj, f@), opt_value(c.value)),
            None => Some(false),
        }
    } else {
        Some(false)
    }
}

fn check_regex(pattern: &str, val: Option<&FieldValue>) -> (r: bool)
    ensures
        r == regex_check(pattern@, text_or_empty(opt_ref(val))),
{
    let empty = String::new();
    let text: &str = match val {
        Some(FieldValue::Text(t)) => t.as_str(),
        _ => empty.as_str(),
    };
    match regex_search(pattern, text) {
        Some(b) => b,
        None => text.unicode_len() == 0,
    }
}

fn opt_values_equal(a: Option<&FieldValue>, b: Option<&FieldValue>) -> (r: Option<bool>)
    ensures
        r == opt_same(opt_ref(a), opt_ref(b)),
{
    match (a, b) {
        (None, None) => Some(true),
        (Some(x), Some(y)) => values_equal(x, y),
        _ => Some(false),
    }
}

fn compare_values(v1: Option<&FieldValue>, v2: Option<&FieldValue>, op: &str) -> (r: Option<bool>)
    ensures
        r == compare_check(opt_ref(v1), opt_ref(v2), op@),
{
    proof {
        reveal_strlit("eq");
        reveal_strlit("ne");
        reveal_strlit("lt");
        reveal_strlit("le");
        reveal_strlit("gt");
        reveal_strlit("ge");
    }
    let n1: u8 = match v1 {
        Some(FieldValue::Number) => 1,
        _ => 0,
    };
    let n2: u8 = match v2 {
        Some(FieldValue::Number) => 1,
        _ => 0,
    };
    if same_text(op, "eq") {
        opt_values_equal(v1, v2)
    } else if same_text(op, "ne") {
        match opt_values_equal(v1, v2) {
            Some(b) => Some(!b),
            None => None,
        }
    } else if same_text(op, "lt") || same_text(op, "le") || same_text(op, "gt") || same_text(
        op,
        "ge",
    ) {
        if n1 == 1 && n2 == 1 {
            None
        } else if same_text(op, "lt") {
            Some(n1 < n2)
        } else if same_text(op, "le") {
            Some(n1 <= n2)
        } else if same_text(op, "gt") {
            Some(n1 > n2)
        } else {
            Some(n1 >= n2)
        }
    } else {
        Some(false)
    }
}

fn registry_length(val: Option<&FieldValue>, c: &ConstraintSpec) -> (r: bool)
    ensures
        r == match opt_ref(val) {
            Some(ValueView::Text(t)) => registry_length_ok(byte_count(t), *c),
            Some(ValueView::Array(n)) => registry_length_ok(n as nat, *c),
            _ => false,
        },
{
    let len: usize = match val {
        Some(FieldValue::Text(t)) => t.as_str().as_bytes().len(),
        Some(FieldValue::Array(n)) => *n,
        _ => {
            return false;
        },
    };
    match c.exactly {
        Some(ex) => len == ex,
        None => {
            let lo = match c.min {
                Some(m) => m <= len,
                None => true,
            };
            let hi = match c.max {
                Some(m) => len <= m,
                None => true,
            };
            lo && hi
        },
    }
}

/// Runs the function registry's built-in `name` on `obj` with the
/// constraint `c`: `None` when there is no such built-in, `Some(None)`
/// where floating-point numbers decide.
pub fn registry_check(name: &str, obj: &FlatObj, c: &ConstraintSpec) -> (r: Option<Option<bool>>)
    ensures
        r == registry_builtin_check(name@, obj@, *c),
{
    proof {
        reveal_strlit("req");
        reveal_strlit("min");
        reveal_strlit("max");
        reveal_strlit("range");
        reveal_strlit("sum");
        reveal_strlit("pattern");
        reveal_strlit("enum");
        reveal_strlit("mutex");
        reveal_strlit("at_least_one");
        reveal_strlit("exactly");
        reveal_strlit("guard");
        reveal_strlit("compare");
        reveal_strlit("type");
        reveal_strlit("length");
        reveal_strlit("array");
        reveal_strlit("eq");
    }
    if same_text(name, "req") {
        Some(Some(obj.get(c.target.as_str()).is_some()))
    } else if same_text(name, "min") || same_text(name, "max") || same_text(name, "range")
        || same_text(name, "sum") {
        Some(None)
    } else if same_text(name, "pattern") {
        Some(Some(check_regex(text_choice(&c.regex, &c.pattern), obj.get(c.target.as_str()))))
    } else if same_text(name, "enum") {
        Some(
            match (obj.get(c.target.as_str()), list_choice(&c.values, &c.enum_values)) {
                (Some(v), Some(list)) => scan_list(list, v),
                _ => Some(false),
            },
        )
    } else if same_text(name, "mutex") || same_text(name, "at_least_one") || same_text(
        name,
        "exactly",
    ) {
        Some(
            match &c.fields {
                Some(names) => {
                    let n = count_active(names, obj);
                    Some(
                        if same_text(name, "mutex") {
                            n == 1
                        } else if same_text(name, "at_least_one") {
                            n >= 1
                        } else {
                            n == match c.count {
                                Some(k) => k,
                                None => 0,
                            }
                        },
                    )
                },
                None => Some(false),
            },
        )
    } else if same_text(name, "guard") {
        Some(
            match &c.field {
                Some(f) => opt_values_equal(obj.get(f.as_str()), c.value.as_ref()),
                None => Some(false),
            },
        )
    } else if same_text(name, "compare") {
        Some(
            match (&c.field1, &c.field2) {
                (Some(f1), Some(f2)) => {
                    let op: &str = match &c.op {
                        Some(o) => o.as_str(),
                        None => "eq",
                    };
                    compare_values(obj.get(f1.as_str()), obj.get(f2.as_str()), op)
                },
                _ => Some(false),
            },
        )
    } else if same_text(name, "type") {
        Some(
            Some(
                match (&c.field, &c.expected) {
                    (Some(f), Some(t)) => {
                        let v = obj.get(f.as_str());
                        if same_text(t.as_str(), "array") {
                            match v {
                                Some(FieldValue::Array(_)) => true,
                                _ => false,
                            }
                        } else {
                            check_type(v, t.as_str())
                        }
                    },
                    _ => false,
                },
            ),
        )
    } else if same_text(name, "length") {
        Some(
            Some(
                match &c.field {
                    Some(f) => registry_length(obj.get(f.as_str()), c),
                    None => false,
                },
            ),
        )
    } else {
        None
    }
}

/// Runs the base validator's built-in `name` on `obj` with the
/// constraint `c`; `None` means that floating-point numbers decide.
pub fn base_check(name: &str, obj: &FlatObj, c: &ConstraintSpec) -> (r: Option<bool>)
    ensures
        r == base_builtin_check(name@, obj@, *c),
{
    proof {
        reveal_strlit("req");
        reveal_strlit("min");
        reveal_strlit("max");
        reveal_strlit("range");
        reveal_strlit("sum");
        reveal_strlit("pattern");
        reveal_strlit("enum");
        reveal_strlit("mutex");
        reveal_strlit("guard");
    }
    if same_text(name, "req") {
        Some(obj.get(c.target.as_str()).is_some())
    } else if same_text(name, "min") || same_text(name, "max") || same_text(name, "range")
        || same_text(name, "sum") {
        None
    } else if same_text(name, "pattern") {
        let none: Option<String> = None;
        Some(check_regex(text_choice(&c.regex, &none), obj.get(c.target.as_str())))
    } else if same_text(name, "enum") {
        match (obj.get(c.target.as_str()), &c.values) {
            (Some(v), Some(list)) => scan_list(list, v),
            _ => Some(false),
        }
    } else if same_text(name, "mutex") {
        match &c.fields {
            Some(names) => Some(count_active(names, obj) == 1),
            None => Some(false),
        }
    } else if same_text(name, "guard") {
        match &c.field {
            Some(f) => opt_values_equal(obj.get(f.as_str()), c.value.as_ref()),
            None => Some(false),
        }
    } else {
        Some(false)
    }
}

} // verus!
