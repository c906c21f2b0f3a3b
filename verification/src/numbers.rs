//! Number syntax as `str::parse` reads it: which texts are floating-point
//! literals (the grammar std documents for `f64::from_str`), and unsigned
//! sizes.

use vstd::prelude::*;
use crate::http::{all_digits, parse_u64, u64_of};
use crate::text::chars_of;

verus! {

/// `c` is `w`, or the upper-case ASCII letter of `w`.
pub open spec fn same_letter_ci(c: char, w: char) -> bool {
    if 'A' <= c <= 'Z' {
        (c as u32) + 32 == (w as u32)
    } else {
        c == w
    }
}

/// `s` spells `w` (lower-case ASCII) ignoring ASCII case.
pub open spec fn word_ci(s: Seq<char>, w: Seq<char>) -> bool {
    s.len() == w.len() && forall|i: int| 0 <= i < s.len() ==> same_letter_ci(#[trigger] s[i], w[i])
}

/// `s` without one leading `+` or `-`.
pub open spec fn unsigned_part(s: Seq<char>) -> Seq<char> {
    if s.len() > 0 && (s[0] == '+' || s[0] == '-') {
        s.drop_first()
    } else {
        s
    }
}

/// The first position holding one of `a`, `b`.
pub open spec fn first_of(s: Seq<char>, a: char, b: char) -> Option<int>
    decreases s.len(),
{
    if s.len() == 0 {
        None
    } else if s[0] == a || s[0] == b {
        Some(0)
    } else {
        match first_of(s.drop_first(), a, b) {
            Some(i) => Some(i + 1),
            None => None,
        }
    }
}

/// `Digit+ | Digit+ '.' Digit* | Digit* '.' Digit+`.
pub open spec fn mantissa_ok(m: Seq<char>) -> bool {
    match first_of(m, '.', '.') {
        None => m.len() > 0 && all_digits(m),
        Some(d) => all_digits(m.take(d)) && all_digits(m.skip(d + 1)) && (d > 0 || m.len() > d
            + 1),
    }
}

/// `Sign? Digit+`.
pub open spec fn exponent_ok(x: Seq<char>) -> bool {
    unsigned_part(x).len() > 0 && all_digits(unsigned_part(x))
}

/// `Mantissa Exp?` with `Exp ::= 'e' Sign? Digit+` (either case of `e`).
pub open spec fn number_ok(t: Seq<char>) -> bool {
    match first_of(t, 'e', 'E') {
        None => mantissa_ok(t),
        Some(k) => mantissa_ok(t.take(k)) && exponent_ok(t.skip(k + 1)),
    }
}

/// The texts that `str::parse::<f64>` accepts, as std documents them:
/// `Sign? ('inf' | 'infinity' | 'nan' | Number)`, letters in any case, no
/// surrounding white space.
pub open spec fn float_syntax(s: Seq<char>) -> bool {
    let t = unsigned_part(s);
    word_ci(t, "inf"@) || word_ci(t, "infinity"@) || word_ci(t, "nan"@) || number_ok(t)
}

proof fn lemma_first_of(s: Seq<char>, a: char, b: char, k: int)
    requires
        0 <= k <= s.len(),
        forall|i: int| 0 <= i < k ==> s[i] != a && s[i] != b,
    ensures
        k < s.len() && (s[k] == a || s[k] == b) ==> first_of(s, a, b) == Some(k),
        k == s.len() ==> first_of(s, a, b) is None,
    decreases k,
{
    if k > 0 {
        lemma_first_of(s.drop_first(), a, b, k - 1);
    }
}

fn find_either(c: &Vec<char>, from: usize, to: usize, a: char, b: char) -> (r: Option<usize>)
    requires
        from <= to <= c@.len(),
    ensures
        r matches Some(i) ==> from <= i < to && first_of(c@.subrange(from as int, to as int), a, b)
            == Some(i - from),
        r is None ==> first_of(c@.subrange(from as int, to as int), a, b) is None,
{
    let ghost s = c@.subrange(from as int, to as int);
    let mut i = from;
    while i < to
        invariant
            from <= i <= to <= c@.len(),
            s == c@.subrange(from as int, to as int),
            forall|j: int| 0 <= j < i - from ==> s[j] != a && s[j] != b,
        decreases to - i,
    {
        if c[i] == a || c[i] == b {
            proof {
                lemma_first_of(s, a, b, i - from);
            }
            return Some(i);
        }
        i += 1;
    }
    proof {
        lemma_first_of(s, a, b, i - from);
    }
    None
}

fn digits_in(c: &Vec<char>, from: usize, to: usize) -> (r: bool)
    requires
        from <= to <= c@.len(),
    ensures
        r == all_digits(c@.subrange(from as int, to as int)),
{
    let ghost s = c@.subrange(from as int, to as int);
    let mut i = from;
    while i < to
        invariant
            from <= i <= to <= c@.len(),
            s == c@.subrange(from as int, to as int),
            forall|j: int| 0 <= j < i - from ==> '0' <= #[trigger] s[j] <= '9',
        decreases to - i,
    {
        if c[i] < '0' || c[i] > '9' {
            proof {
                assert(s[i - from] == c@[i as int]);
            }
            return false;
        }
        i += 1;
    }
    true
}

fn spells(c: &Vec<char>, from: usize, w: &str) -> (r: bool)
    requires
        from <= c@.len(),
    ensures
        r == word_ci(c@.skip(from as int), w@),
{
    let wc = chars_of(w);
    let ghost s = c@.skip(from as int);
    let n = c.len();
    if n - from != wc.len() {
        return false;
    }
    let mut i: usize = 0;
    while i < wc.len()
        invariant
            wc@ == w@,
            s == c@.skip(from as int),
            s.len() == wc@.len(),
            from <= c@.len(),
            n == c@.len(),
            n - from == wc@.len(),
            i <= wc@.len(),
            forall|j: int| 0 <= j < i ==> same_letter_ci(#[trigger] s[j], w@[j]),
        decreases wc@.len() - i,
    {
        let ch = c[from + i];
        let same = if 'A' <= ch && ch <= 'Z' {
            (ch as u32) + 32 == (wc[i] as u32)
        } else {
            ch == wc[i]
        };
        if !same {
            proof {
                assert(s[i as int] == c@[from + i]);
            }
            return false;
        }
        i += 1;
    }
    true
}

fn mantissa_in(c: &Vec<char>, from: usize, to: usize) -> (r: bool)
    requires
        from <= to <= c@.len(),
    ensures
        r == mantissa_ok(c@.subrange(from as int, to as int)),
{
    let ghost m = c@.subrange(from as int, to as int);
    match find_either(c, from, to, '.', '.') {
        None => to > from && digits_in(c, from, to),
        Some(d) => {
            proof {
                assert(m.take(d - from) =~= c@.subrange(from as int, d as int));
                assert(m.skip(d - from + 1) =~= c@.subrange(d + 1, to as int));
            }
            digits_in(c, from, d) && digits_in(c, d + 1, to) && (d > from || to > d + 1)
        },
    }
}

/// Whether `str::parse::<f64>` accepts `s`.
pub fn is_float_literal(s: &str) -> (r: bool)
    ensures
        r == float_syntax(s@),
{
    proof {
        reveal_strlit("inf");
        reveal_strlit("infinity");
        reveal_strlit("nan");
    }
    let c = chars_of(s);
    let n = c.len();
    let start: usize = if n > 0 && (c[0] == '+' || c[0] == '-') {
        1
    } else {
        0
    };
    let ghost t = unsigned_part(s@);
    proof {
        assert(t =~= c@.skip(start as int));
        assert(t =~= c@.subrange(start as int, n as int));
    }
    if spells(&c, start, "inf") || spells(&c, start, "infinity") || spells(&c, start, "nan") {
        return true;
    }
    match find_either(&c, start, n, 'e', 'E') {
        None => mantissa_in(&c, start, n),
        Some(k) => {
            proof {
                assert(t.take(k - start) =~= c@.subrange(start as int, k as int));
                assert(t.skip(k - start + 1) =~= c@.subrange(k + 1, n as int));
            }
            if !mantissa_in(&c, start, k) {
                return false;
            }
            let es: usize = if k + 1 < n && (c[k + 1] == '+' || c[k + 1] == '-') {
                k + 2
            } else {
                k + 1
            };
            proof {
                let x = c@.subrange(k + 1, n as int);
                assert(unsigned_part(x) =~= c@.subrange(es as int, n as int));
            }
            es < n && digits_in(&c, es, n)
        },
    }
}

/// What `str::parse::<usize>` gives: `str::parse::<u64>`'s reading when
/// the value fits in `usize`.
pub open spec fn usize_of(s: Seq<char>) -> Option<usize> {
    match u64_of(s) {
        Some(v) => if v <= usize::MAX {
            Some(v as usize)
        } else {
            None
        },
        None => None,
    }
}

/// A decimal size, as `str::parse::<usize>` reads it.
pub fn parse_usize(s: &str) -> (r: Option<usize>)
    ensures
        r == usize_of(s@),
{
    match parse_u64(s) {
        Some(v) => if v <= usize::MAX as u64 {
            Some(v as usize)
        } else {
            None
        },
        None => None,
    }
}

} // verus!
