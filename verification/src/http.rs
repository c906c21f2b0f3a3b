//! Address and header handling of the HTTP connector: joining a base URL
//! with a resource path, and reading a `Content-Length` value.

use vstd::prelude::*;
use crate::text::{chars_of, slice_string, trim_end_of, trim_start_of, TrimClass,
    lemma_lead_count_exact, lemma_trail_count_exact, in_class};

verus! {

/// The URL of `path` under `base`: the base without trailing `/`s, one
/// `/`, and the path without leading `/`s.
pub open spec fn url_of(base: Seq<char>, path: Seq<char>) -> Seq<char> {
    trim_end_of(base, TrimClass::Only('/')) + seq!['/'] + trim_start_of(path, TrimClass::Only('/'))
}

/// The URL of `path` under `base_url`.
pub fn build_url(base_url: &str, path: &str) -> (r: String)
    ensures
        r@ == url_of(base_url@, path@),
{
    let bc = chars_of(base_url);
    let mut end: usize = bc.len();
    while end > 0 && bc[end - 1] == '/'
        invariant
            end <= bc@.len(),
            bc@ == base_url@,
            forall|i: int| end <= i < bc@.len() ==> in_class(#[trigger] base_url@[i], TrimClass::Only('/')),
        decreases end,
    {
        end -= 1;
    }
    proof {
        lemma_trail_count_exact(base_url@, TrimClass::Only('/'), (bc@.len() - end) as int);
    }
    let pc = chars_of(path);
    let mut start: usize = 0;
    while start < pc.len() && pc[start] == '/'
        invariant
            start <= pc@.len(),
            pc@ == path@,
            forall|i: int| 0 <= i < start ==> in_class(#[trigger] path@[i], TrimClass::Only('/')),
        decreases pc@.len() - start,
    {
        start += 1;
    }
    proof {
        lemma_lead_count_exact(path@, TrimClass::Only('/'), start as int);
    }
    let mut r = slice_string(base_url, 0, end);
    r.append("/");
    let tail = slice_string(path, start, pc.len());
    r.append(tail.as_str());
    proof {
        reveal_strlit("/");
        assert(r@ =~= url_of(base_url@, path@));
    }
    r
}

/// The value of a string of decimal digits.
pub open spec fn digits_value(d: Seq<char>) -> nat
    decreases d.len(),
{
    if d.len() == 0 {
        0
    } else {
        digits_value(d.drop_last()) * 10 + ((d.last() as u32) - ('0' as u32)) as nat
    }
}

/// Every character is an ASCII digit.
pub open spec fn all_digits(d: Seq<char>) -> bool {
    forall|i: int| 0 <= i < d.len() ==> '0' <= #[trigger] d[i] <= '9'
}

/// What `str::parse::<u64>` gives: an optional `+`, then at least one ASCII
/// digit and nothing else, with a value that fits in 64 bits.
pub open spec fn u64_of(s: Seq<char>) -> Option<u64> {
    let d = if s.len() > 0 && s[0] == '+' {
        s.drop_first()
    } else {
        s
    };
    if d.len() == 0 || !all_digits(d) || digits_value(d) > u64::MAX {
        None
    } else {
        Some(digits_value(d) as u64)
    }
}

proof fn lemma_digits_value_grows(d: Seq<char>, k: int)
    requires
        0 <= k <= d.len(),
        all_digits(d),
    ensures
        digits_value(d.take(k)) <= digits_value(d),
    decreases d.len() - k,
{
    if k < d.len() {
        lemma_digits_value_grows(d, k + 1);
        assert(d.take(k + 1).drop_last() =~= d.take(k));
        assert(d.take(k + 1).last() == d[k]);
    } else {
        assert(d.take(k) =~= d);
    }
}

/// A decimal unsigned 64-bit number, as `str::parse::<u64>` reads it.
pub fn parse_u64(s: &str) -> (r: Option<u64>)
    ensures
        r == u64_of(s@),
{
    let chars = chars_of(s);
    let n = chars.len();
    let mut i: usize = 0;
    if n > 0 && chars[0] == '+' {
        i = 1;
    }
    let ghost d = if s@.len() > 0 && s@[0] == '+' {
        s@.drop_first()
    } else {
        s@
    };
    proof {
        assert(d =~= s@.skip(i as int));
    }
    if i == n {
        return None;
    }
    let start = i;
    let mut v: u64 = 0;
    while i < n
        invariant
            start <= i <= n,
            n == chars@.len(),
            chars@ == s@,
            d == s@.skip(start as int),
            d == (if s@.len() > 0 && s@[0] == '+' {
                s@.drop_first()
            } else {
                s@
            }),
            all_digits(d.take(i - start)),
            v == digits_value(d.take(i - start)),
        decreases n - i,
    {
        let c = chars[i];
        proof {
            assert(d.take(i - start + 1).drop_last() =~= d.take(i - start));
            assert(d.take(i - start + 1).last() == c);
        }
        if c < '0' || c > '9' {
            proof {
                assert(d[i - start] == c);
                assert(!all_digits(d));
            }
            return None;
        }
        let digit = (c as u32 - '0' as u32) as u64;
        proof {
            let t = d.take(i - start + 1);
            assert(all_digits(t)) by {
                assert forall|j: int| 0 <= j < t.len() implies '0' <= #[trigger] t[j] <= '9' by {
                    if j < t.len() - 1 {
                        assert(t[j] == d.take(i - start)[j]);
                    }
                }
            }
            assert(digits_value(t) == v * 10 + digit);
        }
        match v.checked_mul(10) {
            Some(m) => match m.checked_add(digit) {
                Some(nv) => {
                    v = nv;
                },
                None => {
                    proof {
                        assert(digits_value(d.take(i - start + 1)) > u64::MAX);
                        lemma_too_big(d, (i - start + 1) as int);
                    }
                    return None;
                },
            },
            None => {
                proof {
                    assert(digits_value(d.take(i - start + 1)) >= v * 10);
                    lemma_too_big(d, (i - start + 1) as int);
                }
                return None;
            },
        }
        i += 1;
    }
    proof {
        assert(d.take(n - start) =~= d);
    }
    Some(v)
}

proof fn lemma_too_big(d: Seq<char>, k: int)
    requires
        0 <= k <= d.len(),
        all_digits(d.take(k)),
        digits_value(d.take(k)) > u64::MAX,
    ensures
        !all_digits(d) || digits_value(d) > u64::MAX,
{
    if all_digits(d) {
        lemma_digits_value_grows(d, k);
    }
}

} // verus!
