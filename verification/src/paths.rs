//! Path segment lists written as space-separated words: `user profile name`
//! gives `["user", "profile", "name"]`.

use vstd::prelude::*;
use crate::obj_adapter::flush;
use crate::text::{chars_of, char_in_class, is_white, slice_string, views, TrimClass};

verus! {

/// State of a word scan: the finished words and the current word.
pub type WordScan = (Seq<Seq<char>>, Seq<char>);

/// The word scan after reading all of `s`: white space ends a word, any
/// other character extends it.
pub open spec fn word_scan(s: Seq<char>) -> WordScan
    decreases s.len(),
{
    if s.len() == 0 {
        (Seq::empty(), Seq::empty())
    } else {
        let st = word_scan(s.drop_last());
        if is_white(s.last()) {
            (flush(st.0, st.1), Seq::empty())
        } else {
            (st.0, st.1.push(s.last()))
        }
    }
}

/// The white-space separated words of `s`.
pub open spec fn words_of(s: Seq<char>) -> Seq<Seq<char>> {
    let st = word_scan(s);
    flush(st.0, st.1)
}

/// The segments of a path written as white-space separated words; a single
/// word (which may contain dots) is one segment.
pub fn path_arr(spec: &str) -> (parts: Vec<String>)
    ensures
        views(parts@) == words_of(spec@),
{
    let chars = chars_of(spec);
    let n = chars.len();
    let mut parts: Vec<String> = Vec::new();
    let mut start: usize = 0;
    let mut i: usize = 0;
    while i < n
        invariant
            n == chars@.len(),
            chars@ == spec@,
            start <= i <= n,
            word_scan(spec@.take(i as int)) == (views(parts@), spec@.subrange(start as int, i as int)),
        decreases n - i,
    {
        let c = chars[i];
        proof {
            assert(spec@.take(i + 1).drop_last() =~= spec@.take(i as int));
            assert(spec@.take(i + 1).last() == c);
        }
        if char_in_class(c, TrimClass::White) {
            if start < i {
                let ghost before = parts@;
                let w = slice_string(spec, start, i);
                parts.push(w);
                proof {
                    assert(views(parts@) =~= views(before).push(w@));
                }
            }
            start = i + 1;
            proof {
                assert(spec@.subrange(start as int, i + 1) =~= Seq::<char>::empty());
            }
        } else {
            proof {
                assert(spec@.subrange(start as int, i + 1) =~= spec@.subrange(
                    start as int,
                    i as int,
                ).push(c));
            }
        }
        i += 1;
    }
    proof {
        assert(spec@.take(n as int) =~= spec@);
    }
    if start < n {
        let ghost before = parts@;
        let w = slice_string(spec, start, n);
        parts.push(w);
        proof {
            assert(views(parts@) =~= views(before).push(w@));
        }
    }
    parts
}

/// Another name for `path_arr`.
pub fn path(spec: &str) -> (parts: Vec<String>)
    ensures
        views(parts@) == words_of(spec@),
{
    path_arr(spec)
}

} // verus!
