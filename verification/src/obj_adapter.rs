//! Path handling of the object adapter: splitting `user.address.city` or
//! `users[0].name` into components, and splitting flat keys on a custom
//! separator.

use vstd::prelude::*;
use crate::text::{chars_of, join_with, lemma_join_cons, slice_string, views};

verus! {

/// Adapter settings: the separator of flat keys and whether `[i]` array
/// indices are recognised in paths.
#[derive(Debug, Clone, Default)]
pub struct ObjAdapterImpl {
    separator: String,
    array_support: bool,
}

/// `parts` with `current` appended when it is not empty.
pub open spec fn flush(parts: Seq<Seq<char>>, current: Seq<char>) -> Seq<Seq<char>> {
    if current.len() == 0 {
        parts
    } else {
        parts.push(current)
    }
}

/// The components of the rest `s` of a path, given the component `cur`
/// being read and whether the scan is inside `[...]`: `[` and `]` (with
/// array support) and the separator outside brackets end a component; any
/// other character extends it.
pub open spec fn parts_from(s: Seq<char>, sep: Seq<char>, arrays: bool, cur: Seq<char>, inb: bool) -> Seq<
    Seq<char>,
>
    decreases s.len(),
{
    if s.len() == 0 {
        flush(Seq::empty(), cur)
    } else if arrays && s[0] == '[' {
        flush(Seq::empty(), cur) + parts_from(s.drop_first(), sep, arrays, Seq::empty(), true)
    } else if arrays && s[0] == ']' {
        flush(Seq::empty(), cur) + parts_from(s.drop_first(), sep, arrays, Seq::empty(), false)
    } else if !inb && sep.len() > 0 && occurs_at(s, sep, 0) {
        flush(Seq::empty(), cur) + parts_from(
            s.skip(sep.len() as int),
            sep,
            arrays,
            Seq::empty(),
            inb,
        )
    } else {
        parts_from(s.drop_first(), sep, arrays, cur.push(s[0]), inb)
    }
}

/// The components of a path split on the separator `sep`: the non-empty
/// runs between delimiters.
pub open spec fn path_components(s: Seq<char>, sep: Seq<char>, arrays: bool) -> Seq<Seq<char>> {
    parts_from(s, sep, arrays, Seq::empty(), false)
}

/// Whether `sep` occurs in `s` starting at `j`.
pub open spec fn occurs_at(s: Seq<char>, sep: Seq<char>, j: int) -> bool {
    0 <= j && j + sep.len() <= s.len() && s.subrange(j, j + sep.len()) == sep
}

/// The first position where a non-empty `sep` occurs in `s`.
pub open spec fn first_occurrence(s: Seq<char>, sep: Seq<char>) -> Option<int>
    decreases s.len(),
{
    if s.len() < sep.len() || sep.len() == 0 {
        None
    } else if s.take(sep.len() as int) == sep {
        Some(0)
    } else {
        match first_occurrence(s.drop_first(), sep) {
            Some(i) => Some(i + 1),
            None => None,
        }
    }
}

/// `s` split at the non-overlapping occurrences of `sep`, leftmost first
/// (`str::split` with a string pattern). An empty separator matches at every
/// character boundary: an empty piece, each character, an empty piece.
pub open spec fn split_str(s: Seq<char>, sep: Seq<char>) -> Seq<Seq<char>>
    decreases s.len(),
{
    if sep.len() == 0 {
        seq![Seq::<char>::empty()] + Seq::new(s.len(), |i: int| seq![s[i]]) + seq![
            Seq::<char>::empty(),
        ]
    } else {
        match first_occurrence(s, sep) {
            None => seq![s],
            Some(i) => if 0 <= i && i + sep.len() <= s.len() {
                seq![s.take(i)] + split_str(s.skip(i + sep.len()), sep)
            } else {
                seq![s]
            },
        }
    }
}

pub proof fn lemma_first_occurrence(s: Seq<char>, sep: Seq<char>, k: int)
    requires
        sep.len() > 0,
        0 <= k,
        forall|j: int| 0 <= j < k ==> !occurs_at(s, sep, j),
    ensures
        occurs_at(s, sep, k) ==> first_occurrence(s, sep) == Some(k),
        k + sep.len() > s.len() ==> first_occurrence(s, sep) is None,
    decreases s.len(),
{
    if s.len() < sep.len() {
    } else if s.take(sep.len() as int) == sep {
        if k > 0 {
            assert(s.subrange(0, sep.len() as int) =~= s.take(sep.len() as int));
            assert(occurs_at(s, sep, 0));
        }
    } else {
        assert(!occurs_at(s, sep, 0)) by {
            assert(s.subrange(0, sep.len() as int) =~= s.take(sep.len() as int));
        }
        if k == 0 {
            assert(s.subrange(0, sep.len() as int) =~= s.take(sep.len() as int));
        } else {
            let t = s.drop_first();
            assert forall|j: int| 0 <= j < k - 1 implies !occurs_at(t, sep, j) by {
                if j + sep.len() <= t.len() {
                    assert(t.subrange(j, j + sep.len()) =~= s.subrange(j + 1, j + 1 + sep.len()));
                }
                assert(!occurs_at(s, sep, j + 1));
            }
            lemma_first_occurrence(t, sep, k - 1);
            if occurs_at(s, sep, k) {
                assert(t.subrange(k - 1, k - 1 + sep.len()) =~= s.subrange(k, k + sep.len()));
            }
        }
    }
}

/// Where a first occurrence is found, the separator occurs there.
pub proof fn lemma_first_occurrence_at(s: Seq<char>, sep: Seq<char>)
    ensures
        first_occurrence(s, sep) matches Some(i) ==> occurs_at(s, sep, i),
    decreases s.len(),
{
    if s.len() < sep.len() || sep.len() == 0 {
    } else if s.take(sep.len() as int) == sep {
        assert(s.subrange(0, sep.len() as int) =~= s.take(sep.len() as int));
    } else {
        let t = s.drop_first();
        lemma_first_occurrence_at(t, sep);
        if let Some(i) = first_occurrence(t, sep) {
            assert(s.subrange(i + 1, i + 1 + sep.len()) =~= t.subrange(i, i + sep.len()));
        }
    }
}

/// Splitting a text on a non-empty separator and joining the pieces with
/// it gives the text back.
pub proof fn lemma_split_str_join(s: Seq<char>, sep: Seq<char>)
    requires
        sep.len() > 0,
    ensures
        split_str(s, sep).len() >= 1,
        join_with(split_str(s, sep), sep) == s,
    decreases s.len(),
{
    lemma_first_occurrence_at(s, sep);
    match first_occurrence(s, sep) {
        None => {},
        Some(i) => {
            let rest = s.skip(i + sep.len());
            lemma_split_str_join(rest, sep);
            lemma_join_cons(s.take(i), split_str(rest, sep), sep);
            assert(s.subrange(i, i + sep.len()) == sep);
            assert(s.take(i) + sep + rest =~= s);
        },
    }
}

impl ObjAdapterImpl {
    /// The separator of flat keys.
    pub closed spec fn sep(&self) -> Seq<char> {
        self.separator@
    }

    /// Whether `[i]` indices are recognised in paths.
    pub closed spec fn arrays(&self) -> bool {
        self.array_support
    }

    /// The separator of flat keys.
    pub fn separator(&self) -> (r: &str)
        ensures
            r@ == self.sep(),
    {
        self.separator.as_str()
    }

    /// Whether `[i]` indices are recognised in paths.
    pub fn has_array_support(&self) -> (r: bool)
        ensures
            r == self.arrays(),
    {
        self.array_support
    }

    /// An adapter with separator `.` and array indices recognised.
    pub fn new() -> (a: Self)
        ensures
            a.sep() == "."@,
            a.arrays(),
    {
        ObjAdapterImpl { separator: String::from_str("."), array_support: true }
    }

    /// An adapter with the given separator and array indices recognised.
    pub fn with_separator(separator: &str) -> (a: Self)
        ensures
            a.sep() == separator@,
            a.arrays(),
    {
        ObjAdapterImpl { separator: String::from_str(separator), array_support: true }
    }

    /// The same adapter with array indices no longer recognised.
    pub fn without_array_support(self) -> (a: Self)
        ensures
            a.sep() == self.sep(),
            !a.arrays(),
    {
        let mut s = self;
        s.array_support = false;
        s
    }

    /// The components of `path` split on the adapter's separator:
    /// `user.address.city` gives `user`, `address`, `city`; with array
    /// support `users[0].name` gives `users`, `0`, `name`. Empty components
    /// are dropped.
    pub fn split_path(&self, path: &str) -> (parts: Vec<String>)
        ensures
            views(parts@) == path_components(path@, self.sep(), self.arrays()),
            forall|k: int| 0 <= k < parts@.len() ==> parts@[k]@.len() > 0,
    {
        let chars = chars_of(path);
        let pat = chars_of(self.separator.as_str());
        let n = chars.len();
        let m = pat.len();
        let arrays = self.array_support;
        let ghost sep = self.sep();
        let mut parts: Vec<String> = Vec::new();
        let mut start: usize = 0;
        let mut in_bracket = false;
        let mut i: usize = 0;
        proof {
            assert(path@.skip(0) =~= path@);
            assert(path@.subrange(0, 0) =~= Seq::<char>::empty());
            assert(views(parts@) =~= Seq::<Seq<char>>::empty());
            assert(views(parts@) + path_components(path@, sep, arrays) =~= path_components(
                path@,
                sep,
                arrays,
            ));
        }
        while i < n
            invariant
                n == chars@.len(),
                m == pat@.len(),
                chars@ == path@,
                pat@ == sep,
                sep == self.sep(),
                arrays == self.arrays(),
                start <= i <= n,
                path_components(path@, sep, arrays) == views(parts@) + parts_from(
                    path@.skip(i as int),
                    sep,
                    arrays,
                    path@.subrange(start as int, i as int),
                    in_bracket,
                ),
                forall|k: int| 0 <= k < parts@.len() ==> parts@[k]@.len() > 0,
            decreases n - i,
        {
            let c = chars[i];
            let ghost rest = path@.skip(i as int);
            let ghost cur = path@.subrange(start as int, i as int);
            proof {
                assert(rest[0] == c);
                assert(rest.drop_first() =~= path@.skip(i + 1));
            }
            let open = arrays && c == '[';
            let close = arrays && c == ']';
            let at_sep = !open && !close && !in_bracket && m > 0 && occurs_in(&chars, &pat, i);
            if open || close || at_sep {
                let ghost before = parts@;
                if start < i {
                    let piece = slice_string(path, start, i);
                    parts.push(piece);
                    proof {
                        assert(views(parts@) =~= views(before).push(piece@));
                    }
                }
                proof {
                    assert(views(parts@) =~= views(before) + flush(Seq::empty(), cur));
                }
                let step: usize = if at_sep {
                    m
                } else {
                    1
                };
                if open {
                    in_bracket = true;
                } else if close {
                    in_bracket = false;
                }
                proof {
                    if at_sep {
                        assert(occurs_at(rest, sep, 0)) by {
                            assert(rest.subrange(0, m as int) =~= path@.subrange(i as int, i + m));
                        }
                        assert(rest.skip(m as int) =~= path@.skip(i + m));
                    }
                    assert(path@.subrange((i + step) as int, (i + step) as int) =~= Seq::<char>::empty());
                    assert(views(before) + (flush(Seq::empty(), cur) + parts_from(
                        path@.skip(i + step),
                        sep,
                        arrays,
                        Seq::empty(),
                        in_bracket,
                    )) =~= views(parts@) + parts_from(
                        path@.skip(i + step),
                        sep,
                        arrays,
                        Seq::empty(),
                        in_bracket,
                    ));
                }
                i = i + step;
                start = i;
            } else {
                proof {
                    if !in_bracket && m > 0 {
                        assert(!occurs_at(rest, sep, 0)) by {
                            if occurs_at(rest, sep, 0) {
                                assert(rest.subrange(0, m as int) =~= path@.subrange(
                                    i as int,
                                    i + m,
                                ));
                            }
                        }
                    }
                    assert(path@.subrange(start as int, i + 1) =~= cur.push(c));
                }
                i += 1;
            }
        }
        proof {
            assert(path@.skip(n as int) =~= Seq::<char>::empty());
        }
        if start < n {
            let ghost before = parts@;
            let piece = slice_string(path, start, n);
            parts.push(piece);
            proof {
                assert(views(parts@) =~= views(before).push(piece@));
                assert(views(parts@) =~= views(before) + flush(
                    Seq::empty(),
                    path@.subrange(start as int, n as int),
                ));
            }
        } else {
            proof {
                assert(views(parts@) =~= views(parts@) + flush(
                    Seq::empty(),
                    path@.subrange(start as int, n as int),
                ));
            }
        }
        parts
    }

    /// The pieces of a flat key split on the adapter's separator
    /// (`str::split` semantics, empty pieces kept).
    pub fn get_path_components(&self, path: &str) -> (parts: Vec<String>)
        ensures
            views(parts@) == split_str(path@, self.sep()),
    {
        split_on_str(path, self.separator.as_str())
    }
}

/// Whether `pat` occurs in `chars` at position `i`.
fn occurs_in(chars: &Vec<char>, pat: &Vec<char>, i: usize) -> (r: bool)
    ensures
        r == occurs_at(chars@, pat@, i as int),
{
    let n = chars.len();
    let m = pat.len();
    if i > n || m > n - i {
        return false;
    }
    let mut k: usize = 0;
    while k < m
        invariant
            n == chars@.len(),
            m == pat@.len(),
            i + m <= n,
            k <= m,
            chars@.subrange(i as int, i + k) == pat@.take(k as int),
        decreases m - k,
    {
        if chars[i + k] != pat[k] {
            proof {
                if occurs_at(chars@, pat@, i as int) {
                    assert(chars@.subrange(i as int, i + m)[k as int] == chars@[i + k]);
                }
            }
            return false;
        }
        proof {
            assert(chars@.subrange(i as int, i + k + 1) =~= pat@.take(k + 1));
        }
        k += 1;
    }
    proof {
        assert(pat@.take(m as int) =~= pat@);
    }
    true
}

/// `s` split at the non-overlapping occurrences of `sep`, leftmost first.
pub fn split_on_str(s: &str, sep: &str) -> (parts: Vec<String>)
    ensures
        views(parts@) == split_str(s@, sep@),
{
    let chars = chars_of(s);
    let pat = chars_of(sep);
    let n = chars.len();
    let m = pat.len();
    let mut parts: Vec<String> = Vec::new();
    if m == 0 {
        parts.push(String::new());
        let mut i: usize = 0;
        while i < n
            invariant
                n == chars@.len(),
                chars@ == s@,
                i <= n,
                views(parts@) == seq![Seq::<char>::empty()] + Seq::new(
                    i as nat,
                    |j: int| seq![s@[j]],
                ),
            decreases n - i,
        {
            let ghost before = parts@;
            let piece = slice_string(s, i, i + 1);
            parts.push(piece);
            proof {
                assert(piece@ =~= seq![s@[i as int]]);
                assert(views(parts@) =~= views(before).push(piece@));
                assert(views(parts@) =~= seq![Seq::<char>::empty()] + Seq::new(
                    (i + 1) as nat,
                    |j: int| seq![s@[j]],
                ));
            }
            i += 1;
        }
        let ghost before = parts@;
        parts.push(String::new());
        proof {
            assert(views(parts@) =~= views(before).push(Seq::<char>::empty()));
            assert(views(parts@) =~= split_str(s@, sep@));
        }
        return parts;
    }
    let mut start: usize = 0;
    let mut i: usize = 0;
    proof {
        assert(s@.skip(0) =~= s@);
        assert(views(parts@) =~= Seq::<Seq<char>>::empty());
        assert(views(parts@) + split_str(s@.skip(0), sep@) =~= split_str(s@, sep@));
    }
    while m <= n - i
        invariant
            n == chars@.len(),
            m == pat@.len(),
            chars@ == s@,
            pat@ == sep@,
            m > 0,
            start <= i <= n,
            split_str(s@, sep@) == views(parts@) + split_str(s@.skip(start as int), sep@),
            forall|j: int| 0 <= j < i - start ==> !occurs_at(s@.skip(start as int), sep@, j),
        decreases n - i,
    {
        let mut k: usize = 0;
        let mut same = true;
        proof {
            assert(chars@.subrange(i as int, i as int) =~= pat@.take(0));
        }
        while k < m
            invariant
                n == chars@.len(),
                m == pat@.len(),
                i <= n,
                m <= n - i,
                k <= m,
                same == (chars@.subrange(i as int, i + k) == pat@.take(k as int)),
            decreases m - k,
        {
            let ghost was = same;
            if chars[i + k] != pat[k] {
                same = false;
            }
            proof {
                let a = chars@.subrange(i as int, i + k + 1);
                let b = pat@.take(k + 1);
                assert(a.take(k as int) =~= chars@.subrange(i as int, i + k));
                assert(b.take(k as int) =~= pat@.take(k as int));
                assert(a[k as int] == chars@[i + k]);
                assert(b[k as int] == pat@[k as int]);
                if was && chars@[i + k] == pat@[k as int] {
                    assert(a =~= b);
                }
            }
            k += 1;
        }
        let ghost t = s@.skip(start as int);
        proof {
            assert(pat@.take(m as int) =~= pat@);
            assert(t.subrange(i - start, i - start + m) =~= chars@.subrange(i as int, i + m));
        }
        if same {
            proof {
                lemma_first_occurrence(t, sep@, i - start);
                assert(t.take(i - start) =~= s@.subrange(start as int, i as int));
                assert(t.skip(i - start + m) =~= s@.skip(i + m));
            }
            let ghost before = parts@;
            let piece = slice_string(s, start, i);
            parts.push(piece);
            proof {
                assert(views(parts@) =~= views(before).push(piece@));
                assert(views(parts@) + split_str(s@.skip(i + m), sep@) =~= views(before) + (seq![
                    piece@,
                ] + split_str(s@.skip(i + m), sep@)));
            }
            i = i + m;
            start = i;
        } else {
            i = i + 1;
        }
    }
    let ghost t = s@.skip(start as int);
    proof {
        lemma_first_occurrence(t, sep@, i - start);
        assert(t =~= s@.subrange(start as int, n as int));
    }
    let ghost before = parts@;
    let last = slice_string(s, start, n);
    parts.push(last);
    proof {
        assert(views(parts@) =~= views(before).push(last@));
        assert(views(parts@) =~= views(before) + seq![last@]);
    }
    parts
}

/// Position of the first occurrence of a non-empty `pat` in `s`.
pub fn find_str(s: &str, pat: &str) -> (r: Option<usize>)
    requires
        pat@.len() > 0,
    ensures
        r matches Some(i) ==> first_occurrence(s@, pat@) == Some(i as int),
        r is None ==> first_occurrence(s@, pat@) is None,
{
    let chars = chars_of(s);
    let pc = chars_of(pat);
    let n = chars.len();
    let m = pc.len();
    let mut i: usize = 0;
    while m <= n - i
        invariant
            n == chars@.len(),
            m == pc@.len(),
            chars@ == s@,
            pc@ == pat@,
            m > 0,
            i <= n,
            forall|j: int| 0 <= j < i ==> !occurs_at(s@, pat@, j),
        decreases n - i,
    {
        let mut k: usize = 0;
        let mut same = true;
        proof {
            assert(chars@.subrange(i as int, i as int) =~= pc@.take(0));
        }
        while k < m
            invariant
                n == chars@.len(),
                m == pc@.len(),
                i <= n,
                m <= n - i,
                k <= m,
                same == (chars@.subrange(i as int, i + k) == pc@.take(k as int)),
            decreases m - k,
        {
            let ghost was = same;
            if chars[i + k] != pc[k] {
                same = false;
            }
            proof {
                let a = chars@.subrange(i as int, i + k + 1);
                let b = pc@.take(k + 1);
                assert(a.take(k as int) =~= chars@.subrange(i as int, i + k));
                assert(b.take(k as int) =~= pc@.take(k as int));
                assert(a[k as int] == chars@[i + k]);
                assert(b[k as int] == pc@[k as int]);
                if was && chars@[i + k] == pc@[k as int] {
                    assert(a =~= b);
                }
            }
            k += 1;
        }
        proof {
            assert(pc@.take(m as int) =~= pc@);
        }
        if same {
            proof {
                lemma_first_occurrence(s@, pat@, i as int);
            }
            return Some(i);
        }
        i = i + 1;
    }
    proof {
        lemma_first_occurrence(s@, pat@, i as int);
    }
    None
}

} // verus!
