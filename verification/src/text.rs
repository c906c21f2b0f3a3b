//! Character-level text helpers shared by the parsers and registries:
//! splitting, joining, trimming and searching over `Seq<char>` models.

use vstd::prelude::*;

verus! {

// ---------------------------------------------------------------------------
// Models
// ---------------------------------------------------------------------------

/// The character views of a sequence of strings.
pub open spec fn views(v: Seq<String>) -> Seq<Seq<char>> {
    Seq::new(v.len(), |i: int| v[i]@)
}

/// `s` split at every occurrence of `sep`; empty pieces are kept, so the
/// result always has one more piece than `s` has separators.
pub open spec fn split_on(s: Seq<char>, sep: char) -> Seq<Seq<char>>
    decreases s.len(),
{
    if s.len() == 0 {
        seq![Seq::<char>::empty()]
    } else if s[0] == sep {
        seq![Seq::<char>::empty()] + split_on(s.drop_first(), sep)
    } else {
        let rest = split_on(s.drop_first(), sep);
        rest.update(0, seq![s[0]] + rest[0])
    }
}

/// The pieces of `parts` glued together with `sep` between consecutive pieces.
pub open spec fn join_with(parts: Seq<Seq<char>>, sep: Seq<char>) -> Seq<char>
    decreases parts.len(),
{
    if parts.len() == 0 {
        Seq::empty()
    } else if parts.len() == 1 {
        parts[0]
    } else {
        join_with(parts.drop_last(), sep) + sep + parts.last()
    }
}

/// `c` does not occur in `s`.
pub open spec fn lacks(s: Seq<char>, c: char) -> bool {
    forall|i: int| 0 <= i < s.len() ==> s[i] != c
}

/// Index of the first occurrence of `c` in `s`, if any.
pub open spec fn first_index_of(s: Seq<char>, c: char) -> Option<int>
    decreases s.len(),
{
    if s.len() == 0 {
        None
    } else if s[0] == c {
        Some(0)
    } else {
        match first_index_of(s.drop_first(), c) {
            Some(i) => Some(i + 1),
            None => None,
        }
    }
}


/// Number of bytes `c` takes in UTF-8.
pub open spec fn utf8_width(c: char) -> nat {
    if (c as u32) < 0x80 {
        1
    } else if (c as u32) < 0x800 {
        2
    } else if (c as u32) < 0x10000 {
        3
    } else {
        4
    }
}

/// Number of bytes of `s` in UTF-8 (what `str::len` reports).
pub open spec fn byte_len(s: Seq<char>) -> nat
    decreases s.len(),
{
    if s.len() == 0 {
        0
    } else {
        byte_len(s.drop_last()) + utf8_width(s.last())
    }
}

/// The characters that make up the first `k` bytes of `s`, or `None` when byte
/// `k` falls inside a character or past the end (where `&s[..k]` panics).
pub open spec fn byte_prefix(s: Seq<char>, k: nat) -> Option<Seq<char>>
    decreases s.len(),
{
    if k == 0 {
        Some(Seq::empty())
    } else if s.len() == 0 {
        None
    } else if utf8_width(s[0]) > k {
        None
    } else {
        match byte_prefix(s.drop_first(), (k - utf8_width(s[0])) as nat) {
            Some(p) => Some(seq![s[0]] + p),
            None => None,
        }
    }
}


/// Classes of characters that trimming removes.
#[derive(Clone, Copy)]
pub enum TrimClass {
    /// Unicode white space (what `char::is_whitespace` tests).
    White,
    /// One given character.
    Only(char),
    /// Square brackets and white space.
    BracketOrWhite,
    /// Everything but white space.
    NonWhite,
}

/// The Unicode `White_Space` property.
pub open spec fn is_white(c: char) -> bool {
    let u = c as u32;
    ||| 0x9 <= u <= 0xD
    ||| u == 0x20
    ||| u == 0x85
    ||| u == 0xA0
    ||| u == 0x1680
    ||| 0x2000 <= u <= 0x200A
    ||| u == 0x2028
    ||| u == 0x2029
    ||| u == 0x202F
    ||| u == 0x205F
    ||| u == 0x3000
}

/// Whether `c` belongs to the class `cls`.
pub open spec fn in_class(c: char, cls: TrimClass) -> bool {
    match cls {
        TrimClass::White => is_white(c),
        TrimClass::Only(x) => c == x,
        TrimClass::BracketOrWhite => c == '[' || c == ']' || is_white(c),
        TrimClass::NonWhite => !is_white(c),
    }
}

/// How many characters at the start of `s` belong to `cls`.
pub open spec fn lead_count(s: Seq<char>, cls: TrimClass) -> nat
    decreases s.len(),
{
    if s.len() > 0 && in_class(s[0], cls) {
        1 + lead_count(s.drop_first(), cls)
    } else {
        0
    }
}

/// How many characters at the end of `s` belong to `cls`.
pub open spec fn trail_count(s: Seq<char>, cls: TrimClass) -> nat
    decreases s.len(),
{
    if s.len() > 0 && in_class(s.last(), cls) {
        1 + trail_count(s.drop_last(), cls)
    } else {
        0
    }
}

/// `s` without its leading characters of class `cls`.
pub open spec fn trim_start_of(s: Seq<char>, cls: TrimClass) -> Seq<char> {
    s.skip(lead_count(s, cls) as int)
}

/// `s` without its trailing characters of class `cls`.
pub open spec fn trim_end_of(s: Seq<char>, cls: TrimClass) -> Seq<char> {
    s.take(s.len() - trail_count(s, cls))
}

/// `s` without leading and trailing characters of class `cls` (`str::trim`
/// for white space, `str::trim_matches` for the others).
pub open spec fn trim_of(s: Seq<char>, cls: TrimClass) -> Seq<char> {
    trim_end_of(trim_start_of(s, cls), cls)
}

/// `s` ends with `p`.
pub open spec fn has_suffix(s: Seq<char>, p: Seq<char>) -> bool {
    p.len() <= s.len() && s.skip(s.len() - p.len()) == p
}

/// `s` begins with `p`.
pub open spec fn has_prefix(s: Seq<char>, p: Seq<char>) -> bool {
    p.len() <= s.len() && s.take(p.len() as int) == p
}

// ---------------------------------------------------------------------------
// Lemmas
// ---------------------------------------------------------------------------

pub proof fn lemma_split_len(s: Seq<char>, sep: char)
    ensures
        split_on(s, sep).len() >= 1,
    decreases s.len(),
{
    if s.len() > 0 {
        lemma_split_len(s.drop_first(), sep);
    }
}

/// A piece with no separator, followed by a separator, comes off the front.
pub proof fn lemma_split_front(t: Seq<char>, sep: char, m: int)
    requires
        0 <= m < t.len(),
        lacks(t.take(m), sep),
        t[m] == sep,
    ensures
        split_on(t, sep) == seq![t.take(m)] + split_on(t.skip(m + 1), sep),
    decreases m,
{
    if m == 0 {
        assert(t.take(0) =~= Seq::<char>::empty());
        assert(t.skip(1) =~= t.drop_first());
    } else {
        let t2 = t.drop_first();
        assert(t2.take(m - 1) =~= t.take(m).drop_first());
        assert(lacks(t2.take(m - 1), sep));
        lemma_split_front(t2, sep, m - 1);
        assert(t2.skip(m) =~= t.skip(m + 1));
        assert(t.take(m)[0] == t[0]);
        assert(seq![t[0]] + t2.take(m - 1) =~= t.take(m));
        lemma_split_len(t2, sep);
        assert(split_on(t, sep) =~= seq![t.take(m)] + split_on(t.skip(m + 1), sep));
    }
}

/// Text without a separator is a single piece.
pub proof fn lemma_split_whole(t: Seq<char>, sep: char)
    requires
        lacks(t, sep),
    ensures
        split_on(t, sep) == seq![t],
    decreases t.len(),
{
    if t.len() == 0 {
        assert(t =~= Seq::<char>::empty());
        assert(split_on(t, sep) =~= seq![t]);
    } else {
        assert(t[0] != sep);
        assert forall|j: int| 0 <= j < t.drop_first().len() implies #[trigger] t.drop_first()[j] != sep by {
            assert(t.drop_first()[j] == t[j + 1]);
        }
        lemma_split_whole(t.drop_first(), sep);
        assert(seq![t[0]] + t.drop_first() =~= t);
        assert(split_on(t, sep) =~= seq![t]);
    }
}

/// No piece of a split contains the separator.
pub proof fn lemma_split_pieces_lack(s: Seq<char>, sep: char)
    ensures
        forall|i: int| 0 <= i < split_on(s, sep).len() ==> lacks(#[trigger] split_on(s, sep)[i], sep),
    decreases s.len(),
{
    lemma_split_len(s, sep);
    if s.len() > 0 {
        lemma_split_pieces_lack(s.drop_first(), sep);
        lemma_split_len(s.drop_first(), sep);
        if s[0] != sep {
            let rest = split_on(s.drop_first(), sep);
            assert forall|i: int| 0 <= i < split_on(s, sep).len() implies lacks(
                #[trigger] split_on(s, sep)[i],
                sep,
            ) by {
                if i == 0 {
                    assert(lacks(rest[0], sep));
                }
            }
        } else {
            assert forall|i: int| 0 <= i < split_on(s, sep).len() implies lacks(
                #[trigger] split_on(s, sep)[i],
                sep,
            ) by {
                if i > 0 {
                    assert(split_on(s, sep)[i] == split_on(s.drop_first(), sep)[i - 1]);
                }
            }
        }
    }
}

/// Joining the pieces of a split with the separator gives the text back.
pub proof fn lemma_join_split(s: Seq<char>, sep: char)
    ensures
        join_with(split_on(s, sep), seq![sep]) == s,
    decreases s.len(),
{
    let parts = split_on(s, sep);
    if s.len() == 0 {
        assert(join_with(parts, seq![sep]) =~= s);
    } else {
        let rest = split_on(s.drop_first(), sep);
        lemma_join_split(s.drop_first(), sep);
        lemma_split_len(s.drop_first(), sep);
        if s[0] == sep {
            lemma_join_cons(Seq::<char>::empty(), rest, seq![sep]);
            assert(parts =~= seq![Seq::<char>::empty()] + rest);
            assert(Seq::<char>::empty() + seq![sep] + s.drop_first() =~= s);
        } else {
            lemma_join_head(rest, seq![s[0]], seq![sep]);
            assert(seq![s[0]] + s.drop_first() =~= s);
        }
    }
}

/// Joining a non-empty front piece onto the rest.
pub proof fn lemma_join_cons(head: Seq<char>, rest: Seq<Seq<char>>, sep: Seq<char>)
    requires
        rest.len() >= 1,
    ensures
        join_with(seq![head] + rest, sep) == head + sep + join_with(rest, sep),
    decreases rest.len(),
{
    let all = seq![head] + rest;
    if rest.len() == 1 {
        assert(all.drop_last() =~= seq![head]);
        assert(all.last() == rest[0]);
        assert(join_with(seq![head], sep) == head);
        assert(join_with(rest, sep) == rest[0]);
    } else {
        assert(all.drop_last() =~= seq![head] + rest.drop_last());
        lemma_join_cons(head, rest.drop_last(), sep);
        assert(head + sep + join_with(rest.drop_last(), sep) + sep + rest.last() =~= head + sep + (
        join_with(rest.drop_last(), sep) + sep + rest.last()));
    }
}

/// Prepending characters to the first piece prepends them to the join.
pub proof fn lemma_join_head(parts: Seq<Seq<char>>, pre: Seq<char>, sep: Seq<char>)
    requires
        parts.len() >= 1,
    ensures
        join_with(parts.update(0, pre + parts[0]), sep) == pre + join_with(parts, sep),
    decreases parts.len(),
{
    let upd = parts.update(0, pre + parts[0]);
    if parts.len() == 1 {
    } else {
        assert(upd.drop_last() =~= parts.drop_last().update(0, pre + parts.drop_last()[0]));
        lemma_join_head(parts.drop_last(), pre, sep);
        assert(pre + join_with(parts.drop_last(), sep) + sep + parts.last() =~= pre + (join_with(
            parts.drop_last(),
            sep,
        ) + sep + parts.last()));
    }
}

/// Splitting text made of `a`, a separator and `b` gives the pieces of `a`
/// followed by the pieces of `b`.
pub proof fn lemma_split_concat(a: Seq<char>, b: Seq<char>, sep: char)
    ensures
        split_on(a + seq![sep] + b, sep) == split_on(a, sep) + split_on(b, sep),
    decreases a.len(),
{
    let s = a + seq![sep] + b;
    if a.len() == 0 {
        assert(s =~= seq![sep] + b);
        assert(s.drop_first() =~= b);
    } else {
        let a2 = a.drop_first();
        assert(s.drop_first() =~= a2 + seq![sep] + b);
        lemma_split_concat(a2, b, sep);
        lemma_split_len(a2, sep);
        if a[0] == sep {
            assert(split_on(s, sep) =~= split_on(a, sep) + split_on(b, sep));
        } else {
            let r1 = split_on(a2, sep);
            let r2 = split_on(b, sep);
            assert((r1 + r2).update(0, seq![a[0]] + (r1 + r2)[0]) =~= r1.update(
                0,
                seq![a[0]] + r1[0],
            ) + r2);
        }
    }
}

/// Where `c` first occurs at `p`, `first_index_of` finds `p`.
pub proof fn lemma_first_index_at(s: Seq<char>, c: char, p: int)
    requires
        0 <= p < s.len(),
        s[p] == c,
        forall|j: int| 0 <= j < p ==> s[j] != c,
    ensures
        first_index_of(s, c) == Some(p),
    decreases p,
{
    if p > 0 {
        assert forall|j: int| 0 <= j < p - 1 implies s.drop_first()[j] != c by {
            assert(s.drop_first()[j] == s[j + 1]);
        }
        lemma_first_index_at(s.drop_first(), c, p - 1);
    }
}

/// Text whose first and last characters are not white space is its own
/// trim.
pub proof fn lemma_trim_ends_kept(s: Seq<char>)
    requires
        s.len() > 0,
        !is_white(s[0]),
        !is_white(s.last()),
    ensures
        trim_of(s, TrimClass::White) == s,
{
    lemma_lead_count_exact(s, TrimClass::White, 0);
    assert(s.skip(0) =~= s);
    lemma_trail_count_exact(s, TrimClass::White, 0);
    assert(s.take(s.len() as int) =~= s);
}

pub proof fn lemma_first_index_of(s: Seq<char>, c: char)
    ensures
        match first_index_of(s, c) {
            Some(i) => 0 <= i < s.len() && s[i] == c && lacks(s.take(i), c),
            None => lacks(s, c),
        },
    decreases s.len(),
{
    if s.len() > 0 {
        lemma_first_index_of(s.drop_first(), c);
        match first_index_of(s.drop_first(), c) {
            Some(i) => {
                if s[0] != c {
                    assert forall|j: int| 0 <= j < i + 1 implies #[trigger] s.take(i + 1)[j] != c by {
                        if j > 0 {
                            assert(s.take(i + 1)[j] == s.drop_first().take(i)[j - 1]);
                        }
                    }
                }
            },
            None => {
                if s[0] != c {
                    assert forall|j: int| 0 <= j < s.len() implies #[trigger] s[j] != c by {
                        if j > 0 {
                            assert(s[j] == s.drop_first()[j - 1]);
                        }
                    }
                }
            },
        }
    }
}


pub proof fn lemma_byte_len_prefix(s: Seq<char>, i: int)
    requires
        0 <= i <= s.len(),
    ensures
        byte_len(s.take(i)) <= byte_len(s),
    decreases s.len() - i,
{
    if i < s.len() {
        assert(s.take(i + 1).drop_last() =~= s.take(i));
        lemma_byte_len_prefix(s, i + 1);
    } else {
        assert(s.take(i) =~= s);
    }
}


pub proof fn lemma_lead_count(s: Seq<char>, cls: TrimClass)
    ensures
        lead_count(s, cls) <= s.len(),
        forall|i: int| 0 <= i < lead_count(s, cls) ==> in_class(#[trigger] s[i], cls),
        lead_count(s, cls) < s.len() ==> !in_class(s[lead_count(s, cls) as int], cls),
    decreases s.len(),
{
    if s.len() > 0 && in_class(s[0], cls) {
        lemma_lead_count(s.drop_first(), cls);
        assert forall|i: int| 0 <= i < lead_count(s, cls) implies in_class(#[trigger] s[i], cls) by {
            if i > 0 {
                assert(s[i] == s.drop_first()[i - 1]);
            }
        }
    }
}

pub proof fn lemma_trail_count(s: Seq<char>, cls: TrimClass)
    ensures
        trail_count(s, cls) <= s.len(),
        forall|i: int|
            s.len() - trail_count(s, cls) <= i < s.len() ==> in_class(#[trigger] s[i], cls),
        trail_count(s, cls) < s.len() ==> !in_class(s[s.len() - trail_count(s, cls) - 1], cls),
    decreases s.len(),
{
    if s.len() > 0 && in_class(s.last(), cls) {
        lemma_trail_count(s.drop_last(), cls);
        assert forall|i: int|
            s.len() - trail_count(s, cls) <= i < s.len() implies in_class(#[trigger] s[i], cls) by {
            if i < s.len() - 1 {
                assert(s[i] == s.drop_last()[i]);
            }
        }
    }
}

/// A run of class characters at the front is exactly what `lead_count` counts.
pub proof fn lemma_lead_count_exact(s: Seq<char>, cls: TrimClass, k: int)
    requires
        0 <= k <= s.len(),
        forall|i: int| 0 <= i < k ==> in_class(#[trigger] s[i], cls),
        k < s.len() ==> !in_class(s[k], cls),
    ensures
        lead_count(s, cls) == k,
    decreases k,
{
    if k > 0 {
        assert forall|i: int| 0 <= i < k - 1 implies in_class(#[trigger] s.drop_first()[i], cls) by {
            assert(s.drop_first()[i] == s[i + 1]);
        }
        lemma_lead_count_exact(s.drop_first(), cls, k - 1);
    }
}

/// A run of class characters at the end is exactly what `trail_count` counts.
pub proof fn lemma_trail_count_exact(s: Seq<char>, cls: TrimClass, k: int)
    requires
        0 <= k <= s.len(),
        forall|i: int| s.len() - k <= i < s.len() ==> in_class(#[trigger] s[i], cls),
        k < s.len() ==> !in_class(s[s.len() - k - 1], cls),
    ensures
        trail_count(s, cls) == k,
    decreases k,
{
    if k > 0 {
        assert forall|i: int|
            s.drop_last().len() - (k - 1) <= i < s.drop_last().len() implies in_class(
            #[trigger] s.drop_last()[i],
            cls,
        ) by {
            assert(s.drop_last()[i] == s[i]);
        }
        lemma_trail_count_exact(s.drop_last(), cls, k - 1);
    }
}

// ---------------------------------------------------------------------------
// Executable helpers
// ---------------------------------------------------------------------------

/// The characters of `s`.
pub fn chars_of(s: &str) -> (v: Vec<char>)
    ensures
        v@ == s@,
{
    let n = s.unicode_len();
    let mut v: Vec<char> = Vec::new();
    let mut i: usize = 0;
    while i < n
        invariant
            i <= n,
            n == s@.len(),
            v@ == s@.take(i as int),
        decreases n - i,
    {
        v.push(s.get_char(i));
        i += 1;
        proof {
            assert(v@ =~= s@.take(i as int));
        }
    }
    proof {
        assert(s@.take(n as int) =~= s@);
    }
    v
}

/// A new string holding the characters `from .. to` of `s`.
pub fn slice_string(s: &str, from: usize, to: usize) -> (r: String)
    requires
        from <= to <= s@.len(),
    ensures
        r@ == s@.subrange(from as int, to as int),
{
    String::from_str(s.substring_char(from, to))
}

/// Index of the first occurrence of `c` in `s`.
pub fn find_char(s: &str, c: char) -> (r: Option<usize>)
    ensures
        r matches Some(i) ==> first_index_of(s@, c) == Some(i as int),
        r is None ==> first_index_of(s@, c) is None,
{
    let chars = chars_of(s);
    let mut i: usize = 0;
    proof {
        lemma_first_index_of(s@, c);
    }
    while i < chars.len()
        invariant
            i <= chars@.len(),
            chars@ == s@,
            lacks(s@.take(i as int), c),
        decreases chars@.len() - i,
    {
        if chars[i] == c {
            proof {
                lemma_first_index_of(s@, c);
                match first_index_of(s@, c) {
                    Some(k) => {
                        if k < i {
                            assert(s@.take(i as int)[k] == c);
                        } else if k > i {
                            assert(s@.take(k)[i as int] == c);
                        }
                    },
                    None => {
                        assert(s@[i as int] == c);
                    },
                }
            }
            return Some(i);
        }
        proof {
            assert forall|j: int| 0 <= j < i + 1 implies #[trigger] s@.take(i + 1)[j] != c by {
                if j < i {
                    assert(s@.take(i + 1)[j] == s@.take(i as int)[j]);
                }
            }
        }
        i += 1;
    }
    proof {
        assert(s@.take(s@.len() as int) =~= s@);
        match first_index_of(s@, c) {
            Some(k) => {
                assert(s@[k] == c);
            },
            None => {},
        }
    }
    None
}

/// `s` split at every occurrence of `sep`, keeping empty pieces.
pub fn split_char(s: &str, sep: char) -> (parts: Vec<String>)
    ensures
        views(parts@) == split_on(s@, sep),
{
    let chars = chars_of(s);
    let n = chars.len();
    let mut parts: Vec<String> = Vec::new();
    let mut start: usize = 0;
    let mut i: usize = 0;
    proof {
        assert(s@.skip(0) =~= s@);
        assert(views(parts@) =~= Seq::<Seq<char>>::empty());
        assert(split_on(s@, sep) =~= views(parts@) + split_on(s@.skip(0), sep));
        assert(s@.subrange(0, 0) =~= Seq::<char>::empty());
    }
    while i < n
        invariant
            start <= i <= n,
            n == s@.len(),
            chars@ == s@,
            split_on(s@, sep) == views(parts@) + split_on(s@.skip(start as int), sep),
            lacks(s@.subrange(start as int, i as int), sep),
        decreases n - i,
    {
        if chars[i] == sep {
            let piece = slice_string(s, start, i);
            proof {
                let t = s@.skip(start as int);
                assert(t.take(i - start) =~= s@.subrange(start as int, i as int));
                lemma_split_front(t, sep, i - start);
                assert(t.skip(i - start + 1) =~= s@.skip(i + 1));
            }
            let ghost old_parts = parts@;
            parts.push(piece);
            proof {
                assert(views(parts@) =~= views(old_parts).push(piece@));
                assert(views(old_parts) + split_on(s@.skip(start as int), sep) =~= views(parts@)
                    + split_on(s@.skip(i + 1), sep));
            }
            start = i + 1;
            proof {
                assert(s@.subrange(start as int, start as int) =~= Seq::<char>::empty());
            }
        } else {
            proof {
                assert forall|j: int| 0 <= j < i + 1 - start implies #[trigger] s@.subrange(
                    start as int,
                    i + 1,
                )[j] != sep by {
                    if j < i - start {
                        assert(s@.subrange(start as int, i + 1)[j] == s@.subrange(
                            start as int,
                            i as int,
                        )[j]);
                    }
                }
            }
        }
        i += 1;
    }
    let last = slice_string(s, start, n);
    proof {
        assert(s@.skip(start as int) =~= s@.subrange(start as int, n as int));
        lemma_split_whole(s@.skip(start as int), sep);
    }
    let ghost old_parts = parts@;
    parts.push(last);
    proof {
        assert(views(parts@) =~= views(old_parts).push(last@));
        assert(views(parts@) =~= split_on(s@, sep));
    }
    parts
}

/// The strings of `parts` glued together with `sep` between them.
pub fn join_strings(parts: &Vec<String>, sep: &str) -> (r: String)
    ensures
        r@ == join_with(views(parts@), sep@),
{
    let mut r = String::new();
    let mut i: usize = 0;
    while i < parts.len()
        invariant
            i <= parts@.len(),
            r@ == join_with(views(parts@).take(i as int), sep@),
        decreases parts@.len() - i,
    {
        let ghost prev = views(parts@).take(i as int);
        if i > 0 {
            r.append(sep);
        }
        r.append(parts[i].as_str());
        proof {
            let next = views(parts@).take(i + 1);
            assert(next.drop_last() =~= prev);
            if i == 0 {
                assert(prev =~= Seq::<Seq<char>>::empty());
                assert(r@ =~= next[0]);
            }
        }
        i += 1;
    }
    proof {
        assert(views(parts@).take(parts@.len() as int) =~= views(parts@));
    }
    r
}


/// Number of bytes `c` takes in UTF-8.
pub fn char_width(c: char) -> (w: usize)
    ensures
        w == utf8_width(c),
{
    let u = c as u32;
    if u < 0x80 {
        1
    } else if u < 0x800 {
        2
    } else if u < 0x10000 {
        3
    } else {
        4
    }
}

/// How many characters make up the first `k` bytes of `chars`, if byte `k`
/// falls between two characters.
pub fn byte_prefix_count(chars: &Vec<char>, k: usize) -> (r: Option<usize>)
    ensures
        r matches Some(m) ==> m <= chars@.len() && byte_prefix(chars@, k as nat) == Some(
            chars@.take(m as int),
        ),
        r is None ==> byte_prefix(chars@, k as nat) is None,
{
    let mut acc: usize = 0;
    let mut m: usize = 0;
    proof {
        assert(chars@.skip(0) =~= chars@);
        match byte_prefix(chars@, k as nat) {
            Some(p) => {
                assert(chars@.take(0) + p =~= p);
            },
            None => {},
        }
    }
    while acc < k
        invariant
            acc <= k,
            m <= chars@.len(),
            byte_prefix(chars@, k as nat) == (match byte_prefix(
                chars@.skip(m as int),
                (k - acc) as nat,
            ) {
                Some(p) => Some(chars@.take(m as int) + p),
                None => None,
            }),
        decreases k - acc,
    {
        if m == chars.len() {
            return None;
        }
        let w = char_width(chars[m]);
        if w > k - acc {
            return None;
        }
        proof {
            let t = chars@.skip(m as int);
            assert(t.drop_first() =~= chars@.skip(m + 1));
            assert(t[0] == chars@[m as int]);
            assert(chars@.take(m as int) + seq![t[0]] =~= chars@.take(m + 1));
            match byte_prefix(chars@.skip(m + 1), (k - acc - w) as nat) {
                Some(p) => {
                    assert(chars@.take(m as int) + (seq![t[0]] + p) =~= chars@.take(m + 1) + p);
                },
                None => {},
            }
        }
        acc = acc + w;
        m = m + 1;
    }
    proof {
        assert(chars@.take(m as int) + Seq::<char>::empty() =~= chars@.take(m as int));
    }
    Some(m)
}


/// Whether the characters `chars` take at least `k` bytes in UTF-8.
pub fn byte_len_at_least(chars: &Vec<char>, k: usize) -> (r: bool)
    requires
        k <= 16,
    ensures
        r == (byte_len(chars@) >= k),
{
    let mut acc: usize = 0;
    let mut i: usize = 0;
    while acc < k && i < chars.len()
        invariant
            i <= chars@.len(),
            acc == byte_len(chars@.take(i as int)),
            acc < k + 4,
            k <= 16,
        decreases chars@.len() - i,
    {
        proof {
            assert(chars@.take(i + 1).drop_last() =~= chars@.take(i as int));
        }
        acc = acc + char_width(chars[i]);
        i += 1;
    }
    proof {
        lemma_byte_len_prefix(chars@, i as int);
        if i == chars@.len() {
            assert(chars@.take(i as int) =~= chars@);
        }
    }
    acc >= k
}


/// Whether `c` belongs to the class `cls`.
pub fn char_in_class(c: char, cls: TrimClass) -> (r: bool)
    ensures
        r == in_class(c, cls),
{
    let white = {
        let u = c as u32;
        (0x9 <= u && u <= 0xD) || u == 0x20 || u == 0x85 || u == 0xA0 || u == 0x1680 || (0x2000
            <= u && u <= 0x200A) || u == 0x2028 || u == 0x2029 || u == 0x202F || u == 0x205F || u
            == 0x3000
    };
    match cls {
        TrimClass::White => white,
        TrimClass::Only(x) => c == x,
        TrimClass::BracketOrWhite => c == '[' || c == ']' || white,
        TrimClass::NonWhite => !white,
    }
}

/// `s` without leading and trailing characters of class `cls`.
pub fn trim_class(s: &str, cls: TrimClass) -> (r: String)
    ensures
        r@ == trim_of(s@, cls),
{
    let chars = chars_of(s);
    let n = chars.len();
    let mut start: usize = 0;
    while start < n && char_in_class(chars[start], cls)
        invariant
            start <= n,
            n == s@.len(),
            chars@ == s@,
            forall|i: int| 0 <= i < start ==> in_class(#[trigger] s@[i], cls),
        decreases n - start,
    {
        start += 1;
    }
    proof {
        lemma_lead_count_exact(s@, cls, start as int);
    }
    let mut end: usize = n;
    while end > start && char_in_class(chars[end - 1], cls)
        invariant
            start <= end <= n,
            n == s@.len(),
            chars@ == s@,
            forall|i: int| end <= i < n ==> in_class(#[trigger] s@[i], cls),
        decreases end,
    {
        end -= 1;
    }
    proof {
        let t = trim_start_of(s@, cls);
        assert(t =~= s@.skip(start as int));
        let k = (n - end) as int;
        assert forall|i: int| t.len() - k <= i < t.len() implies in_class(#[trigger] t[i], cls) by {
            assert(t[i] == s@[i + start]);
        }
        if k < t.len() {
            assert(t[t.len() - k - 1] == s@[end - 1]);
        }
        lemma_trail_count_exact(t, cls, k);
        assert(trim_of(s@, cls) =~= s@.subrange(start as int, end as int));
    }
    slice_string(s, start, end)
}

/// `s` without leading white space and without trailing white space.
pub fn trim(s: &str) -> (r: String)
    ensures
        r@ == trim_of(s@, TrimClass::White),
{
    trim_class(s, TrimClass::White)
}

/// Whether `s` begins with `p`.
pub fn starts_with(s: &str, p: &str) -> (r: bool)
    ensures
        r == has_prefix(s@, p@),
{
    let sc = chars_of(s);
    let pc = chars_of(p);
    if pc.len() > sc.len() {
        return false;
    }
    let mut i: usize = 0;
    while i < pc.len()
        invariant
            i <= pc@.len() <= sc@.len(),
            sc@ == s@,
            pc@ == p@,
            forall|j: int| 0 <= j < i ==> sc@[j] == pc@[j],
        decreases pc@.len() - i,
    {
        if sc[i] != pc[i] {
            proof {
                assert(s@.take(p@.len() as int)[i as int] != p@[i as int]);
            }
            return false;
        }
        i += 1;
    }
    proof {
        assert(s@.take(p@.len() as int) =~= p@);
    }
    true
}

/// Whether `s` ends with `p`.
pub fn ends_with(s: &str, p: &str) -> (r: bool)
    ensures
        r == has_suffix(s@, p@),
{
    let sc = chars_of(s);
    let pc = chars_of(p);
    if pc.len() > sc.len() {
        return false;
    }
    let n = sc.len();
    let off = n - pc.len();
    let mut i: usize = 0;
    while i < pc.len()
        invariant
            i <= pc@.len() <= sc@.len(),
            n == sc@.len(),
            off + pc@.len() == n,
            sc@ == s@,
            pc@ == p@,
            forall|j: int| 0 <= j < i ==> sc@[off + j] == pc@[j],
        decreases pc@.len() - i,
    {
        if sc[off + i] != pc[i] {
            proof {
                assert(s@.skip(off as int)[i as int] != p@[i as int]);
            }
            return false;
        }
        i += 1;
    }
    proof {
        assert(s@.skip(off as int) =~= p@);
    }
    true
}

/// Whether `c` occurs in `s`.
pub fn contains_char(s: &str, c: char) -> (r: bool)
    ensures
        r == s@.contains(c),
{
    let found = find_char(s, c);
    proof {
        lemma_first_index_of(s@, c);
    }
    match found {
        Some(i) => {
            proof {
                assert(s@[i as int] == c);
            }
            true
        },
        None => false,
    }
}

/// Whether `a` and `b` hold the same characters.
pub fn same_text(a: &str, b: &str) -> (r: bool)
    ensures
        r == (a@ == b@),
{
    let ca = chars_of(a);
    let cb = chars_of(b);
    if ca.len() != cb.len() {
        return false;
    }
    let mut i: usize = 0;
    while i < ca.len()
        invariant
            ca@ == a@,
            cb@ == b@,
            ca@.len() == cb@.len(),
            i <= ca@.len(),
            forall|j: int| 0 <= j < i ==> ca@[j] == cb@[j],
        decreases ca@.len() - i,
    {
        if ca[i] != cb[i] {
            return false;
        }
        i += 1;
    }
    proof {
        assert(a@ =~= b@);
    }
    true
}

/// The result of lowercasing `s` with `str::to_lowercase`.
pub uninterp spec fn lowercase_of(s: Seq<char>) -> Seq<char>;

/// Calls `str::to_lowercase`; its Unicode case mapping is named, not stated.
#[verifier::external_body]
pub(crate) fn to_lowercase(s: &str) -> (r: String)
    ensures
        r@ == lowercase_of(s@),
{
    s.to_lowercase()
}

/// Whether `char::is_uppercase` holds of `c`.
pub uninterp spec fn uppercase(c: char) -> bool;

/// Calls `char::is_uppercase`; the Unicode property it tests is named, not
/// stated.
#[verifier::external_body]
pub(crate) fn is_uppercase(c: char) -> (r: bool)
    ensures
        r == uppercase(c),
{
    c.is_uppercase()
}

/// Whether `char::is_numeric` holds of `c`.
pub uninterp spec fn numeric(c: char) -> bool;

/// Calls `char::is_numeric`; the Unicode categories it tests are named,
/// not stated.
#[verifier::external_body]
pub(crate) fn is_numeric(c: char) -> (r: bool)
    ensures
        r == numeric(c),
{
    c.is_numeric()
}

/// Whether `char::is_alphanumeric` holds of `c`.
pub uninterp spec fn alphanumeric(c: char) -> bool;

/// Calls `char::is_alphanumeric`; the Unicode properties it tests are
/// named, not stated.
#[verifier::external_body]
pub(crate) fn is_alphanumeric(c: char) -> (r: bool)
    ensures
        r == alphanumeric(c),
{
    c.is_alphanumeric()
}

/// `String::from(c)`, which std documents as a string holding the single
/// character `c`.
#[verifier::external_body]
pub(crate) fn char_string(c: char) -> (r: String)
    ensures
        r@ == seq![c],
{
    String::from(c)
}

} // verus!
