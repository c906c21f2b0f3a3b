//! Nested objects and the adapter's reads by path: `user.address.city`
//! walks objects by key, and with array support `users[0].name` also
//! walks arrays by index.

use vstd::prelude::*;
use crate::error_codes::{decimal, push_decimal};
use crate::numbers::{parse_usize, usize_of};
use crate::obj_adapter::{path_components, ObjAdapterImpl};
use crate::text::same_text;

verus! {

/// A value of a nested object. A number is kept as the text that
/// `f64`'s `Display` gives for it.
#[derive(Debug, PartialEq)]
pub enum TreeValue {
    Null,
    Bool(bool),
    Number(String),
    Text(String),
    Array(Vec<TreeValue>),
    Object(Vec<(String, TreeValue)>),
}

/// The value under the first entry with key `k`.
pub open spec fn entry_value(entries: Seq<(String, TreeValue)>, k: Seq<char>) -> Option<TreeValue>
    decreases entries.len(),
{
    if entries.len() == 0 {
        None
    } else if entries[0].0@ == k {
        Some(entries[0].1)
    } else {
        entry_value(entries.drop_first(), k)
    }
}

/// Why a read by path failed.
#[derive(Debug, Clone, PartialEq)]
pub enum PathError {
    /// An index past the end of an array.
    IndexOutOfBounds(usize),
    /// An index where the value is not an array.
    ExpectedArray(String),
    /// A key that the object does not have.
    NotFound(String),
    /// A key where the value is not an object.
    ExpectedObject(String),
}

/// A read error with its texts as character sequences.
pub enum PathErrorView {
    IndexOutOfBounds(usize),
    ExpectedArray(Seq<char>),
    NotFound(Seq<char>),
    ExpectedObject(Seq<char>),
}

impl View for PathError {
    type V = PathErrorView;

    open spec fn view(&self) -> PathErrorView {
        match self {
            PathError::IndexOutOfBounds(i) => PathErrorView::IndexOutOfBounds(*i),
            PathError::ExpectedArray(p) => PathErrorView::ExpectedArray(p@),
            PathError::NotFound(p) => PathErrorView::NotFound(p@),
            PathError::ExpectedObject(p) => PathErrorView::ExpectedObject(p@),
        }
    }
}

/// The message of a read error.
pub open spec fn path_error_text(e: PathErrorView) -> Seq<char> {
    match e {
        PathErrorView::IndexOutOfBounds(i) => "Array index "@ + decimal(i as nat) + " out of bounds"@,
        PathErrorView::ExpectedArray(p) => "Expected array at path component '"@ + p + "'"@,
        PathErrorView::NotFound(p) => "Path '"@ + p + "' not found"@,
        PathErrorView::ExpectedObject(p) => "Expected object at path component '"@ + p + "'"@,
    }
}

impl PathError {
    /// The message of this error.
    pub fn to_string(&self) -> (r: String)
        ensures
            r@ == path_error_text(self@),
    {
        proof {
            reveal_strlit("Array index ");
            reveal_strlit(" out of bounds");
            reveal_strlit("Expected array at path component '");
            reveal_strlit("'");
            reveal_strlit("Path '");
            reveal_strlit("' not found");
            reveal_strlit("Expected object at path component '");
        }
        match self {
            PathError::IndexOutOfBounds(i) => {
                let mut r = String::from_str("Array index ");
                push_decimal(&mut r, *i);
                r.append(" out of bounds");
                r
            },
            PathError::ExpectedArray(p) => {
                let mut r = String::from_str("Expected array at path component '");
                r.append(p.as_str());
                r.append("'");
                r
            },
            PathError::NotFound(p) => {
                let mut r = String::from_str("Path '");
                r.append(p.as_str());
                r.append("' not found");
                r
            },
            PathError::ExpectedObject(p) => {
                let mut r = String::from_str("Expected object at path component '");
                r.append(p.as_str());
                r.append("'");
                r
            },
        }
    }
}

/// The outcome of walking from `cur` along `parts` (`path` is the whole
/// path, named when a key is missing). A component that reads as an index
/// (with array support) selects an array element; any other selects an
/// object entry.
pub open spec fn walk(cur: TreeValue, parts: Seq<Seq<char>>, arrays: bool, path: Seq<char>) -> Result<
    TreeValue,
    PathErrorView,
>
    decreases parts.len(),
{
    if parts.len() == 0 {
        Ok(cur)
    } else {
        let part = parts[0];
        if arrays && usize_of(part) is Some {
            let idx = usize_of(part)->0;
            match cur {
                TreeValue::Array(items) => if idx < items@.len() {
                    walk(items@[idx as int], parts.drop_first(), arrays, path)
                } else {
                    Err(PathErrorView::IndexOutOfBounds(idx))
                },
                _ => Err(PathErrorView::ExpectedArray(part)),
            }
        } else {
            match cur {
                TreeValue::Object(entries) => match entry_value(entries@, part) {
                    Some(v) => walk(v, parts.drop_first(), arrays, path),
                    None => Err(PathErrorView::NotFound(path)),
                },
                _ => Err(PathErrorView::ExpectedObject(part)),
            }
        }
    }
}

/// The view of a read's outcome.
pub open spec fn read_view(r: Result<&TreeValue, PathError>) -> Result<TreeValue, PathErrorView> {
    match r {
        Ok(v) => Ok(*v),
        Err(e) => Err(e@),
    }
}

fn find_entry<'a>(entries: &'a Vec<(String, TreeValue)>, key: &str) -> (r: Option<&'a TreeValue>)
    ensures
        r matches Some(v) ==> entry_value(entries@, key@) == Some(*v),
        r is None ==> entry_value(entries@, key@) is None,
{
    let mut i: usize = 0;
    proof {
        assert(entries@.skip(0) =~= entries@);
    }
    while i < entries.len()
        invariant
            i <= entries@.len(),
            entry_value(entries@, key@) == entry_value(entries@.skip(i as int), key@),
        decreases entries@.len() - i,
    {
        proof {
            assert(entries@.skip(i as int).drop_first() =~= entries@.skip(i + 1));
        }
        if same_text(entries[i].0.as_str(), key) {
            return Some(&entries[i].1);
        }
        i += 1;
    }
    None
}

impl ObjAdapterImpl {
    /// The value at `path` in `obj` (`user.address.city`, or with array
    /// support `users[0].name`), or why there is none.
    pub fn get_path<'a>(&self, obj: &'a TreeValue, path: &str) -> (r: Result<&'a TreeValue, PathError>)
        ensures
            read_view(r) == walk(*obj, path_components(path@, self.sep(), self.arrays()), self.arrays(), path@),
    {
        let parts = self.split_path(path);
        let arrays = self.has_array_support();
        let ghost all = path_components(path@, self.sep(), self.arrays());
        let mut cur: &TreeValue = obj;
        let mut i: usize = 0;
        proof {
            assert(all.skip(0) =~= all);
        }
        while i < parts.len()
            invariant
                i <= parts@.len(),
                crate::text::views(parts@) == all,
                all == path_components(path@, self.sep(), self.arrays()),
                arrays == self.arrays(),
                walk(*obj, all, arrays, path@) == walk(*cur, all.skip(i as int), arrays, path@),
            decreases parts@.len() - i,
        {
            let part = parts[i].as_str();
            let ghost rest = all.skip(i as int);
            proof {
                assert(rest.len() > 0);
                assert(all.skip(i as int)[0] == part@);
                assert(all.skip(i as int).drop_first() =~= all.skip(i + 1));
            }
            let idx = if arrays {
                parse_usize(part)
            } else {
                None
            };
            match idx {
                Some(k) => {
                    match cur {
                        TreeValue::Array(items) => {
                            if k < items.len() {
                                cur = &items[k];
                            } else {
                                return Err(PathError::IndexOutOfBounds(k));
                            }
                        },
                        _ => {
                            return Err(PathError::ExpectedArray(String::from_str(part)));
                        },
                    }
                },
                None => {
                    match cur {
                        TreeValue::Object(entries) => {
                            match find_entry(entries, part) {
                                Some(v) => {
                                    cur = v;
                                },
                                None => {
                                    return Err(PathError::NotFound(String::from_str(path)));
                                },
                            }
                        },
                        _ => {
                            return Err(PathError::ExpectedObject(String::from_str(part)));
                        },
                    }
                },
            }
            i += 1;
        }
        Ok(cur)
    }
}


/// The flat key of `key` under `prefix`.
pub open spec fn join_key(prefix: Seq<char>, key: Seq<char>, sep: Seq<char>) -> Seq<char> {
    if prefix.len() == 0 {
        key
    } else {
        prefix + sep + key
    }
}

/// The leaves of the first `n` entries, in order, with their flat keys:
/// objects are entered, array elements get `[i]` keys (an object element
/// is entered), other values are leaves.
pub open spec fn flat_entries(es: Seq<(String, TreeValue)>, n: int, prefix: Seq<char>, sep: Seq<char>) -> Seq<
    (Seq<char>, TreeValue),
>
    decreases es, n,
{
    if n <= 0 || n > es.len() {
        Seq::empty()
    } else {
        let key = join_key(prefix, es[n - 1].0@, sep);
        flat_entries(es, n - 1, prefix, sep) + match es[n - 1].1 {
            TreeValue::Object(nested) => {
                flat_entries(nested@, nested@.len() as int, key, sep)
            },
            TreeValue::Array(items) => flat_items(items@, items@.len() as int, key, sep),
            v => seq![(key, v)],
        }
    }
}

/// The leaves of the first `n` elements of an array under `key`.
pub open spec fn flat_items(items: Seq<TreeValue>, n: int, key: Seq<char>, sep: Seq<char>) -> Seq<
    (Seq<char>, TreeValue),
>
    decreases items, n,
{
    if n <= 0 || n > items.len() {
        Seq::empty()
    } else {
        let k = key + "["@ + decimal((n - 1) as nat) + "]"@;
        flat_items(items, n - 1, key, sep) + match items[n - 1] {
            TreeValue::Object(nested) => flat_entries(nested@, nested@.len() as int, k, sep),
            v => seq![(k, v)],
        }
    }
}


/// The index of the first pair with key `k`.
pub open spec fn key_pos(m: Seq<(Seq<char>, TreeValue)>, k: Seq<char>) -> Option<int>
    decreases m.len(),
{
    if m.len() == 0 {
        None
    } else {
        match key_pos(m.drop_last(), k) {
            Some(i) => Some(i),
            None => if m.last().0 == k {
                Some(m.len() - 1)
            } else {
                None
            },
        }
    }
}

/// `m` with `k` mapped to `v`: its pair replaced, or a new pair added.
pub open spec fn put(m: Seq<(Seq<char>, TreeValue)>, k: Seq<char>, v: TreeValue) -> Seq<
    (Seq<char>, TreeValue),
> {
    match key_pos(m, k) {
        Some(i) => m.update(i, (k, v)),
        None => m.push((k, v)),
    }
}

/// `m` with the pairs of `list` put in order (a later pair for a key wins).
pub open spec fn put_all(m: Seq<(Seq<char>, TreeValue)>, list: Seq<(Seq<char>, TreeValue)>) -> Seq<
    (Seq<char>, TreeValue),
>
    decreases list.len(),
{
    if list.len() == 0 {
        m
    } else {
        let r = put_all(m, list.drop_last());
        put(r, list.last().0, list.last().1)
    }
}

/// The view of flattened pairs.
pub open spec fn flat_view(o: Seq<(String, &TreeValue)>) -> Seq<(Seq<char>, TreeValue)> {
    o.map_values(|p: (String, &TreeValue)| (p.0@, *p.1))
}

proof fn lemma_key_pos_prefix(m: Seq<(Seq<char>, TreeValue)>, n: int)
    requires
        0 <= n <= m.len(),
    ensures
        forall|k: Seq<char>| #[trigger] key_pos(m.take(n), k) is Some ==> key_pos(m, k) == key_pos(
            m.take(n),
            k,
        ),
    decreases m.len() - n,
{
    if n < m.len() {
        lemma_key_pos_prefix(m, n + 1);
        assert(m.take(n + 1).drop_last() =~= m.take(n));
        assert forall|k: Seq<char>| #[trigger] key_pos(m.take(n), k) is Some implies key_pos(m, k)
            == key_pos(m.take(n), k) by {
            assert(key_pos(m.take(n + 1), k) == key_pos(m.take(n), k));
        }
    } else {
        assert(m.take(n) =~= m);
    }
}

proof fn lemma_put_all_append(
    m: Seq<(Seq<char>, TreeValue)>,
    a: Seq<(Seq<char>, TreeValue)>,
    b: Seq<(Seq<char>, TreeValue)>,
)
    ensures
        put_all(m, a + b) == put_all(put_all(m, a), b),
    decreases b.len(),
{
    if b.len() == 0 {
        assert(a + b =~= a);
    } else {
        lemma_put_all_append(m, a, b.drop_last());
        assert((a + b).drop_last() =~= a + b.drop_last());
    }
}

fn put_pair<'a>(out: &mut Vec<(String, &'a TreeValue)>, key: String, v: &'a TreeValue)
    ensures
        flat_view(final(out)@) == put(flat_view(old(out)@), key@, *v),
{
    let ghost m = flat_view(out@);
    let mut i: usize = 0;
    while i < out.len()
        invariant
            i <= out@.len(),
            m == flat_view(out@),
            m == flat_view(old(out)@),
            key_pos(m.take(i as int), key@) is None,
        decreases out@.len() - i,
    {
        proof {
            assert(m.take(i + 1).drop_last() =~= m.take(i as int));
        }
        if same_text(out[i].0.as_str(), key.as_str()) {
            proof {
                assert(key_pos(m.take(i + 1), key@) == Some(i as int));
                lemma_key_pos_prefix(m, i + 1);
            }
            out.set(i, (key, v));
            proof {
                assert(flat_view(out@) =~= m.update(i as int, (key@, *v)));
            }
            return;
        }
        i += 1;
    }
    proof {
        assert(m.take(i as int) =~= m);
    }
    out.push((key, v));
    proof {
        assert(flat_view(out@) =~= m.push((key@, *v)));
    }
}

fn key_under(prefix: &str, key: &str, sep: &str) -> (r: String)
    ensures
        r@ == join_key(prefix@, key@, sep@),
{
    if prefix.unicode_len() == 0 {
        String::from_str(key)
    } else {
        let mut r = String::from_str(prefix);
        r.append(sep);
        r.append(key);
        r
    }
}

fn index_key(key: &str, i: usize) -> (r: String)
    ensures
        r@ == key@ + "["@ + decimal(i as nat) + "]"@,
{
    proof {
        reveal_strlit("[");
        reveal_strlit("]");
    }
    let mut r = String::from_str(key);
    r.append("[");
    push_decimal(&mut r, i);
    r.append("]");
    r
}

fn flatten_entries<'a>(
    es: &'a Vec<(String, TreeValue)>,
    prefix: &str,
    sep: &str,
    out: &mut Vec<(String, &'a TreeValue)>,
)
    ensures
        flat_view(final(out)@) == put_all(
            flat_view(old(out)@),
            flat_entries(es@, es@.len() as int, prefix@, sep@),
        ),
    decreases es@, 1int,
{
    let mut i: usize = 0;
    let ghost m0 = flat_view(out@);
    while i < es.len()
        invariant
            i <= es@.len(),
            m0 == flat_view(old(out)@),
            flat_view(out@) == put_all(m0, flat_entries(es@, i as int, prefix@, sep@)),
        decreases es@.len() - i,
    {
        let key = key_under(prefix, es[i].0.as_str(), sep);
        let ghost before = flat_view(out@);
        let ghost done = flat_entries(es@, i as int, prefix@, sep@);
        match &es[i].1 {
            TreeValue::Object(nested) => {
                proof {
                    assert(decreases_to!(es@ => nested@));
                }
                flatten_entries(nested, key.as_str(), sep, out);
                proof {
                    lemma_put_all_append(m0, done, flat_entries(nested@, nested@.len() as int, key@, sep@));
                }
            },
            TreeValue::Array(items) => {
                proof {
                    assert(decreases_to!(es@ => items@));
                }
                flatten_items(items, key.as_str(), sep, out);
                proof {
                    lemma_put_all_append(m0, done, flat_items(items@, items@.len() as int, key@, sep@));
                }
            },
            v => {
                put_pair(out, key, v);
                proof {
                    lemma_put_all_append(m0, done, seq![(key@, *v)]);
                    assert(put_all(before, seq![(key@, *v)]) == put(before, key@, *v)) by {
                        reveal_with_fuel(put_all, 2);
                        assert(seq![(key@, *v)].drop_last() =~= Seq::<(Seq<char>, TreeValue)>::empty());
                    }
                }
            },
        }
        i += 1;
    }
}

fn flatten_items<'a>(
    items: &'a Vec<TreeValue>,
    key: &str,
    sep: &str,
    out: &mut Vec<(String, &'a TreeValue)>,
)
    ensures
        flat_view(final(out)@) == put_all(
            flat_view(old(out)@),
            flat_items(items@, items@.len() as int, key@, sep@),
        ),
    decreases items@, 1int,
{
    let mut i: usize = 0;
    let ghost m0 = flat_view(out@);
    while i < items.len()
        invariant
            i <= items@.len(),
            m0 == flat_view(old(out)@),
            flat_view(out@) == put_all(m0, flat_items(items@, i as int, key@, sep@)),
        decreases items@.len() - i,
    {
        let k = index_key(key, i);
        let ghost before = flat_view(out@);
        let ghost done = flat_items(items@, i as int, key@, sep@);
        match &items[i] {
            TreeValue::Object(nested) => {
                proof {
                    assert(decreases_to!(items@ => nested@));
                }
                flatten_entries(nested, k.as_str(), sep, out);
                proof {
                    lemma_put_all_append(m0, done, flat_entries(nested@, nested@.len() as int, k@, sep@));
                }
            },
            v => {
                put_pair(out, k, v);
                proof {
                    lemma_put_all_append(m0, done, seq![(k@, *v)]);
                    assert(put_all(before, seq![(k@, *v)]) == put(before, k@, *v)) by {
                        reveal_with_fuel(put_all, 2);
                        assert(seq![(k@, *v)].drop_last() =~= Seq::<(Seq<char>, TreeValue)>::empty());
                    }
                }
            },
        }
        i += 1;
    }
}

/// The leaves of a value with their flat keys; a value that is not an
/// object has none.
pub open spec fn flat_dict(v: TreeValue, sep: Seq<char>) -> Seq<(Seq<char>, TreeValue)> {
    match v {
        TreeValue::Object(es) => put_all(Seq::empty(), flat_entries(es@, es@.len() as int, Seq::empty(), sep)),
        _ => Seq::empty(),
    }
}

impl ObjAdapterImpl {
    /// The flat dictionary of an object: each leaf under its key
    /// (`user.address.city`, `users[0].name` for array elements), in the
    /// order first met; a key met twice keeps its last leaf.
    pub fn to_flat_dict<'a>(&self, obj: &'a TreeValue) -> (r: Vec<(String, &'a TreeValue)>)
        ensures
            flat_view(r@) == flat_dict(*obj, self.sep()),
    {
        let mut out: Vec<(String, &'a TreeValue)> = Vec::new();
        proof {
            assert(flat_view(out@) =~= Seq::<(Seq<char>, TreeValue)>::empty());
        }
        match obj {
            TreeValue::Object(es) => {
                let empty = String::new();
                flatten_entries(es, empty.as_str(), self.separator(), &mut out);
            },
            _ => {},
        }
        out
    }
}

} // verus!
