//! A minimal object: JSON values stored under dot-joined path keys
//! (`["user", "profile", "name"]` is stored as `user.profile.name`).

use vstd::prelude::*;
use crate::text::{join_with, same_text};

verus! {

/// `serde_json::Value`, held opaquely.
#[verifier::external_type_specification]
#[verifier::external_body]
pub struct ExJsonValue(serde_json::Value);

/// JSON values under flat, dot-joined keys.
#[derive(Debug, Clone, Default)]
pub struct Obj {
    data: Vec<(String, serde_json::Value)>,
}

/// The key of a path: its segments joined with `.`.
pub open spec fn path_key(path: Seq<&str>) -> Seq<char> {
    join_with(Seq::new(path.len(), |i: int| path[i]@), "."@)
}

/// The map held by a list of entries (a later entry for a key wins).
pub open spec fn entries_map(es: Seq<(String, serde_json::Value)>) -> Map<
    Seq<char>,
    serde_json::Value,
>
    decreases es.len(),
{
    if es.len() == 0 {
        Map::empty()
    } else {
        entries_map(es.drop_last()).insert(es.last().0@, es.last().1)
    }
}

proof fn lemma_entries_key(es: Seq<(String, serde_json::Value)>, k: Seq<char>)
    requires
        entries_map(es).contains_key(k),
    ensures
        exists|i: int| 0 <= i < es.len() && es[i].0@ == k,
    decreases es.len(),
{
    if es.last().0@ == k {
        assert(es[es.len() - 1].0@ == k);
    } else {
        lemma_entries_key(es.drop_last(), k);
        let i = choose|i: int| 0 <= i < es.len() - 1 && es.drop_last()[i].0@ == k;
        assert(es[i] == es.drop_last()[i]);
    }
}

proof fn lemma_entries_update(es: Seq<(String, serde_json::Value)>, j: int, e: (String, serde_json::Value))
    requires
        0 <= j < es.len(),
        es[j].0@ == e.0@,
        forall|a: int, b: int| 0 <= a < b < es.len() ==> es[a].0@ != es[b].0@,
    ensures
        entries_map(es.update(j, e)) == entries_map(es).insert(e.0@, e.1),
    decreases es.len(),
{
    if j == es.len() - 1 {
        assert(es.update(j, e).drop_last() =~= es.drop_last());
        assert(entries_map(es.update(j, e)) =~= entries_map(es).insert(e.0@, e.1));
    } else {
        assert(es.update(j, e).drop_last() =~= es.drop_last().update(j, e));
        lemma_entries_update(es.drop_last(), j, e);
        assert(es.last().0@ != e.0@) by {
            assert(es[j].0@ != es[es.len() - 1].0@);
        }
        assert(entries_map(es.update(j, e)) =~= entries_map(es).insert(e.0@, e.1));
    }
}

proof fn lemma_entries_lookup(es: Seq<(String, serde_json::Value)>, j: int)
    requires
        0 <= j < es.len(),
        forall|a: int, b: int| 0 <= a < b < es.len() ==> es[a].0@ != es[b].0@,
    ensures
        entries_map(es).contains_key(es[j].0@),
        entries_map(es)[es[j].0@] == es[j].1,
    decreases es.len(),
{
    if j < es.len() - 1 {
        lemma_entries_lookup(es.drop_last(), j);
        assert(es[j].0@ != es.last().0@);
    }
}

impl Obj {
    /// The values by key.
    pub closed spec fn view_map(&self) -> Map<Seq<char>, serde_json::Value> {
        entries_map(self.data@)
    }

    /// No key is stored twice.
    pub closed spec fn wf(&self) -> bool {
        forall|a: int, b: int|
            0 <= a < b < self.data@.len() ==> self.data@[a].0@ != self.data@[b].0@
    }

    /// An empty object.
    pub fn new() -> (o: Self)
        ensures
            o.wf(),
            o.view_map() == Map::<Seq<char>, serde_json::Value>::empty(),
    {
        Obj { data: Vec::new() }
    }

    fn find(&self, key: &str) -> (r: Option<usize>)
        requires
            self.wf(),
        ensures
            r matches Some(j) ==> j < self.data@.len() && self.data@[j as int].0@ == key@,
            r is None ==> forall|i: int| 0 <= i < self.data@.len() ==> self.data@[i].0@ != key@,
    {
        let mut i: usize = 0;
        while i < self.data.len()
            invariant
                i <= self.data@.len(),
                forall|k: int| 0 <= k < i ==> self.data@[k].0@ != key@,
            decreases self.data@.len() - i,
        {
            if same_text(self.data[i].0.as_str(), key) {
                return Some(i);
            }
            i += 1;
        }
        None
    }

    /// This object with `value` (converted to JSON) stored at `path`.
    pub fn set<T>(self, path: &[&str], value: T) -> (o: Self)
        where
            serde_json::Value: From<T>,
        requires
            self.wf(),
        ensures
            o.wf(),
            o.view_map().dom() == self.view_map().dom().insert(path_key(path@)),
            forall|k: Seq<char>|
                k != path_key(path@) && self.view_map().contains_key(k) ==> o.view_map()[k]
                    == self.view_map()[k],
            call_ensures(serde_json::Value::from, (value,), o.view_map()[path_key(path@)]),
    {
        let key = join_path(path);
        let v = serde_json::Value::from(value);
        let mut o = self;
        match o.find(key.as_str()) {
            Some(j) => {
                let ghost before = o.data@;
                o.data.set(j, (key, v));
                proof {
                    lemma_entries_lookup(before, j as int);
                    lemma_entries_update(before, j as int, o.data@[j as int]);
                    assert(o.data@ == before.update(j as int, o.data@[j as int]));
                }
            },
            None => {
                let ghost before = o.data@;
                o.data.push((key, v));
                proof {
                    assert(o.data@.drop_last() =~= before);
                }
            },
        }
        proof {
            assert(o.view_map().dom() =~= self.view_map().dom().insert(path_key(path@)));
        }
        o
    }

    /// The value stored at `path`, if any.
    pub fn get(&self, path: &[&str]) -> (r: Option<&serde_json::Value>)
        requires
            self.wf(),
        ensures
            r matches Some(v) ==> self.view_map().contains_key(path_key(path@)) && *v
                == self.view_map()[path_key(path@)],
            r is None ==> !self.view_map().contains_key(path_key(path@)),
    {
        let key = join_path(path);
        match self.find(key.as_str()) {
            Some(j) => {
                proof {
                    lemma_entries_lookup(self.data@, j as int);
                }
                Some(&self.data[j].1)
            },
            None => {
                proof {
                    if self.view_map().contains_key(key@) {
                        lemma_entries_key(self.data@, key@);
                    }
                }
                None
            },
        }
    }
}

/// The segments of `path` joined with `.`.
pub fn join_path(path: &[&str]) -> (r: String)
    ensures
        r@ == path_key(path@),
{
    let mut r = String::new();
    let mut i: usize = 0;
    let ghost segs = Seq::new(path@.len(), |k: int| path@[k]@);
    while i < path.len()
        invariant
            i <= path@.len(),
            segs == Seq::new(path@.len(), |k: int| path@[k]@),
            r@ == join_with(segs.take(i as int), "."@),
        decreases path@.len() - i,
    {
        let ghost prev = segs.take(i as int);
        if i > 0 {
            r.append(".");
        }
        r.append(path[i]);
        proof {
            let next = segs.take(i + 1);
            assert(next.drop_last() =~= prev);
            if i == 0 {
                assert(prev =~= Seq::<Seq<char>>::empty());
                assert(r@ =~= next[0]);
            }
        }
        i += 1;
    }
    proof {
        assert(segs.take(path@.len() as int) =~= segs);
    }
    r
}

} // verus!
