//! A small map keyed by `char`, kept as parallel vectors in insertion order.

use vstd::prelude::*;

verus! {

/// Map from characters to values; keys are kept in insertion order.
pub struct CharMap<V> {
    keys: Vec<char>,
    vals: Vec<V>,
}

impl<V> View for CharMap<V> {
    type V = Map<char, V>;

    closed spec fn view(&self) -> Map<char, V> {
        Map::new(
            |c: char| self.keys@.contains(c),
            |c: char| self.vals@[self.keys@.index_of(c)],
        )
    }
}

impl<V> CharMap<V> {
    /// Keys and values line up and no key repeats.
    pub closed spec fn wf(&self) -> bool {
        &&& self.keys@.len() == self.vals@.len()
        &&& self.keys@.no_duplicates()
    }

    /// The keys, in insertion order.
    pub closed spec fn key_seq(&self) -> Seq<char> {
        self.keys@
    }

    proof fn lemma_index(&self, i: int)
        requires
            self.wf(),
            0 <= i < self.keys@.len(),
        ensures
            self@.contains_key(self.keys@[i]),
            self@[self.keys@[i]] == self.vals@[i],
    {
        let c = self.keys@[i];
        assert(self.keys@.contains(c));
        let j = self.keys@.index_of(c);
        assert(self.keys@[j] == c);
    }

    /// An empty map.
    pub fn new() -> (m: Self)
        ensures
            m.wf(),
            m@ == Map::<char, V>::empty(),
            m.key_seq() == Seq::<char>::empty(),
    {
        let m = CharMap { keys: Vec::new(), vals: Vec::new() };
        assert(m@ =~= Map::<char, V>::empty());
        m
    }

    fn find(&self, c: char) -> (r: Option<usize>)
        requires
            self.wf(),
        ensures
            r matches Some(i) ==> i < self.keys@.len() && self.keys@[i as int] == c,
            r is None ==> !self.keys@.contains(c),
    {
        let mut i: usize = 0;
        while i < self.keys.len()
            invariant
                i <= self.keys@.len(),
                forall|j: int| 0 <= j < i ==> self.keys@[j] != c,
            decreases self.keys@.len() - i,
        {
            if self.keys[i] == c {
                return Some(i);
            }
            i += 1;
        }
        None
    }

    /// The value stored under `c`.
    pub fn get(&self, c: char) -> (r: Option<&V>)
        requires
            self.wf(),
        ensures
            match r {
                Some(v) => self@.contains_key(c) && *v == self@[c],
                None => !self@.contains_key(c),
            },
    {
        match self.find(c) {
            Some(i) => {
                proof {
                    self.lemma_index(i as int);
                }
                Some(&self.vals[i])
            },
            None => None,
        }
    }

    /// Stores `v` under `c`, replacing any earlier value; a new key goes last.
    pub fn insert(&mut self, c: char, v: V)
        requires
            old(self).wf(),
        ensures
            final(self).wf(),
            final(self)@ == old(self)@.insert(c, v),
            old(self).key_seq().contains(c) ==> final(self).key_seq() == old(self).key_seq(),
            !old(self).key_seq().contains(c) ==> final(self).key_seq() == old(self).key_seq().push(c),
    {
        let ghost prev = *self;
        match self.find(c) {
            Some(i) => {
                self.vals.set(i, v);
                proof {
                    assert forall|d: char| #[trigger] self@.contains_key(d) implies self@[d] == prev@.insert(c, v)[d] by {
                        let j = self.keys@.index_of(d);
                        assert(self.keys@.contains(d));
                        assert(self.keys@[j] == d);
                        if d == c {
                            assert(j == i);
                        } else {
                            prev.lemma_index(j);
                        }
                    }
                    assert(self@ =~= prev@.insert(c, v));
                }
            },
            None => {
                self.keys.push(c);
                self.vals.push(v);
                proof {
                    let n = prev.keys@.len() as int;
                    assert forall|d: char| #[trigger] self@.contains_key(d) implies self@[d] == prev@.insert(c, v)[d] by {
                        let j = self.keys@.index_of(d);
                        assert(self.keys@.contains(d));
                        assert(self.keys@[j] == d);
                        if d == c {
                            assert(j == n);
                        } else {
                            assert(j < n);
                            assert(prev.keys@[j] == d);
                            prev.lemma_index(j);
                        }
                    }
                    assert forall|d: char| #[trigger] prev@.insert(c, v).contains_key(d) implies self@.contains_key(d) by {
                        if d == c {
                            assert(self.keys@[n] == c);
                        } else {
                            let j = prev.keys@.index_of(d);
                            assert(self.keys@[j] == d);
                        }
                    }
                    assert(self@ =~= prev@.insert(c, v));
                }
            },
        }
    }

    /// The keys, in insertion order, each once.
    pub fn keys(&self) -> (r: Vec<char>)
        requires
            self.wf(),
        ensures
            r@ == self.key_seq(),
            r@.no_duplicates(),
            forall|c: char| r@.contains(c) <==> #[trigger] self@.contains_key(c),
    {
        let mut r: Vec<char> = Vec::new();
        let mut i: usize = 0;
        while i < self.keys.len()
            invariant
                i <= self.keys@.len(),
                r@ == self.keys@.take(i as int),
            decreases self.keys@.len() - i,
        {
            r.push(self.keys[i]);
            i += 1;
            proof {
                assert(r@ =~= self.keys@.take(i as int));
            }
        }
        proof {
            assert(self.keys@.take(self.keys@.len() as int) =~= self.keys@);
        }
        r
    }
}

} // verus!
