//! URCM atoms (labelled symbols) and the context that tracks them and
//! their reactive dependencies.

use vstd::prelude::*;
use crate::charmap::CharMap;

verus! {

/// How an atom gets its value, reduced to what the dependency logic reads:
/// the kind of atom and, for reactive kinds, the symbols it depends on.
pub enum AtomImpl {
    /// A plain number.
    Number,
    /// A value computed from other atoms.
    Computed { deps: Vec<char> },
    /// A value that arrives later, depending on other atoms.
    Promise { deps: Vec<char> },
    /// A value fed from an outside source.
    External,
}

impl AtomImpl {
    /// The symbols this kind of atom depends on.
    pub open spec fn dep_seq(&self) -> Seq<char> {
        match self {
            AtomImpl::Computed { deps } => deps@,
            AtomImpl::Promise { deps } => deps@,
            _ => Seq::empty(),
        }
    }

    /// Whether this kind of atom reacts to changes of other atoms.
    pub open spec fn spec_is_react(&self) -> bool {
        self is Computed || self is Promise
    }
}

/// A URCM atom: a symbol with a label and an implementation.
pub struct Atom {
    pub symbol: char,
    pub label: String,
    pub impl_type: AtomImpl,
}

fn copy_chars(v: &Vec<char>) -> (r: Vec<char>)
    ensures
        r@ == v@,
{
    let mut r: Vec<char> = Vec::new();
    let mut i: usize = 0;
    while i < v.len()
        invariant
            i <= v@.len(),
            r@ == v@.take(i as int),
        decreases v@.len() - i,
    {
        r.push(v[i]);
        i += 1;
        proof {
            assert(r@ =~= v@.take(i as int));
        }
    }
    proof {
        assert(v@.take(v@.len() as int) =~= v@);
    }
    r
}

impl Atom {
    /// A new atom.
    pub fn new(symbol: char, label: &str, impl_type: AtomImpl) -> (a: Self)
        ensures
            a.symbol == symbol,
            a.label@ == label@,
            a.impl_type == impl_type,
    {
        Atom { symbol, label: String::from_str(label), impl_type }
    }

    /// A new promise atom depending on `deps`.
    pub fn new_promise(symbol: char, label: &str, deps: Vec<char>) -> (a: Self)
        ensures
            a.symbol == symbol,
            a.label@ == label@,
            a.impl_type == (AtomImpl::Promise { deps }),
    {
        Self::new(symbol, label, AtomImpl::Promise { deps })
    }

    /// The symbols this atom depends on (none for numbers and external values).
    pub fn deps(&self) -> (d: Vec<char>)
        ensures
            d@ == self.impl_type.dep_seq(),
    {
        match &self.impl_type {
            AtomImpl::Number => Vec::new(),
            AtomImpl::Computed { deps } => copy_chars(deps),
            AtomImpl::Promise { deps } => copy_chars(deps),
            AtomImpl::External => Vec::new(),
        }
    }

    /// Whether the atom is reactive (computed or promise).
    pub fn is_react(&self) -> (r: bool)
        ensures
            r == self.impl_type.spec_is_react(),
    {
        match &self.impl_type {
            AtomImpl::Computed { .. } => true,
            AtomImpl::Promise { .. } => true,
            _ => false,
        }
    }
}

/// The list of dependents of `d` before a new dependent is added.
pub open spec fn dependents_or_empty(m: Map<char, Seq<char>>, d: char) -> Seq<char> {
    if m.contains_key(d) {
        m[d]
    } else {
        Seq::empty()
    }
}

/// The reverse-dependency map after recording that `symbol` depends on every
/// symbol of `deps`: each of them gets `symbol` appended to its dependents.
pub open spec fn add_dependent(m: Map<char, Seq<char>>, deps: Seq<char>, symbol: char) -> Map<char, Seq<char>> {
    Map::new(
        |d: char| m.contains_key(d) || deps.contains(d),
        |d: char|
            if deps.contains(d) {
                dependents_or_empty(m, d).push(symbol)
            } else {
                m[d]
            },
    )
}

/// URCM context: user data, the atoms by symbol, and for every symbol the
/// reactive atoms that depend on it.
pub struct UrcmCtx<T> {
    data: T,
    atoms: CharMap<Atom>,
    reactives: CharMap<Vec<char>>,
    epoch: usize,
}

impl<T> UrcmCtx<T> {
    /// The context's invariant.
    pub closed spec fn wf(&self) -> bool {
        &&& self.atoms.wf()
        &&& self.reactives.wf()
        &&& forall|c: char| #[trigger] self.atoms@.contains_key(c) ==> self.atoms@[c].symbol == c
    }

    /// The atoms, by symbol.
    pub closed spec fn atom_map(&self) -> Map<char, Atom> {
        self.atoms@
    }

    /// For every symbol, the reactive atoms that depend on it.
    pub closed spec fn reactive_map(&self) -> Map<char, Seq<char>> {
        self.reactives@.map_values(|v: Vec<char>| v@)
    }

    /// The user data.
    pub closed spec fn data(&self) -> T {
        self.data
    }

    /// An empty context around `data`.
    pub fn new(data: T) -> (c: Self)
        ensures
            c.wf(),
            c.data() == data,
            c.atom_map() == Map::<char, Atom>::empty(),
            c.reactive_map() == Map::<char, Seq<char>>::empty(),
    {
        let c = UrcmCtx { data, atoms: CharMap::new(), reactives: CharMap::new(), epoch: 0 };
        assert(c.reactive_map() =~= Map::<char, Seq<char>>::empty());
        c
    }

    /// Records that `symbol` depends on every symbol of `deps`.
    fn register_deps(&mut self, symbol: char, deps: Vec<char>)
        requires
            old(self).wf(),
            deps@.no_duplicates(),
        ensures
            final(self).wf(),
            final(self).reactive_map() == add_dependent(old(self).reactive_map(), deps@, symbol),
            final(self).atom_map() == old(self).atom_map(),
            final(self).data() == old(self).data(),
    {
        let ghost start = self.reactive_map();
        let mut i: usize = 0;
        proof {
            assert(add_dependent(start, deps@.take(0), symbol) =~= start);
        }
        while i < deps.len()
            invariant
                self.wf(),
                i <= deps@.len(),
                deps@.no_duplicates(),
                self.reactive_map() == add_dependent(start, deps@.take(i as int), symbol),
                self.atom_map() == old(self).atom_map(),
                self.data() == old(self).data(),
            decreases deps@.len() - i,
        {
            let d = deps[i];
            let mut list: Vec<char> = match self.reactives.get(d) {
                Some(l) => copy_chars(l),
                None => Vec::new(),
            };
            list.push(symbol);
            let ghost before = self.reactive_map();
            let ghost lv = list@;
            assert(lv == dependents_or_empty(before, d).push(symbol));
            self.reactives.insert(d, list);
            proof {
                assert(self.reactive_map() =~= before.insert(d, lv));
                let prev = deps@.take(i as int);
                let next = deps@.take(i + 1);
                assert(next =~= prev.push(d));
                assert(!prev.contains(d)) by {
                    if prev.contains(d) {
                        let j = prev.index_of(d);
                        assert(deps@[j] == deps@[i as int]);
                    }
                }
                assert forall|e: char| #[trigger] next.contains(e) == (prev.contains(e) || e == d) by {
                    if next.contains(e) {
                        let j = next.index_of(e);
                        if j < prev.len() {
                            assert(prev[j] == e);
                        }
                    }
                    if prev.contains(e) {
                        let j = prev.index_of(e);
                        assert(next[j] == e);
                    }
                    if e == d {
                        assert(next[prev.len() as int] == d);
                    }
                }
                assert(self.reactive_map() =~= add_dependent(start, next, symbol));
            }
            i += 1;
        }
        proof {
            assert(deps@.take(deps@.len() as int) =~= deps@);
        }
    }

    /// Whether the dependencies changed since the last evaluation; there is
    /// no per-atom version tracking yet, so the answer is always yes.
    fn dependencies_changed(&self, deps: &Vec<char>) -> (r: bool)
        ensures
            r,
    {
        true
    }

    /// Defines (or redefines) the promise atom `symbol`, depending on `deps`.
    pub fn def_promise(&mut self, symbol: char, label: &str, deps: Vec<char>) -> (r: &mut Self)
        requires
            old(self).wf(),
            deps@.no_duplicates(),
        ensures
            r.wf(),
            r.atom_map() == old(self).atom_map().insert(symbol, Atom {
                symbol,
                label: r.atom_map()[symbol].label,
                impl_type: AtomImpl::Promise { deps },
            }),
            r.atom_map()[symbol].label@ == label@,
            r.reactive_map() == add_dependent(old(self).reactive_map(), deps@, symbol),
            r.data() == old(self).data(),
            *final(self) == *final(r),
    {
        let registered = copy_chars(&deps);
        self.register_deps(symbol, registered);
        let atom = Atom::new_promise(symbol, label, deps);
        self.atoms.insert(symbol, atom);
        self
    }

    /// The symbols of all atoms, each once.
    pub fn symbols(&self) -> (r: Vec<char>)
        requires
            self.wf(),
        ensures
            r@.no_duplicates(),
            forall|c: char| r@.contains(c) <==> #[trigger] self.atom_map().contains_key(c),
    {
        self.atoms.keys()
    }
}

} // verus!
