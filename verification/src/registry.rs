//! Registry of dot-separated names with automatically generated short
//! aliases (1–3 characters per level).

use vstd::prelude::*;
use vstd::hash_map::StringHashMap;
use crate::text::{views, split_on, join_with, byte_len, byte_prefix, chars_of, slice_string, split_char, join_strings, byte_len_at_least, byte_prefix_count};

verus! {

broadcast use vstd::hash_map::group_hash_map_axioms;

/// An entry of the registry.
pub struct RegistryEntry {
    /// Full name (dot separated path).
    pub full_name: String,
    /// Automatically generated alias (1–3 characters per level).
    pub alias: String,
    /// Associated value, if any.
    pub value: Option<String>,
    /// Extra metadata.
    pub metadata: StringHashMap<String>,
}

/// What an entry holds, as mathematical values.
pub struct RegistryEntryView {
    pub full_name: Seq<char>,
    pub alias: Seq<char>,
    pub value: Option<Seq<char>>,
    pub metadata: Map<Seq<char>, Seq<char>>,
}

pub open spec fn option_view(o: Option<String>) -> Option<Seq<char>> {
    match o {
        Some(s) => Some(s@),
        None => None,
    }
}

impl View for RegistryEntry {
    type V = RegistryEntryView;

    open spec fn view(&self) -> RegistryEntryView {
        RegistryEntryView {
            full_name: self.full_name@,
            alias: self.alias@,
            value: option_view(self.value),
            metadata: self.metadata@.map_values(|v: String| v@),
        }
    }
}

/// Errors of the registry.
#[derive(Debug)]
pub enum RegistryError {
    /// The name is already registered.
    AlreadyExists(String),
    /// The name is not registered.
    NotFound(String),
    /// No unused alias of 1–3 characters per level could be found.
    AliasCollision(String),
}

/// The registry: names to entries, and aliases to names.
pub struct Registry {
    entries: Vec<RegistryEntry>,
    by_name: StringHashMap<usize>,
    by_alias: StringHashMap<usize>,
    counter: usize,
}

/// What the registry holds: every name with its entry, and every alias with
/// the name it stands for.
pub struct RegistryView {
    pub names: Map<Seq<char>, RegistryEntryView>,
    pub aliases: Map<Seq<char>, Seq<char>>,
}

impl View for Registry {
    type V = RegistryView;

    closed spec fn view(&self) -> RegistryView {
        RegistryView {
            names: Map::new(
                |k: Seq<char>| self.by_name@.contains_key(k),
                |k: Seq<char>| self.entries@[self.by_name@[k] as int]@,
            ),
            aliases: Map::new(
                |a: Seq<char>| self.by_alias@.contains_key(a),
                |a: Seq<char>| self.entries@[self.by_alias@[a] as int].full_name@,
            ),
        }
    }
}

// ---------------------------------------------------------------------------
// Alias generation model
// ---------------------------------------------------------------------------

pub open spec fn dot() -> Seq<char> {
    seq!['.']
}

/// The alias that results from adding `piece` after the pieces `acc`.
pub open spec fn alias_candidate(acc: Seq<Seq<char>>, piece: Seq<char>) -> Seq<char> {
    join_with(acc.push(piece), dot())
}

/// The alias piece chosen for one level `part` of a name, after the pieces
/// `acc` of the earlier levels, given the aliases already `taken`: the first
/// 1, 2 or 3 bytes of the level, whichever first gives an unused alias.
/// `Some(None)` when all are taken; `None` when the level is empty or a byte
/// prefix that must be tried cuts a character in two.
pub open spec fn alias_piece(part: Seq<char>, acc: Seq<Seq<char>>, taken: Set<Seq<char>>) -> Option<
    Option<Seq<char>>,
> {
    if part.len() == 0 {
        None
    } else if !taken.contains(alias_candidate(acc, seq![part[0]])) {
        Some(Some(seq![part[0]]))
    } else if byte_len(part) >= 2 && byte_prefix(part, 2) is None {
        None
    } else if byte_len(part) >= 2 && !taken.contains(
        alias_candidate(acc, byte_prefix(part, 2)->0),
    ) {
        Some(Some(byte_prefix(part, 2)->0))
    } else if byte_len(part) >= 3 && byte_prefix(part, 3) is None {
        None
    } else if byte_len(part) >= 3 && !taken.contains(
        alias_candidate(acc, byte_prefix(part, 3)->0),
    ) {
        Some(Some(byte_prefix(part, 3)->0))
    } else {
        Some(None)
    }
}

/// Alias pieces for the levels `parts`, continuing after `acc`.
pub open spec fn alias_pieces(parts: Seq<Seq<char>>, acc: Seq<Seq<char>>, taken: Set<Seq<char>>) -> Option<
    Option<Seq<Seq<char>>>,
>
    decreases parts.len(),
{
    if parts.len() == 0 {
        Some(Some(acc))
    } else {
        match alias_piece(parts[0], acc, taken) {
            None => None,
            Some(None) => Some(None),
            Some(Some(p)) => alias_pieces(parts.drop_first(), acc.push(p), taken),
        }
    }
}

/// The alias generated for `name` when the aliases `taken` are in use:
/// `Some(Some(alias))`, `Some(None)` when every candidate collides, `None`
/// when `name` has an empty level or a candidate cuts a character in two.
pub open spec fn generated_alias(name: Seq<char>, taken: Set<Seq<char>>) -> Option<Option<Seq<char>>> {
    match alias_pieces(split_on(name, '.'), Seq::empty(), taken) {
        None => None,
        Some(None) => Some(None),
        Some(Some(pieces)) => Some(Some(join_with(pieces, dot()))),
    }
}

proof fn lemma_join_push(acc: Seq<Seq<char>>, piece: Seq<char>, sep: Seq<char>)
    ensures
        join_with(acc.push(piece), sep) == (if acc.len() == 0 {
            piece
        } else {
            join_with(acc, sep) + sep + piece
        }),
{
    assert(acc.push(piece).drop_last() =~= acc);
}

/// The last candidate tried is the whole alias: a generated alias is unused.
proof fn lemma_alias_pieces_fresh(
    parts: Seq<Seq<char>>,
    acc: Seq<Seq<char>>,
    taken: Set<Seq<char>>,
)
    requires
        parts.len() >= 1,
        alias_pieces(parts, acc, taken) matches Some(Some(_)),
    ensures
        alias_pieces(parts, acc, taken) matches Some(Some(p)) && !taken.contains(
            join_with(p, dot()),
        ),
    decreases parts.len(),
{
    let piece = alias_piece(parts[0], acc, taken)->0->0;
    assert(!taken.contains(alias_candidate(acc, piece)));
    if parts.len() > 1 {
        lemma_alias_pieces_fresh(parts.drop_first(), acc.push(piece), taken);
    } else {
        assert(parts.drop_first().len() == 0);
        assert(alias_pieces(parts.drop_first(), acc.push(piece), taken) == Some(
            Some(acc.push(piece)),
        ));
    }
}

// ---------------------------------------------------------------------------
// Executable code
// ---------------------------------------------------------------------------

impl Registry {
    /// The registry's internal invariant: the entries and the two indexes
    /// agree, and every name and every alias occurs once.
    pub closed spec fn wf(&self) -> bool {
        &&& forall|i: int|
            0 <= i < self.entries@.len() ==> {
                &&& #[trigger] self.by_name@.contains_key(self.entries@[i].full_name@)
                &&& self.by_name@[self.entries@[i].full_name@] == i
                &&& self.by_alias@.contains_key(self.entries@[i].alias@)
                &&& self.by_alias@[self.entries@[i].alias@] == i
            }
        &&& forall|k: Seq<char>|
            #[trigger] self.by_name@.contains_key(k) ==> self.by_name@[k] < self.entries@.len()
                && self.entries@[self.by_name@[k] as int].full_name@ == k
        &&& forall|a: Seq<char>|
            #[trigger] self.by_alias@.contains_key(a) ==> self.by_alias@[a] < self.entries@.len()
                && self.entries@[self.by_alias@[a] as int].alias@ == a
    }

    /// How many entries are registered; `list_names` and `list_aliases`
    /// both return this many items.
    pub closed spec fn size(&self) -> nat {
        self.entries@.len()
    }

    /// An empty registry.
    pub fn new() -> (r: Self)
        ensures
            r.wf(),
            r@.names == Map::<Seq<char>, RegistryEntryView>::empty(),
            r@.aliases == Map::<Seq<char>, Seq<char>>::empty(),
    {
        let r = Registry {
            entries: Vec::new(),
            by_name: StringHashMap::new(),
            by_alias: StringHashMap::new(),
            counter: 0,
        };
        assert(r@.names =~= Map::<Seq<char>, RegistryEntryView>::empty());
        assert(r@.aliases =~= Map::<Seq<char>, Seq<char>>::empty());
        r
    }

    /// The alias candidate `piece` after the pieces `acc`.
    fn candidate(acc: &Vec<String>, piece: &String) -> (c: String)
        ensures
            c@ == alias_candidate(views(acc@), piece@),
    {
        proof {
            lemma_join_push(views(acc@), piece@, dot());
        }
        proof {
            reveal_strlit(".");
            assert("."@ =~= dot());
        }
        if acc.len() == 0 {
            assert(views(acc@).len() == 0);
            piece.clone()
        } else {
            let mut c = join_strings(acc, ".");
            c.append(".");
            c.append(piece.as_str());
            c
        }
    }

    /// Generates the alias of `name` (1–3 characters per level).
    fn generate_alias(&self, name: &str) -> (r: Result<String, RegistryError>)
        requires
            self.wf(),
            generated_alias(name@, self.by_alias@.dom()) is Some,
        ensures
            generated_alias(name@, self.by_alias@.dom()) matches Some(Some(a)) ==> r matches Ok(s)
                && s@ == a,
            generated_alias(name@, self.by_alias@.dom()) matches Some(None) ==> r matches Err(
                RegistryError::AliasCollision(s),
            ) && s@ == name@,
    {
        let parts = split_char(name, '.');
        let ghost taken = self.by_alias@.dom();
        let mut pieces: Vec<String> = Vec::new();
        let mut i: usize = 0;
        proof {
            assert(views(parts@).skip(0) =~= views(parts@));
            assert(views(pieces@) =~= Seq::<Seq<char>>::empty());
        }
        while i < parts.len()
            invariant
                i <= parts@.len(),
                taken == self.by_alias@.dom(),
                views(parts@) == split_on(name@, '.'),
                alias_pieces(split_on(name@, '.'), Seq::empty(), taken) == alias_pieces(
                    views(parts@).skip(i as int),
                    views(pieces@),
                    taken,
                ),
                alias_pieces(split_on(name@, '.'), Seq::empty(), taken) is Some,
            decreases parts@.len() - i,
        {
            let part = &parts[i];
            let ghost rest = views(parts@).skip(i as int);
            proof {
                assert(rest[0] == part@);
                assert(rest.drop_first() =~= views(parts@).skip(i + 1));
            }
            let chars = chars_of(part.as_str());
            let ghost acc = views(pieces@);
            proof {
                assert(alias_pieces(rest, acc, taken) == match alias_piece(part@, acc, taken) {
                    None => None,
                    Some(None) => Some(None),
                    Some(Some(p)) => alias_pieces(rest.drop_first(), acc.push(p), taken),
                });
                assert(alias_piece(part@, acc, taken) is Some);
            }
            let first = slice_string(part.as_str(), 0, 1);
            proof {
                assert(first@ =~= seq![part@[0]]);
            }
            let cand1 = Self::candidate(&pieces, &first);
            let mut chosen: Option<String> = None;
            if !self.by_alias.contains_key(cand1.as_str()) {
                chosen = Some(first);
            } else {
                let at_least_2 = byte_len_at_least(&chars, 2);
                let at_least_3 = byte_len_at_least(&chars, 3);
                if at_least_2 {
                    let m2 = match byte_prefix_count(&chars, 2) {
                        Some(m) => m,
                        None => 0,
                    };
                    let second = slice_string(part.as_str(), 0, m2);
                    let cand2 = Self::candidate(&pieces, &second);
                    if !self.by_alias.contains_key(cand2.as_str()) {
                        chosen = Some(second);
                    }
                }
                if chosen.is_none() && at_least_3 {
                    let m3 = match byte_prefix_count(&chars, 3) {
                        Some(m) => m,
                        None => 0,
                    };
                    let third = slice_string(part.as_str(), 0, m3);
                    let cand3 = Self::candidate(&pieces, &third);
                    if !self.by_alias.contains_key(cand3.as_str()) {
                        chosen = Some(third);
                    }
                }
            }
            proof {
                match &chosen {
                    Some(p) => {
                        assert(alias_piece(part@, acc, taken) == Some(Some(p@)));
                    },
                    None => {
                        assert(alias_piece(part@, acc, taken) == Some(None::<Seq<char>>));
                    },
                }
            }
            match chosen {
                Some(p) => {
                    let ghost pv = p@;
                    pieces.push(p);
                    proof {
                        assert(views(pieces@) =~= acc.push(pv));
                    }
                },
                None => {
                    return Err(RegistryError::AliasCollision(String::from_str(name)));
                },
            }
            i += 1;
        }
        proof {
            assert(views(parts@).skip(i as int) =~= Seq::<Seq<char>>::empty());
            reveal_strlit(".");
            assert("."@ =~= dot());
        }
        Ok(join_strings(&pieces, "."))
    }
}


impl Registry {
    /// Registers `name` with an optional value and a freshly generated alias.
    pub fn register(&mut self, name: &str, value: Option<String>) -> (r: Result<(), RegistryError>)
        requires
            old(self).wf(),
            old(self)@.names.contains_key(name@) || generated_alias(
                name@,
                old(self)@.aliases.dom(),
            ) is Some,
        ensures
            final(self).wf(),
            old(self)@.names.contains_key(name@) ==> (r matches Err(
                RegistryError::AlreadyExists(s),
            ) && s@ == name@ && final(self)@ == old(self)@),
            !old(self)@.names.contains_key(name@) ==> match generated_alias(
                name@,
                old(self)@.aliases.dom(),
            ) {
                Some(Some(a)) => {
                    &&& r is Ok
                    &&& final(self)@.names == old(self)@.names.insert(
                        name@,
                        RegistryEntryView {
                            full_name: name@,
                            alias: a,
                            value: option_view(value),
                            metadata: Map::empty(),
                        },
                    )
                    &&& final(self)@.aliases == old(self)@.aliases.insert(a, name@)
                },
                Some(None) => r matches Err(RegistryError::AliasCollision(s)) && s@ == name@
                    && final(self)@ == old(self)@,
                None => false,
            },
    {
        proof {
            assert(self@.aliases.dom() =~= self.by_alias@.dom());
        }
        if self.by_name.contains_key(name) {
            return Err(RegistryError::AlreadyExists(String::from_str(name)));
        }
        let alias = match self.generate_alias(name) {
            Ok(a) => a,
            Err(e) => {
                return Err(e);
            },
        };
        proof {
            let pieces = alias_pieces(split_on(name@, '.'), Seq::empty(), self.by_alias@.dom());
            crate::text::lemma_split_len(name@, '.');
            lemma_alias_pieces_fresh(split_on(name@, '.'), Seq::empty(), self.by_alias@.dom());
            assert(!self.by_alias@.contains_key(alias@));
        }
        let ghost old_self = *self;
        let idx = self.entries.len();
        let metadata: StringHashMap<String> = StringHashMap::new();
        let entry = RegistryEntry {
            full_name: String::from_str(name),
            alias: alias.clone(),
            value,
            metadata,
        };
        self.entries.push(entry);
        self.by_name.insert(String::from_str(name), idx);
        self.by_alias.insert(alias, idx);
        proof {
            assert(self.entries@[idx as int]@.metadata =~= Map::<Seq<char>, Seq<char>>::empty());
            assert forall|i: int| 0 <= i < self.entries@.len() implies {
                &&& #[trigger] self.by_name@.contains_key(self.entries@[i].full_name@)
                &&& self.by_name@[self.entries@[i].full_name@] == i
                &&& self.by_alias@.contains_key(self.entries@[i].alias@)
                &&& self.by_alias@[self.entries@[i].alias@] == i
            } by {
                if i < idx {
                    assert(self.entries@[i] == old_self.entries@[i]);
                }
            }
            assert(self@.names =~= old_self@.names.insert(
                name@,
                RegistryEntryView {
                    full_name: name@,
                    alias: alias@,
                    value: option_view(value),
                    metadata: Map::empty(),
                },
            ));
            assert(self@.aliases =~= old_self@.aliases.insert(alias@, name@));
        }
        Ok(())
    }

    /// The entry registered under the full name `name`.
    pub fn get(&self, name: &str) -> (r: Option<&RegistryEntry>)
        requires
            self.wf(),
        ensures
            match r {
                Some(e) => self@.names.contains_key(name@) && e@ == self@.names[name@],
                None => !self@.names.contains_key(name@),
            },
    {
        match self.by_name.get(name) {
            Some(i) => Some(&self.entries[*i]),
            None => None,
        }
    }

    /// The entry whose alias is `alias`.
    pub fn get_by_alias(&self, alias: &str) -> (r: Option<&RegistryEntry>)
        requires
            self.wf(),
        ensures
            match r {
                Some(e) => {
                    &&& self@.aliases.contains_key(alias@)
                    &&& self@.names.contains_key(self@.aliases[alias@])
                    &&& e@ == self@.names[self@.aliases[alias@]]
                },
                None => !self@.aliases.contains_key(alias@),
            },
    {
        match self.by_alias.get(alias) {
            Some(i) => {
                let e = &self.entries[*i];
                proof {
                    assert(self.by_name@.contains_key(e.full_name@));
                }
                Some(e)
            },
            None => None,
        }
    }

    /// Looks `name_or_alias` up as a full name first, then as an alias.
    pub fn resolve(&self, name_or_alias: &str) -> (r: Option<&RegistryEntry>)
        requires
            self.wf(),
        ensures
            self@.names.contains_key(name_or_alias@) ==> (r matches Some(e) && e@
                == self@.names[name_or_alias@]),
            !self@.names.contains_key(name_or_alias@) && self@.aliases.contains_key(name_or_alias@)
                ==> (r matches Some(e) && e@ == self@.names[self@.aliases[name_or_alias@]]),
            !self@.names.contains_key(name_or_alias@) && !self@.aliases.contains_key(
                name_or_alias@,
            ) ==> r is None,
    {
        match self.get(name_or_alias) {
            Some(e) => Some(e),
            None => self.get_by_alias(name_or_alias),
        }
    }

    /// Adds (or replaces) the metadata `key = value` of the entry `name`.
    pub fn add_metadata(&mut self, name: &str, key: &str, value: &str) -> (r: Result<(), RegistryError>)
        requires
            old(self).wf(),
        ensures
            final(self).wf(),
            old(self)@.names.contains_key(name@) ==> {
                &&& r is Ok
                &&& final(self)@.aliases == old(self)@.aliases
                &&& final(self)@.names == old(self)@.names.insert(
                    name@,
                    RegistryEntryView {
                        metadata: old(self)@.names[name@].metadata.insert(key@, value@),
                        ..old(self)@.names[name@]
                    },
                )
            },
            !old(self)@.names.contains_key(name@) ==> (r matches Err(RegistryError::NotFound(s))
                && s@ == name@ && final(self)@ == old(self)@),
    {
        let idx = match self.by_name.get(name) {
            Some(i) => *i,
            None => {
                return Err(RegistryError::NotFound(String::from_str(name)));
            },
        };
        let ghost old_self = *self;
        self.entries[idx].metadata.insert(String::from_str(key), String::from_str(value));
        proof {
            assert forall|i: int| 0 <= i < self.entries@.len() implies {
                &&& #[trigger] self.by_name@.contains_key(self.entries@[i].full_name@)
                &&& self.by_name@[self.entries@[i].full_name@] == i
                &&& self.by_alias@.contains_key(self.entries@[i].alias@)
                &&& self.by_alias@[self.entries@[i].alias@] == i
            } by {
                if i != idx {
                    assert(self.entries@[i] == old_self.entries@[i]);
                }
            }
            assert(self.entries@[idx as int]@.metadata =~= old_self.entries@[idx as int]@.metadata.insert(
                key@,
                value@,
            ));
            assert(self@.names =~= old_self@.names.insert(
                name@,
                RegistryEntryView {
                    metadata: old_self@.names[name@].metadata.insert(key@, value@),
                    ..old_self@.names[name@]
                },
            ));
            assert(self@.aliases =~= old_self@.aliases);
        }
        Ok(())
    }

    /// All registered full names, each once.
    pub fn list_names(&self) -> (r: Vec<&str>)
        requires
            self.wf(),
        ensures
            r@.len() == self.size(),
            forall|i: int| 0 <= i < r@.len() ==> self@.names.contains_key(#[trigger] r@[i]@),
            forall|k: Seq<char>|
                #[trigger] self@.names.contains_key(k) ==> exists|i: int|
                    0 <= i < r@.len() && r@[i]@ == k,
            forall|i: int, j: int| 0 <= i < j < r@.len() ==> r@[i]@ != r@[j]@,
    {
        let mut r: Vec<&str> = Vec::new();
        let mut i: usize = 0;
        while i < self.entries.len()
            invariant
                self.wf(),
                i <= self.entries@.len(),
                r@.len() == i,
                forall|j: int| 0 <= j < i ==> #[trigger] r@[j]@ == self.entries@[j].full_name@,
            decreases self.entries@.len() - i,
        {
            r.push(self.entries[i].full_name.as_str());
            i += 1;
        }
        proof {
            assert forall|k: Seq<char>| #[trigger] self@.names.contains_key(k) implies exists|j: int|
                0 <= j < r@.len() && r@[j]@ == k by {
                let j = self.by_name@[k] as int;
                assert(r@[j]@ == k);
            }
            assert forall|a: int, b: int| 0 <= a < b < r@.len() implies r@[a]@ != r@[b]@ by {
                assert(self.by_name@.contains_key(self.entries@[a].full_name@));
                assert(self.by_name@.contains_key(self.entries@[b].full_name@));
                assert(self.by_name@[self.entries@[a].full_name@] == a);
                assert(self.by_name@[self.entries@[b].full_name@] == b);
            }
        }
        r
    }

    /// All aliases in use, each once.
    pub fn list_aliases(&self) -> (r: Vec<&str>)
        requires
            self.wf(),
        ensures
            r@.len() == self.size(),
            forall|i: int| 0 <= i < r@.len() ==> self@.aliases.contains_key(#[trigger] r@[i]@),
            forall|a: Seq<char>|
                #[trigger] self@.aliases.contains_key(a) ==> exists|i: int|
                    0 <= i < r@.len() && r@[i]@ == a,
            forall|i: int, j: int| 0 <= i < j < r@.len() ==> r@[i]@ != r@[j]@,
    {
        let mut r: Vec<&str> = Vec::new();
        let mut i: usize = 0;
        while i < self.entries.len()
            invariant
                self.wf(),
                i <= self.entries@.len(),
                r@.len() == i,
                forall|j: int| 0 <= j < i ==> #[trigger] r@[j]@ == self.entries@[j].alias@,
            decreases self.entries@.len() - i,
        {
            r.push(self.entries[i].alias.as_str());
            i += 1;
        }
        proof {
            assert forall|j: int| 0 <= j < r@.len() implies self@.aliases.contains_key(
                #[trigger] r@[j]@,
            ) by {
                assert(self.by_name@.contains_key(self.entries@[j].full_name@));
            }
            assert forall|a: Seq<char>| #[trigger] self@.aliases.contains_key(a) implies exists|j: int|
                0 <= j < r@.len() && r@[j]@ == a by {
                let j = self.by_alias@[a] as int;
                assert(r@[j]@ == a);
            }
            assert forall|a: int, b: int| 0 <= a < b < r@.len() implies r@[a]@ != r@[b]@ by {
                assert(self.by_name@.contains_key(self.entries@[a].full_name@));
                assert(self.by_name@.contains_key(self.entries@[b].full_name@));
                assert(self.by_alias@[self.entries@[a].alias@] == a);
                assert(self.by_alias@[self.entries@[b].alias@] == b);
            }
        }
        r
    }
}

impl Default for Registry {
    fn default() -> (r: Self)
        ensures
            r.wf(),
            r@.names == Map::<Seq<char>, RegistryEntryView>::empty(),
            r@.aliases == Map::<Seq<char>, Seq<char>>::empty(),
    {
        Self::new()
    }
}

/// In every registry, aliases and names correspond one to one: every alias
/// names a registered entry whose alias it is, and every entry is found
/// again under its full name and under its alias.
pub proof fn lemma_registry_aliases_match_names(r: &Registry)
    requires
        r.wf(),
    ensures
        forall|a: Seq<char>|
            #[trigger] r@.aliases.contains_key(a) ==> r@.names.contains_key(r@.aliases[a])
                && r@.names[r@.aliases[a]].alias == a,
        forall|n: Seq<char>|
            #[trigger] r@.names.contains_key(n) ==> {
                &&& r@.names[n].full_name == n
                &&& r@.aliases.contains_key(r@.names[n].alias)
                &&& r@.aliases[r@.names[n].alias] == n
            },
{
    assert forall|a: Seq<char>| #[trigger] r@.aliases.contains_key(a) implies r@.names.contains_key(
        r@.aliases[a],
    ) && r@.names[r@.aliases[a]].alias == a by {
        let i = r.by_alias@[a] as int;
        assert(r.by_name@.contains_key(r.entries@[i].full_name@));
    }
    assert forall|n: Seq<char>| #[trigger] r@.names.contains_key(n) implies {
        &&& r@.names[n].full_name == n
        &&& r@.aliases.contains_key(r@.names[n].alias)
        &&& r@.aliases[r@.names[n].alias] == n
    } by {
        let i = r.by_name@[n] as int;
        assert(r.by_alias@.contains_key(r.entries@[i].alias@));
    }
}

} // verus!
