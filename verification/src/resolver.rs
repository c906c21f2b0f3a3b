//! Path normalisation (`.x` relative to the current path, `..x` relative to
//! its parent), depth checks, and alias substitution for reference paths.

use vstd::prelude::*;
use vstd::hash_map::StringHashMap;
use crate::text::{split_on, join_with, has_prefix, starts_with, split_char, join_strings, views, slice_string, lemma_split_len, lacks, lemma_split_concat, lemma_split_whole, lemma_join_split};

verus! {

pub use crate::parser_types::ParserMode;

/// Errors of reference resolution.
#[derive(Debug)]
pub enum ResolverError {
    /// The path does not exist.
    PathNotFound { path: String },
    /// The path is already being resolved.
    CircularReference { path: String, stack: Vec<String> },
    /// The path is nested deeper than allowed.
    MaxDepthExceeded { path: String, max_depth: usize },
}

/// Statistics of a function registry.
#[derive(Debug, Clone, Default)]
pub struct RegistryStats {
    pub total_calls: usize,
    pub cache_hits: usize,
    pub cache_misses: usize,
    pub registered_validators: usize,
    pub registered_transforms: usize,
}

/// Statistics of a resolver.
#[derive(Debug, Clone, Default)]
pub struct ResolverStats {
    pub resolved_count: usize,
    pub unresolved_count: usize,
    pub cycle_count: usize,
    pub cache_hits: usize,
    pub cache_misses: usize,
}

pub open spec fn dot() -> Seq<char> {
    seq!['.']
}

/// The canonical form of `raw` read in the context `current`:
/// `..x` names `x` under the parent of `current`, `.x` names `x` under
/// `current`, anything else is absolute.
pub open spec fn normalized_path(raw: Seq<char>, current: Seq<char>) -> Seq<char> {
    if has_prefix(raw, seq!['.', '.']) {
        let relative = raw.skip(2);
        if current.len() == 0 {
            relative
        } else {
            let parent = join_with(split_on(current, '.').drop_last(), dot());
            if parent.len() == 0 {
                relative
            } else {
                parent + dot() + relative
            }
        }
    } else if has_prefix(raw, dot()) {
        let relative = raw.skip(1);
        if current.len() == 0 {
            relative
        } else {
            current + dot() + relative
        }
    } else {
        raw
    }
}

/// Normalises reference paths and checks their depth.
#[derive(Debug, Clone, Default)]
pub struct PathNormalizer {
    max_depth: usize,
}

impl PathNormalizer {
    /// The depth limit.
    pub closed spec fn depth_limit(&self) -> usize {
        self.max_depth
    }

    /// A normaliser allowing paths of at most `max_depth` levels.
    pub fn new(max_depth: usize) -> (n: Self)
        ensures
            n.depth_limit() == max_depth,
    {
        PathNormalizer { max_depth }
    }

    /// The canonical form of `raw` relative to `current_path`.
    pub fn normalize(&self, raw: &str, current_path: &str) -> (r: Result<String, ResolverError>)
        ensures
            r matches Ok(s) && s@ == normalized_path(raw@, current_path@),
    {
        proof {
            reveal_strlit("..");
            reveal_strlit(".");
            assert(".."@ =~= seq!['.', '.']);
            assert("."@ =~= dot());
        }
        let n = raw.unicode_len();
        if starts_with(raw, "..") {
            let relative = slice_string(raw, 2, n);
            if current_path.is_empty() {
                return Ok(relative);
            }
            let mut parts = split_char(current_path, '.');
            proof {
                lemma_split_len(current_path@, '.');
            }
            let ghost all = views(parts@);
            parts.pop();
            proof {
                assert(views(parts@) =~= all.drop_last());
            }
            let mut parent = join_strings(&parts, ".");
            if parent.as_str().is_empty() {
                return Ok(relative);
            }
            parent.append(".");
            parent.append(relative.as_str());
            Ok(parent)
        } else if starts_with(raw, ".") {
            let relative = slice_string(raw, 1, n);
            if current_path.is_empty() {
                return Ok(relative);
            }
            let mut r = String::from_str(current_path);
            r.append(".");
            r.append(relative.as_str());
            Ok(r)
        } else {
            Ok(String::from_str(raw))
        }
    }

    /// Flat key of a path (paths are already flat).
    pub fn flatten(&self, path: &str) -> (r: String)
        ensures
            r@ == path@,
    {
        String::from_str(path)
    }

    /// Whether `path` has at most the allowed number of levels.
    pub fn check_depth(&self, path: &str) -> (r: bool)
        ensures
            r == (split_on(path@, '.').len() <= self.depth_limit()),
    {
        let parts = split_char(path, '.');
        proof {
            assert(views(parts@).len() == parts@.len());
        }
        parts.len() <= self.max_depth
    }
}

/// Aliases of path heads (name → path).
pub struct AliasResolver {
    aliases: StringHashMap<String>,
}

/// The path `path` after replacing its first level by its alias, if that
/// level has one.
pub open spec fn aliased_path(aliases: Map<Seq<char>, Seq<char>>, path: Seq<char>) -> Seq<char> {
    let first = split_on(path, '.')[0];
    if aliases.contains_key(first) {
        aliases[first] + path.skip(first.len() as int)
    } else {
        path
    }
}

/// The first piece of a split is a prefix of the text.
proof fn lemma_split_first_prefix(s: Seq<char>, sep: char)
    ensures
        split_on(s, sep)[0].len() <= s.len(),
        s.take(split_on(s, sep)[0].len() as int) == split_on(s, sep)[0],
    decreases s.len(),
{
    lemma_split_len(s, sep);
    if s.len() == 0 {
        assert(s.take(0) =~= split_on(s, sep)[0]);
    } else if s[0] == sep {
        assert(s.take(0) =~= split_on(s, sep)[0]);
    } else {
        lemma_split_first_prefix(s.drop_first(), sep);
        lemma_split_len(s.drop_first(), sep);
        let r0 = split_on(s.drop_first(), sep)[0];
        assert(s.take((r0.len() + 1) as int) =~= seq![s[0]] + s.drop_first().take(r0.len() as int));
    }
}

impl AliasResolver {
    /// The aliases, name → path.
    pub closed spec fn alias_map(&self) -> Map<Seq<char>, Seq<char>> {
        self.aliases@.map_values(|v: String| v@)
    }

    /// A resolver without aliases.
    pub fn new() -> (r: Self)
        ensures
            r.alias_map() == Map::<Seq<char>, Seq<char>>::empty(),
    {
        let r = AliasResolver { aliases: StringHashMap::new() };
        assert(r.alias_map() =~= Map::<Seq<char>, Seq<char>>::empty());
        r
    }

    /// Registers (or replaces) the alias `name` for `path`.
    pub fn add_alias(&mut self, name: &str, path: &str)
        ensures
            final(self).alias_map() == old(self).alias_map().insert(name@, path@),
    {
        self.aliases.insert(String::from_str(name), String::from_str(path));
        proof {
            assert(self.alias_map() =~= old(self).alias_map().insert(name@, path@));
        }
    }

    /// The path registered for `name`.
    pub fn resolve_alias(&self, name: &str) -> (r: Option<String>)
        ensures
            match r {
                Some(p) => self.alias_map().contains_key(name@) && p@ == self.alias_map()[name@],
                None => !self.alias_map().contains_key(name@),
            },
    {
        match self.aliases.get(name) {
            Some(p) => Some(p.clone()),
            None => None,
        }
    }

    /// `path` with its first level replaced by its alias, if it has one.
    pub fn resolve_path(&self, path: &str) -> (r: String)
        ensures
            r@ == aliased_path(self.alias_map(), path@),
    {
        let parts = split_char(path, '.');
        proof {
            lemma_split_len(path@, '.');
            lemma_split_first_prefix(path@, '.');
            assert(parts@[0]@ == split_on(path@, '.')[0]);
        }
        let first = &parts[0];
        match self.resolve_alias(first.as_str()) {
            Some(resolved) => {
                let k = first.as_str().unicode_len();
                let rest = slice_string(path, k, path.unicode_len());
                let mut r = resolved;
                r.append(rest.as_str());
                proof {
                    assert(rest@ =~= path@.skip(k as int));
                }
                r
            },
            None => String::from_str(path),
        }
    }
}

impl Default for AliasResolver {
    fn default() -> (r: Self)
        ensures
            r.alias_map() == Map::<Seq<char>, Seq<char>>::empty(),
    {
        Self::new()
    }
}

/// A registered alias is found again, and applying it to a path whose first
/// level is that alias puts the registered path in front of the rest.
pub proof fn lemma_alias_roundtrip(r: &AliasResolver, name: Seq<char>, rest: Seq<char>)
    requires
        r.alias_map().contains_key(name),
        crate::text::lacks(name, '.'),
    ensures
        aliased_path(r.alias_map(), name + seq!['.'] + rest) == r.alias_map()[name] + seq!['.'] + rest,
{
    let path = name + seq!['.'] + rest;
    assert(path.take(name.len() as int) =~= name);
    crate::text::lemma_split_front(path, '.', name.len() as int);
    assert(path.skip(name.len() as int) =~= seq!['.'] + rest);
}


/// `..r` read under a current path names `r` under that path's parent: the
/// parent of `p.q` (where the last level `q` holds no `.`) is `p`, with all
/// its levels, so exactly one level is dropped.
pub proof fn lemma_parent_drops_last_level(p: Seq<char>, q: Seq<char>, r: Seq<char>)
    requires
        p.len() > 0,
        lacks(q, '.'),
    ensures
        normalized_path(seq!['.', '.'] + r, p + dot() + q) == p + dot() + r,
{
    let raw = seq!['.', '.'] + r;
    let current = p + dot() + q;
    assert(raw.take(2) =~= seq!['.', '.']);
    assert(raw.skip(2) =~= r);
    lemma_split_concat(p, q, '.');
    lemma_split_whole(q, '.');
    assert(split_on(current, '.') == split_on(p, '.') + seq![q]);
    assert((split_on(p, '.') + seq![q]).drop_last() =~= split_on(p, '.'));
    lemma_join_split(p, '.');
    assert(seq!['.'] == dot());
}


/// `..r` under a one-level path names `r` at the top; `.r` (where `r` does
/// not start another `.`) names `r` under the current path; a path that
/// does not start with `.` is taken as it is.
pub proof fn lemma_relative_and_absolute_paths(q: Seq<char>, c: Seq<char>, r: Seq<char>)
    requires
        q.len() > 0,
        lacks(q, '.'),
        c.len() > 0,
    ensures
        normalized_path(seq!['.', '.'] + r, q) == r,
        !(r.len() > 0 && r[0] == '.') ==> normalized_path(seq!['.'] + r, c) == c + dot() + r,
        !(r.len() > 0 && r[0] == '.') ==> normalized_path(r, c) == r,
{
    assert((seq!['.', '.'] + r).take(2) =~= seq!['.', '.']);
    assert((seq!['.', '.'] + r).skip(2) =~= r);
    lemma_split_whole(q, '.');
    assert(seq![q].drop_last() =~= Seq::<Seq<char>>::empty());
    assert((seq!['.'] + r).take(1) =~= dot());
    assert((seq!['.'] + r).skip(1) =~= r);
    if !(r.len() > 0 && r[0] == '.') {
        if r.len() >= 2 {
            assert(r.take(2) != seq!['.', '.']) by {
                assert(r.take(2)[0] == r[0]);
            }
        }
        if r.len() >= 1 {
            assert(r.take(1) != dot()) by {
                assert(r.take(1)[0] == r[0]);
            }
        }
        assert((seq!['.'] + r).len() < 2 || (seq!['.'] + r).take(2) != seq!['.', '.']) by {
            if (seq!['.'] + r).len() >= 2 {
                assert((seq!['.'] + r).take(2)[1] == r[0]);
            }
        }
    }
}

} // verus!
