//! Project files as the editor lists them, and which names count as
//! project sources.

use vstd::prelude::*;
use crate::text::{chars_of, same_text, slice_string};

verus! {

/// A listed project file.
#[derive(Debug, Clone)]
pub struct FileInfo {
    pub name: String,
    pub path: String,
    pub size: u64,
    pub modified: String,
}

/// Index of the last `.` in `s`.
pub open spec fn last_dot(s: Seq<char>) -> Option<int>
    decreases s.len(),
{
    if s.len() == 0 {
        None
    } else if s.last() == '.' {
        Some(s.len() - 1)
    } else {
        last_dot(s.drop_last())
    }
}

/// The extension of a file name (`Path::extension`): what follows its last
/// `.`, unless that `.` is the first character or there is none.
pub open spec fn extension_of(name: Seq<char>) -> Option<Seq<char>> {
    match last_dot(name) {
        Some(p) => if p > 0 {
            Some(name.skip(p + 1))
        } else {
            None
        },
        None => None,
    }
}

proof fn lemma_last_dot(s: Seq<char>, k: int)
    requires
        0 <= k <= s.len(),
        forall|i: int| k <= i < s.len() ==> s[i] != '.',
    ensures
        k > 0 && s[k - 1] == '.' ==> last_dot(s) == Some(k - 1),
        k == 0 ==> last_dot(s) is None,
    decreases s.len(),
{
    if s.len() > 0 && s.len() > k {
        lemma_last_dot(s.drop_last(), k);
    }
}

/// The extension of a file name.
pub fn extension(name: &str) -> (r: Option<String>)
    ensures
        r matches Some(e) ==> extension_of(name@) == Some(e@),
        r is None ==> extension_of(name@) is None,
{
    let chars = chars_of(name);
    let n = chars.len();
    let mut k: usize = n;
    while k > 0 && chars[k - 1] != '.'
        invariant
            k <= n,
            n == name@.len(),
            chars@ == name@,
            forall|i: int| k <= i < n ==> name@[i] != '.',
        decreases k,
    {
        k -= 1;
    }
    proof {
        lemma_last_dot(name@, k as int);
    }
    if k > 1 {
        let e = slice_string(name, k, n);
        proof {
            assert(e@ =~= name@.skip(k as int));
        }
        Some(e)
    } else {
        None
    }
}

/// Whether a file name has the `sapri` extension.
pub fn is_sapri_file(name: &str) -> (r: bool)
    ensures
        r == (extension_of(name@) == Some("sapri"@)),
{
    match extension(name) {
        Some(e) => same_text(e.as_str(), "sapri"),
        None => false,
    }
}

} // verus!
