//! Small functional helpers: `Either`, conditional evaluation, monadic
//! `bind`/`fmap` on `Option`, `tap`, `mask` and `identity`.

use vstd::prelude::*;

verus! {

/// A value of one of two types.
pub enum Either<L, R> {
    Left(L),
    Right(R),
}

impl<L, R> Either<L, R> {
    /// Whether this is a `Left`.
    pub fn is_left(&self) -> (r: bool)
        ensures
            r == (*self is Left),
    {
        matches!(self, Either::Left(_))
    }

    /// Whether this is a `Right`.
    pub fn is_right(&self) -> (r: bool)
        ensures
            r == (*self is Right),
    {
        matches!(self, Either::Right(_))
    }

    /// Applies `f` to a `Right` value; a `Left` is passed through unchanged.
    pub fn map_right<F, S>(self, f: F) -> (r: Either<L, S>)
        where
            F: FnOnce(R) -> S,
        requires
            self matches Either::Right(v) ==> f.requires((v,)),
        ensures
            self matches Either::Left(l) ==> r == Either::<L, S>::Left(l),
            self matches Either::Right(v) ==> (r matches Either::Right(s) && f.ensures((v,), s)),
    {
        match self {
            Either::Left(l) => Either::Left(l),
            Either::Right(v) => Either::Right(f(v)),
        }
    }

    /// The `Right` value; calling it on a `Left` is a programming error.
    pub fn unwrap_right(self) -> (r: R)
        requires
            self is Right,
        ensures
            self == Either::<L, R>::Right(r),
    {
        match self {
            Either::Right(v) => v,
            Either::Left(_) => {
                proof {
                    assert(false);
                }
                unreached()
            },
        }
    }
}

/// Runs `op_true` when `condition` holds and `op_false` otherwise, and
/// returns what the branch that ran returned.
pub fn eval<T, F, G>(condition: bool, op_true: F, op_false: G) -> (r: T)
    where
        F: FnOnce() -> T,
        G: FnOnce() -> T,
    requires
        condition ==> op_true.requires(()),
        !condition ==> op_false.requires(()),
    ensures
        condition ==> op_true.ensures((), r),
        !condition ==> op_false.ensures((), r),
{
    if condition {
        op_true()
    } else {
        op_false()
    }
}

/// Monadic bind on `Option`: `f` applied to the value, `None` stays `None`.
pub fn bind<T, R, F>(value: Option<T>, f: F) -> (r: Option<R>)
    where
        F: FnOnce(T) -> Option<R>,
    requires
        value matches Some(v) ==> f.requires((v,)),
    ensures
        value is None ==> r is None,
        value matches Some(v) ==> f.ensures((v,), r),
{
    match value {
        Some(v) => f(v),
        None => None,
    }
}

/// Functor map on `Option`: `f` applied to the value, `None` stays `None`.
pub fn fmap<T, R, F>(value: Option<T>, f: F) -> (r: Option<R>)
    where
        F: FnOnce(T) -> R,
    requires
        value matches Some(v) ==> f.requires((v,)),
    ensures
        value is None ==> r is None,
        value matches Some(v) ==> (r matches Some(w) && f.ensures((v,), w)),
{
    match value {
        Some(v) => Some(f(v)),
        None => None,
    }
}

/// Calls `f` on a reference to `value` (for side effects) and returns `value`.
pub fn tap<T, F>(value: T, f: F) -> (r: T)
    where
        F: FnOnce(&T),
    requires
        f.requires((&value,)),
    ensures
        r == value,
        f.ensures((&value,), ()),
{
    f(&value);
    value
}

/// `1` when `condition` holds, `0` otherwise.
pub fn mask(condition: bool) -> (r: usize)
    ensures
        r == (if condition { 1usize } else { 0usize }),
{
    if condition {
        1
    } else {
        0
    }
}

/// Returns its argument.
pub fn identity<T>(value: T) -> (r: T)
    ensures
        r == value,
{
    value
}

} // verus!
