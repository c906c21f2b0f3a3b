//! Functional helpers, second edition: `Either`, `Option` helpers, value
//! and lazy conditionals, get/set with defaults and their curried forms.

use vstd::prelude::*;

verus! {

/// A value of one of two types.
pub enum Either<L, R> {
    Left(L),
    Right(R),
}

impl<L, R> Either<L, R> {
    /// Whether this is a `Left`.
    pub fn is_left(&self) -> (r: bool)
        ensures
            r == (*self is Left),
    {
        matches!(self, Either::Left(_))
    }

    /// Whether this is a `Right`.
    pub fn is_right(&self) -> (r: bool)
        ensures
            r == (*self is Right),
    {
        matches!(self, Either::Right(_))
    }

    /// Applies `f` to a `Right` value; a `Left` is passed through unchanged.
    pub fn map_right<F, S>(self, f: F) -> (r: Either<L, S>)
        where
            F: FnOnce(R) -> S,
        requires
            self matches Either::Right(v) ==> f.requires((v,)),
        ensures
            self matches Either::Left(l) ==> r == Either::<L, S>::Left(l),
            self matches Either::Right(v) ==> (r matches Either::Right(s) && f.ensures((v,), s)),
    {
        match self {
            Either::Left(l) => Either::Left(l),
            Either::Right(v) => Either::Right(f(v)),
        }
    }

    /// The `Right` value; calling it on a `Left` is a programming error.
    pub fn unwrap_right(self) -> (r: R)
        requires
            self is Right,
        ensures
            self == Either::<L, R>::Right(r),
    {
        match self {
            Either::Right(v) => v,
            Either::Left(_) => {
                proof {
                    assert(false);
                }
                unreached()
            },
        }
    }
}

/// Monadic bind on `Option`: `f` applied to the value, `None` stays `None`.
pub fn bind<T, R, F>(value: Option<T>, f: F) -> (r: Option<R>)
    where
        F: FnOnce(T) -> Option<R>,
    requires
        value matches Some(v) ==> f.requires((v,)),
    ensures
        value is None ==> r is None,
        value matches Some(v) ==> f.ensures((v,), r),
{
    match value {
        Some(v) => f(v),
        None => None,
    }
}

/// Functor map on `Option`: `f` applied to the value, `None` stays `None`.
pub fn fmap<T, R, F>(value: Option<T>, f: F) -> (r: Option<R>)
    where
        F: FnOnce(T) -> R,
    requires
        value matches Some(v) ==> f.requires((v,)),
    ensures
        value is None ==> r is None,
        value matches Some(v) ==> (r matches Some(w) && f.ensures((v,), w)),
{
    match value {
        Some(v) => Some(f(v)),
        None => None,
    }
}

/// Calls `f` on a reference to `value` (for side effects) and returns `value`.
pub fn tap<T, F>(value: T, f: F) -> (r: T)
    where
        F: FnOnce(&T),
    requires
        f.requires((&value,)),
    ensures
        r == value,
        f.ensures((&value,), ()),
{
    f(&value);
    value
}

/// `1` when `condition` holds, `0` otherwise.
pub fn mask(condition: bool) -> (r: usize)
    ensures
        r == (if condition { 1usize } else { 0usize }),
{
    if condition {
        1
    } else {
        0
    }
}

/// Returns its argument.
pub fn identity<T>(value: T) -> (r: T)
    ensures
        r == value,
{
    value
}


/// The value of `opt` (cloned), or else what `default_fn` returns.
pub fn or_else<T, F>(opt: &Option<T>, default_fn: F) -> (r: T)
    where
        F: FnOnce() -> T,
        T: Clone,
    requires
        opt is None ==> default_fn.requires(()),
    ensures
        opt matches Some(v) ==> cloned(*v, r),
        opt is None ==> default_fn.ensures((), r),
{
    match opt {
        Some(v) => v.clone(),
        None => default_fn(),
    }
}

/// The value of `opt` (cloned), or else `default`.
pub fn get_or_default<T: Clone>(opt: &Option<T>, default: T) -> (r: T)
    ensures
        opt matches Some(v) ==> cloned(*v, r),
        opt is None ==> r == default,
{
    match opt {
        Some(v) => v.clone(),
        None => default,
    }
}

/// The value of `opt` (cloned), or else what `default_fn` returns.
pub fn get_or_default_with<T: Clone, F>(opt: &Option<T>, default_fn: F) -> (r: T)
    where
        F: FnOnce() -> T,
    requires
        opt is None ==> default_fn.requires(()),
    ensures
        opt matches Some(v) ==> cloned(*v, r),
        opt is None ==> default_fn.ensures((), r),
{
    match opt {
        Some(v) => v.clone(),
        None => default_fn(),
    }
}

/// Sets `target` to `value`, or to `default` when `value` is `None`.
pub fn set_or_default<T: Clone>(target: &mut Option<T>, value: Option<T>, default: T)
    ensures
        value matches Some(v) ==> *final(target) == Some(v),
        value is None ==> *final(target) == Some(default),
{
    *target = Some(
        match value {
            Some(v) => v,
            None => default,
        },
    );
}

/// Sets `target` to `value`, or to what `default_fn` returns when `value` is
/// `None`.
pub fn set_or_default_with<T, F>(target: &mut Option<T>, value: Option<T>, default_fn: F)
    where
        F: FnOnce() -> T,
    requires
        value is None ==> default_fn.requires(()),
    ensures
        value matches Some(v) ==> *final(target) == Some(v),
        value is None ==> (*final(target) matches Some(d) && default_fn.ensures((), d)),
{
    *target = Some(
        match value {
            Some(v) => v,
            None => default_fn(),
        },
    );
}

/// `get_or_default` with the default fixed in advance.
pub fn get_curried<T: Clone>(default: T) -> (f: impl Fn(&Option<T>) -> T)
    ensures
        forall|opt: &Option<T>| #[trigger] f.requires((opt,)),
        forall|opt: &Option<T>, r: T|
            #[trigger] f.ensures((opt,), r) ==> (opt matches Some(v) ==> cloned(*v, r)) && (
            opt is None ==> cloned(default, r)),
{
    move |opt: &Option<T>| -> (r: T)
        ensures
            opt matches Some(v) ==> cloned(*v, r),
            opt is None ==> cloned(default, r),
        {
            match opt {
                Some(v) => v.clone(),
                None => default.clone(),
            }
        }
}

/// `set_or_default` with the default fixed in advance.
pub fn set_curried<T: Clone>(default: T) -> (f: impl Fn(&mut Option<T>, Option<T>))
    ensures
        forall|target: &mut Option<T>, value: Option<T>| #[trigger] f.requires((target, value)),
        forall|target: &mut Option<T>, value: Option<T>|
            #[trigger] f.ensures((target, value), ()) ==> (value matches Some(v) ==> *final(target)
                == Some(v)) && (value is None ==> (*final(target) matches Some(d) && cloned(
                default,
                d,
            ))),
{
    move |target: &mut Option<T>, value: Option<T>|
        ensures
            value matches Some(v) ==> *final(target) == Some(v),
            value is None ==> (*final(target) matches Some(d) && cloned(default, d)),
        {
            *target = Some(
                match value {
                    Some(v) => v,
                    None => default.clone(),
                },
            );
        }
}

/// Value-level conditional: `then_val` when `condition` holds, else `else_val`.
pub fn eval<T>(condition: bool, then_val: T, else_val: T) -> (r: T)
    ensures
        r == (if condition { then_val } else { else_val }),
{
    if condition {
        then_val
    } else {
        else_val
    }
}

/// Lazy conditional: runs only the branch that `condition` selects.
pub fn eval_lazy<T, F1, F2>(condition: bool, then_fn: F1, else_fn: F2) -> (r: T)
    where
        F1: FnOnce() -> T,
        F2: FnOnce() -> T,
    requires
        condition ==> then_fn.requires(()),
        !condition ==> else_fn.requires(()),
    ensures
        condition ==> then_fn.ensures((), r),
        !condition ==> else_fn.ensures((), r),
{
    if condition {
        then_fn()
    } else {
        else_fn()
    }
}

} // verus!
