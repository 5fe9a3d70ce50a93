use vstd::prelude::*;

verus! {

/// Try with custom error message
pub trait TryErr2<T, E> {
    /// try with custom error message
    fn try_err2(&self, err: E) -> Result<T, E>;
}

/// Try with custom error message
pub trait TryErr<T, E> {
    /// try with custom error message
    fn try_err(self, err: E) -> Result<T, E>;
}

impl<T: Clone, E> TryErr2<T, E> for Option<T> {
    /// A clone of the value, or the error when there is none.
    fn try_err2(&self, err: E) -> (r: Result<T, E>)
        ensures
            match *self {
                Some(v) => r matches Ok(x) && cloned(v, x),
                None => r == Err::<T, E>(err),
            },
    {
        match self {
            Some(v) => Ok(v.clone()),
            None => Err(err),
        }
    }
}

impl<T, E> TryErr<T, E> for Option<T> {
    /// The value, or the error when there is none.
    fn try_err(self, err: E) -> (r: Result<T, E>)
        ensures
            match self {
                Some(v) => r == Ok::<T, E>(v),
                None => r == Err::<T, E>(err),
            },
    {
        match self {
            Some(v) => Ok(v),
            None => Err(err),
        }
    }
}

impl<T, E, E2> TryErr<T, E> for Result<T, E2> {
    /// The value, or the given error in place of the one there is.
    fn try_err(self, err: E) -> (r: Result<T, E>)
        ensures
            match self {
                Ok(v) => r == Ok::<T, E>(v),
                Err(_) => r == Err::<T, E>(err),
            },
    {
        match self {
            Ok(v) => Ok(v),
            Err(_) => Err(err),
        }
    }
}

impl<E> TryErr<(), E> for bool {
    /// `Ok(())` when true, the error when false.
    fn try_err(self, err: E) -> (r: Result<(), E>)
        ensures
            r == (if self {
                Ok::<(), E>(())
            } else {
                Err::<(), E>(err)
            }),
    {
        if self {
            Ok(())
        } else {
            Err(err)
        }
    }
}

} // verus!
