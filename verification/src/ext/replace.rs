use vstd::prelude::*;

verus! {

/// Replace current value with another value
pub trait ReplaceWith<T> {
    /// Replace current value with another value
    /// * `another` - another value
    ///
    /// Returns the old value.
    fn replace_with(&mut self, another: T) -> T;
}

impl<T> ReplaceWith<T> for T {
    fn replace_with(&mut self, another: T) -> (r: T)
        ensures
            r == *old(self),
            *final(self) == another,
    {
        let mut v = another;
        std::mem::swap(self, &mut v);
        v
    }
}

} // verus!
