use vstd::prelude::*;

verus! {

/// The unit of a duration given as a number.
#[derive(Clone, Copy, Debug, PartialEq, Eq, Structural)]
pub enum DurType {
    Second,
    MilliSecond,
    NanoSecond,
}

} // verus!
