use vstd::prelude::*;
use crate::time::Timestamp;

verus! {

/// Resets an indicator to the state it had when it was constructed. The
/// configuration (the duration, a multiplier) is kept.
pub trait Reset {
    fn reset(&mut self);
}

/// Consumes one observation, a timestamp and a value of type `T`, and returns
/// the indicator's reading after it.
pub trait Next<T> {
    type Output;

    fn next(&mut self, input: (Timestamp, T)) -> Self::Output;
}

} // verus!
