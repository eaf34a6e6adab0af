use vstd::prelude::*;

verus! {

/// The one error the engine reports. It is raised at construction only: no
/// `next` or `reset` call ever fails.
#[derive(Debug, PartialEq, Eq, Clone, Copy, Structural)]
pub enum TaError {
    /// A duration that is not positive, or, for the indicators that count in
    /// whole days, one that is shorter than a day.
    InvalidParameter,
}

} // verus!
