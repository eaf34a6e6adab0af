use vstd::prelude::*;

verus! {

/// What a decision rule asks for.
#[derive(Clone, Copy, PartialEq, Eq, Debug, Structural)]
pub enum Action {
    Buy,
    Sell,
    Hold,
}

} // verus!
