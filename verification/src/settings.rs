use vstd::prelude::*;

verus! {

/// The side a configured stock is traded on.
#[derive(Debug, Clone, Copy, PartialEq, Eq, Structural)]
pub enum Action {
    Long,
    Short,
    Hold,
    All,
}

/// The indicators that a stock can be configured with.
#[derive(Debug, Clone, Copy, PartialEq, Eq, Hash, Structural)]
pub enum IndicatorType {
    BollingerBands,
    ExponentialMovingAverage,
    MaxDrawdown,
    MaxDrawup,
    Maximum,
    MeanAbsoluteDeviation,
    Minimum,
    RateOfChange,
    RelativeStrengthIndex,
    SimpleMovingAverage,
    StandardDeviation,
}

/// One stock's settings.
#[derive(Debug)]
pub struct Stockconfig {
    pub name: String,
    pub symbol: String,
    pub indicator: Vec<IndicatorType>,
    pub action: Action,
    pub buffersize: usize,
}

} // verus!
