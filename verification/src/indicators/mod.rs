//! The indicators. Each owns its window and its running aggregates, is fed
//! through [`crate::traits::Next`] and cleared through [`crate::traits::Reset`].
pub mod exponential_moving_average;

pub use self::exponential_moving_average::ExponentialMovingAverage;
pub mod relative_strength_index;

pub use self::relative_strength_index::RelativeStrengthIndex;
pub mod simple_moving_average;

pub use self::simple_moving_average::SimpleMovingAverage;
pub mod mean_absolute_deviation;
pub mod rate_of_change;

pub use self::mean_absolute_deviation::MeanAbsoluteDeviation;
pub use self::rate_of_change::RateOfChange;
pub mod bollinger_bands;
pub mod standard_deviation;

pub use self::bollinger_bands::{BollingerBands, BollingerBandsOutput};
pub use self::standard_deviation::StandardDeviation;
pub mod maximum;
pub mod minimum;

pub use self::maximum::Maximum;
pub use self::minimum::Minimum;
pub mod max_drawdown;
pub mod max_drawup;

pub use self::max_drawdown::MaxDrawdown;
pub use self::max_drawup::MaxDrawup;
