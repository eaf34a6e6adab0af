use chrono::{DateTime, NaiveDateTime, TimeZone, Utc};
use rolling_indicators::error::TaError;
use rolling_indicators::indicators::bollinger_bands::lift;
use rolling_indicators::indicators::rate_of_change::change;
use rolling_indicators::indicators::relative_strength_index::{movement, rating};
use rolling_indicators::indicators::standard_deviation::spread;
use rolling_indicators::indicators::{
    BollingerBands, ExponentialMovingAverage, MaxDrawdown, MaxDrawup, Maximum,
    MeanAbsoluteDeviation, Minimum, RateOfChange, RelativeStrengthIndex, SimpleMovingAverage,
    StandardDeviation,
};
use rolling_indicators::running::average;
use rolling_indicators::scalar::Scalar;
use rolling_indicators::time::{Duration, Timestamp};
use rolling_indicators::traits::{Next, Reset};
use rolling_indicators::window::{Boundary, TimeWindow};

/// Double-precision numbers as the scalar the indicators compute with.
#[derive(Clone, Copy, Debug, PartialEq)]
struct Real(f64);

impl Scalar for Real {
    fn zero() -> Self {
        Real(0.0)
    }

    fn from_count(n: u64) -> Self {
        Real(n as f64)
    }

    fn infinity() -> Self {
        Real(f64::INFINITY)
    }

    fn neg_infinity() -> Self {
        Real(f64::NEG_INFINITY)
    }

    fn lowest() -> Self {
        Real(f64::MIN)
    }

    fn highest() -> Self {
        Real(f64::MAX)
    }

    fn plus(self, rhs: Self) -> Self {
        Real(self.0 + rhs.0)
    }

    fn minus(self, rhs: Self) -> Self {
        Real(self.0 - rhs.0)
    }

    fn times(self, rhs: Self) -> Self {
        Real(self.0 * rhs.0)
    }

    fn over(self, rhs: Self) -> Self {
        Real(self.0 / rhs.0)
    }

    fn root(self) -> Self {
        Real(self.0.sqrt())
    }

    fn magnitude(self) -> Self {
        Real(self.0.abs())
    }

    fn less(self, rhs: Self) -> bool {
        self.0 < rhs.0
    }

    fn same(self, rhs: Self) -> bool {
        self.0 == rhs.0
    }

    fn text(self) -> String {
        format!("{}", self.0)
    }
}

fn round(num: f64) -> f64 {
    (num * 1000.0).round() / 1000.00
}

fn at(time: DateTime<Utc>) -> Timestamp {
    Timestamp::new(time.timestamp(), time.timestamp_subsec_nanos() % 1_000_000_000).unwrap()
}

fn datetime(s: &str) -> DateTime<Utc> {
    NaiveDateTime::parse_from_str(s, "%Y-%m-%d %H:%M:%S").unwrap().and_utc()
}

fn new_year_2020() -> DateTime<Utc> {
    Utc.with_ymd_and_hms(2020, 1, 1, 0, 0, 0).unwrap()
}

fn second(n: i64) -> Timestamp {
    Timestamp::from_secs(n)
}

fn day(n: i64) -> Timestamp {
    Timestamp::from_secs(n * 86_400)
}

fn half_second() -> Duration {
    Duration::new(0, 500_000_000).unwrap()
}

fn prices() -> Vec<(i64, f64)> {
    vec![(0, 10.0), (1, 10.4), (1, 10.57), (3, 10.8), (4, 0.0), (7, 10.0), (8, 3.25), (20, 7.5)]
}

/// Feeds the prices, resets, feeds them again, and returns both runs.
fn twice<I: Next<Real, Output = Real> + Reset>(
    indicator: &mut I,
    step: i64,
) -> (Vec<u64>, Vec<u64>) {
    let mut first = Vec::new();
    for (t, v) in prices() {
        first.push(indicator.next((Timestamp::from_secs(t * step), Real(v))).0.to_bits());
    }
    indicator.reset();
    let mut again = Vec::new();
    for (t, v) in prices() {
        again.push(indicator.next((Timestamp::from_secs(t * step), Real(v))).0.to_bits());
    }
    (first, again)
}

// ---- reset starts over ----

#[test]
fn reset_replays_simple_moving_average() {
    let (a, b) = twice(&mut SimpleMovingAverage::new(Duration::seconds(3)).unwrap(), 1);
    assert_eq!(a, b);
}

#[test]
fn reset_replays_standard_deviation() {
    let (a, b) = twice(&mut StandardDeviation::new(Duration::seconds(3)).unwrap(), 1);
    assert_eq!(a, b);
}

#[test]
fn reset_replays_mean_absolute_deviation() {
    let (a, b) = twice(&mut MeanAbsoluteDeviation::new(Duration::seconds(3)).unwrap(), 1);
    assert_eq!(a, b);
}

#[test]
fn reset_replays_minimum() {
    let (a, b) = twice(&mut Minimum::new(Duration::seconds(3)).unwrap(), 1);
    assert_eq!(a, b);
}

#[test]
fn reset_replays_maximum() {
    let (a, b) = twice(&mut Maximum::new(Duration::seconds(3)).unwrap(), 1);
    assert_eq!(a, b);
}

#[test]
fn reset_replays_max_drawdown() {
    let (a, b) = twice(&mut MaxDrawdown::new(Duration::seconds(3)).unwrap(), 1);
    assert_eq!(a, b);
}

#[test]
fn reset_replays_max_drawup() {
    let (a, b) = twice(&mut MaxDrawup::new(Duration::seconds(3)).unwrap(), 1);
    assert_eq!(a, b);
}

#[test]
fn reset_replays_rate_of_change() {
    let (a, b) = twice(&mut RateOfChange::new(Duration::seconds(3)).unwrap(), 1);
    assert_eq!(a, b);
}

#[test]
fn reset_replays_exponential_moving_average() {
    let (a, b) = twice(&mut ExponentialMovingAverage::new(Duration::days(3)).unwrap(), 86_400);
    assert_eq!(a, b);
}

#[test]
fn reset_replays_relative_strength_index() {
    let (a, b) = twice(&mut RelativeStrengthIndex::new(Duration::days(3)).unwrap(), 86_400);
    assert_eq!(a, b);
}

#[test]
fn reset_replays_bollinger_bands() {
    let (a, b) = twice(&mut BollingerBands::new(Duration::days(3), Real(2.0)).unwrap(), 86_400);
    assert_eq!(a, b);
}

#[test]
fn reset_keeps_the_multiplier() {
    let mut bb = BollingerBands::new(Duration::days(3), Real(1.5)).unwrap();
    bb.next((day(0), Real(1.0)));
    bb.reset();
    assert_eq!(bb.multiplier(), Real(1.5));
    assert_eq!(bb.label(), "BB(259200s, 1.5)");
}

// ---- construction ----

#[test]
fn a_duration_that_is_not_positive_is_refused() {
    for d in [Duration::seconds(0), Duration::seconds(-1), Duration::days(-3)] {
        assert_eq!(SimpleMovingAverage::<Real>::new(d).err(), Some(TaError::InvalidParameter));
        assert_eq!(StandardDeviation::<Real>::new(d).err(), Some(TaError::InvalidParameter));
        assert_eq!(MeanAbsoluteDeviation::<Real>::new(d).err(), Some(TaError::InvalidParameter));
        assert_eq!(Minimum::<Real>::new(d).err(), Some(TaError::InvalidParameter));
        assert_eq!(Maximum::<Real>::new(d).err(), Some(TaError::InvalidParameter));
        assert_eq!(MaxDrawdown::<Real>::new(d).err(), Some(TaError::InvalidParameter));
        assert_eq!(MaxDrawup::<Real>::new(d).err(), Some(TaError::InvalidParameter));
        assert_eq!(RateOfChange::<Real>::new(d).err(), Some(TaError::InvalidParameter));
        assert_eq!(
            ExponentialMovingAverage::<Real>::new(d).err(),
            Some(TaError::InvalidParameter)
        );
        assert_eq!(RelativeStrengthIndex::<Real>::new(d).err(), Some(TaError::InvalidParameter));
        assert_eq!(BollingerBands::new(d, Real(2.0)).err(), Some(TaError::InvalidParameter));
    }
}

#[test]
fn a_positive_duration_is_taken() {
    for d in [half_second(), Duration::seconds(1), Duration::days(400)] {
        assert!(SimpleMovingAverage::<Real>::new(d).is_ok());
        assert!(StandardDeviation::<Real>::new(d).is_ok());
        assert!(MeanAbsoluteDeviation::<Real>::new(d).is_ok());
        assert!(Minimum::<Real>::new(d).is_ok());
        assert!(Maximum::<Real>::new(d).is_ok());
        assert!(MaxDrawdown::<Real>::new(d).is_ok());
        assert!(MaxDrawup::<Real>::new(d).is_ok());
        assert!(RateOfChange::<Real>::new(d).is_ok());
        assert!(BollingerBands::new(d, Real(-1.0)).is_ok());
    }
}

#[test]
fn the_averages_in_days_want_a_whole_day() {
    let almost = Duration::new(86_399, 999_999_999).unwrap();
    assert_eq!(
        ExponentialMovingAverage::<Real>::new(almost).err(),
        Some(TaError::InvalidParameter)
    );
    assert_eq!(RelativeStrengthIndex::<Real>::new(almost).err(), Some(TaError::InvalidParameter));
    assert_eq!(
        ExponentialMovingAverage::<Real>::new(Duration::seconds(1)).err(),
        Some(TaError::InvalidParameter)
    );
    assert!(ExponentialMovingAverage::<Real>::new(Duration::seconds(86_400)).is_ok());
    assert!(RelativeStrengthIndex::<Real>::new(Duration::seconds(86_400)).is_ok());
}

// ---- the edge of the window ----

#[test]
fn an_average_drops_what_is_exactly_one_duration_old() {
    let mut sma = SimpleMovingAverage::new(Duration::seconds(2)).unwrap();
    assert_eq!(sma.next((second(0), Real(10.0))), Real(10.0));
    assert_eq!(sma.next((second(1), Real(20.0))), Real(15.0));
    assert_eq!(sma.next((second(2), Real(30.0))), Real(25.0));
}

#[test]
fn a_minimum_keeps_what_is_exactly_one_duration_old() {
    let mut min = Minimum::new(Duration::seconds(2)).unwrap();
    assert_eq!(min.next((second(0), Real(1.0))), Real(1.0));
    assert_eq!(min.next((second(2), Real(5.0))), Real(1.0));
    assert_eq!(min.next((second(3), Real(6.0))), Real(5.0));
}

#[test]
fn a_rate_of_change_keeps_what_is_exactly_one_duration_old() {
    let mut roc = RateOfChange::new(Duration::seconds(2)).unwrap();
    roc.next((second(0), Real(10.0)));
    assert_eq!(roc.next((second(2), Real(15.0))), Real(50.0));
    assert_eq!(roc.next((second(3), Real(30.0))), Real(100.0));
}

#[test]
fn nanoseconds_count_at_the_edge() {
    let mut sma = SimpleMovingAverage::new(Duration::seconds(1)).unwrap();
    sma.next((Timestamp::new(0, 1).unwrap(), Real(10.0)));
    assert_eq!(sma.next((second(1), Real(20.0))), Real(15.0));
    assert_eq!(sma.next((Timestamp::new(1, 1).unwrap(), Real(40.0))), Real(30.0));
}

// ---- timestamps out of order ----

#[test]
fn a_timestamp_far_ahead_empties_the_window() {
    let mut sma = SimpleMovingAverage::new(Duration::seconds(4)).unwrap();
    sma.next((second(0), Real(1.0)));
    sma.next((second(1), Real(2.0)));
    assert_eq!(sma.next((second(1_000_000), Real(7.0))), Real(7.0));
}

#[test]
fn a_timestamp_far_back_evicts_nothing() {
    let mut sma = SimpleMovingAverage::new(Duration::seconds(4)).unwrap();
    sma.next((second(100), Real(1.0)));
    sma.next((second(101), Real(2.0)));
    assert_eq!(sma.next((second(-50), Real(6.0))), Real(3.0));
    // the old observation stands behind newer ones and stays
    assert_eq!(sma.next((second(102), Real(3.0))), Real(3.0));
}

#[test]
fn the_ends_of_the_time_line_do_no_harm() {
    let mut max = Maximum::new(Duration::seconds(i64::MAX)).unwrap();
    assert_eq!(max.next((second(i64::MIN), Real(1.0))), Real(1.0));
    assert_eq!(max.next((second(i64::MAX), Real(0.5))), Real(0.5));
    let mut min = Minimum::new(Duration::new(0, 1).unwrap()).unwrap();
    assert_eq!(min.next((second(i64::MAX), Real(2.0))), Real(2.0));
    assert_eq!(min.next((second(i64::MIN), Real(3.0))), Real(2.0));
}

#[test]
fn equal_timestamps_are_taken() {
    let mut sma = SimpleMovingAverage::new(Duration::seconds(4)).unwrap();
    sma.next((second(5), Real(1.0)));
    assert_eq!(sma.next((second(5), Real(3.0))), Real(2.0));
}

// ---- degenerate numbers ----

#[test]
fn the_mean_of_nothing_is_zero() {
    assert_eq!(average(Real(12.0), 0), Real(0.0));
    assert_eq!(average(Real(12.0), 4), Real(3.0));
}

#[test]
fn a_rate_of_change_from_zero_is_zero() {
    assert_eq!(change(Real(0.0), Real(5.0)), Real(0.0));
    assert_eq!(change(Real(-0.0), Real(5.0)), Real(0.0));
    assert_eq!(change(Real(10.0), Real(12.0)), Real(20.0));
    assert_eq!(change(Real(8.0), Real(6.0)), Real(-25.0));
    let mut roc = RateOfChange::new(Duration::seconds(10)).unwrap();
    assert_eq!(roc.next((second(0), Real(0.0))), Real(0.0));
    assert_eq!(roc.next((second(1), Real(5.0))), Real(0.0));
}

#[test]
fn a_variance_below_zero_is_raised_to_zero() {
    // (2.9 - 3 * 1) / 3 is below zero
    assert_eq!(spread(Real(3.0), Real(2.9), 3), Real(0.0));
    assert_eq!(spread(Real(3.0), Real(3.0), 0), Real(0.0));
    // sums of 1, 2, 3: variance 2/3
    assert_eq!(round(spread(Real(6.0), Real(14.0), 3).0), 0.816);
    let mut sd = StandardDeviation::new(Duration::seconds(100)).unwrap();
    for i in 0..50 {
        let out = sd.next((second(i), Real(0.1)));
        assert!(out.0 >= 0.0);
    }
}

#[test]
fn the_index_without_losses() {
    assert_eq!(rating(Real(0.0), Real(0.0)), Real(50.0));
    assert_eq!(rating(Real(0.3), Real(0.0)), Real(100.0));
    assert_eq!(rating(Real(0.0), Real(0.3)), Real(0.0));
    assert_eq!(rating(Real(1.0), Real(1.0)), Real(50.0));
    assert_eq!(rating(Real(3.0), Real(1.0)), Real(75.0));
}

#[test]
fn the_rise_and_the_fall() {
    assert_eq!(movement(None, Real(4.0)), (Real(0.0), Real(0.0)));
    assert_eq!(movement(Some(Real(4.0)), Real(5.5)), (Real(1.5), Real(0.0)));
    assert_eq!(movement(Some(Real(4.0)), Real(3.0)), (Real(0.0), Real(1.0)));
    assert_eq!(movement(Some(Real(4.0)), Real(4.0)), (Real(0.0), Real(0.0)));
}

#[test]
fn the_band_above_the_mean() {
    assert_eq!(lift(Real(10.0), Real(1.5), Real(2.0)), Real(13.0));
    assert_eq!(lift(Real(10.0), Real(1.5), Real(-2.0)), Real(7.0));
}

#[test]
fn the_mean_of_the_deviation_is_its_running_mean() {
    let mut sd = StandardDeviation::new(Duration::seconds(10)).unwrap();
    assert_eq!(sd.mean(), Real(0.0));
    sd.next((second(0), Real(2.0)));
    sd.next((second(1), Real(4.0)));
    assert_eq!(sd.mean(), Real(3.0));
}

// ---- the index is made of two averages ----

#[test]
fn the_index_rates_what_two_averages_return_on_their_own() {
    let d = Duration::days(3);
    let mut rsi = RelativeStrengthIndex::new(d).unwrap();
    let mut up = ExponentialMovingAverage::new(d).unwrap();
    let mut down = ExponentialMovingAverage::new(d).unwrap();
    let mut prev = None;
    for (t, v) in prices() {
        let (gain, loss) = movement(prev, Real(v));
        prev = Some(Real(v));
        let avg_up = up.next((day(t), gain));
        let avg_down = down.next((day(t), loss));
        let out = rsi.next((day(t), Real(v)));
        assert_eq!(out.0.to_bits(), rating(avg_up, avg_down).0.to_bits());
    }
}

#[test]
fn the_bands_add_the_deviation_to_the_mean() {
    let d = Duration::days(3);
    let mut bb = BollingerBands::new(d, Real(2.0)).unwrap();
    let mut sd = StandardDeviation::new(d).unwrap();
    let mut sma = SimpleMovingAverage::new(d).unwrap();
    for (t, v) in [(0, 2.0), (1, 5.0), (2, 1.0), (3, 6.25), (9, 4.0)] {
        let out = bb.next((day(t), Real(v)));
        let dev = sd.next((day(t), Real(v)));
        let mean = sma.next((day(t), Real(v)));
        assert_eq!(round(out.0), round(mean.0 + 2.0 * dev.0));
    }
}

#[test]
fn the_drawdown_of_a_steady_rise_is_zero() {
    let mut dd = MaxDrawdown::new(Duration::seconds(100)).unwrap();
    let mut du = MaxDrawup::new(Duration::seconds(100)).unwrap();
    for i in 1..10 {
        assert_eq!(dd.next((second(i), Real(i as f64))), Real(0.0));
        assert_eq!(du.next((second(i), Real(i as f64))), Real((i - 1) as f64 * 100.0));
    }
}

#[test]
fn the_first_reading_is_the_value_itself() {
    let mut ema = ExponentialMovingAverage::new(Duration::days(1)).unwrap();
    assert_eq!(ema.next((day(0), Real(7.0))), Real(7.0));
    // one day: the weight of the newest value is 2 / 2
    assert_eq!(ema.next((day(1), Real(3.0))), Real(3.0));
    let mut ema = ExponentialMovingAverage::new(Duration::days(9)).unwrap();
    ema.next((day(0), Real(10.0)));
    // nine days: the weight is 0.2
    assert_eq!(ema.next((day(1), Real(20.0))), Real(12.0));
}

#[test]
fn labels_name_the_duration() {
    let d = Duration::new(90, 5).unwrap();
    assert_eq!(
        SimpleMovingAverage::<Real>::new(d).unwrap().label(),
        "SMA(Duration { secs: 90, nanos: 5 })"
    );
    assert_eq!(RateOfChange::<Real>::new(d).unwrap().label(), format!("ROC({:?})", d));
    assert_eq!(Maximum::<Real>::new(d).unwrap().label(), "MAX(90s)");
    assert_eq!(Minimum::<Real>::new(d).unwrap().label(), "MIN(0 days)");
    assert_eq!(BollingerBands::new(d, Real(0.5)).unwrap().label(), "BB(90s+5ns, 0.5)");
}

// ---- what the readings are, with numbers that add up exactly ----

fn whole_prices() -> Vec<(i64, f64)> {
    vec![(0, 4.0), (1, 9.0), (2, 2.0), (2, 7.0), (5, 1.0), (6, 12.0), (9, 3.0), (30, 8.0), (31, 5.0)]
}

#[test]
fn the_average_is_the_mean_of_the_window() {
    let span = Duration::seconds(4);
    let mut sma = SimpleMovingAverage::new(span).unwrap();
    let mut window = TimeWindow::new(span).unwrap();
    for (t, v) in whole_prices() {
        let out = sma.next((second(t), Real(v)));
        window.evict_older_than(second(t), Boundary::Inclusive);
        window.push(second(t), v);
        let mut sum = 0.0;
        for i in 0..window.len() {
            sum += window.get(i).value;
        }
        assert_eq!(out.0, sum / window.len() as f64);
    }
}

#[test]
fn the_deviation_is_the_deviation_of_the_window() {
    let span = Duration::seconds(4);
    let mut sd = StandardDeviation::new(span).unwrap();
    let mut mad = MeanAbsoluteDeviation::new(span).unwrap();
    let mut window = TimeWindow::new(span).unwrap();
    for (t, v) in whole_prices() {
        let out = sd.next((second(t), Real(v)));
        let spread = mad.next((second(t), Real(v)));
        window.evict_older_than(second(t), Boundary::Inclusive);
        window.push(second(t), v);
        let n = window.len() as f64;
        let mut sum = 0.0;
        let mut squares = 0.0;
        for i in 0..window.len() {
            sum += window.get(i).value;
            squares += window.get(i).value * window.get(i).value;
        }
        let mean = sum / n;
        assert_eq!(out.0, ((squares - sum * mean) / n).max(0.0).sqrt());
        let mut off = 0.0;
        for i in 0..window.len() {
            off += (window.get(i).value - mean).abs();
        }
        assert_eq!(spread.0, off / n);
    }
}

#[test]
fn the_extremes_bound_the_window() {
    let span = Duration::seconds(4);
    let mut min = Minimum::new(span).unwrap();
    let mut max = Maximum::new(span).unwrap();
    let mut window = TimeWindow::new(span).unwrap();
    for (t, v) in whole_prices() {
        let low = min.next((second(t), Real(v)));
        let high = max.next((second(t), Real(v)));
        window.evict_older_than(second(t), Boundary::Exclusive);
        window.push(second(t), v);
        let mut held = Vec::new();
        for i in 0..window.len() {
            held.push(window.get(i).value);
        }
        assert!(held.iter().all(|x| !(*x < low.0)));
        assert!(held.iter().all(|x| !(high.0 < *x)));
        assert!(held.contains(&low.0));
        assert!(held.contains(&high.0));
    }
}

#[test]
fn a_number_that_is_none_does_not_become_the_least() {
    let mut min = Minimum::new(Duration::seconds(10)).unwrap();
    assert_eq!(min.next((second(0), Real(3.0))), Real(3.0));
    assert_eq!(min.next((second(1), Real(f64::NAN))), Real(3.0));
    assert_eq!(min.next((second(2), Real(2.0))), Real(2.0));
}
