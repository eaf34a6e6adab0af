use chrono::{DateTime, NaiveDateTime, TimeZone, Utc};
use rolling_indicators::indicators::{
    BollingerBands, ExponentialMovingAverage, MaxDrawdown, MaxDrawup, Maximum,
    MeanAbsoluteDeviation, Minimum, RateOfChange, RelativeStrengthIndex, SimpleMovingAverage,
    StandardDeviation,
};
use rolling_indicators::scalar::Scalar;
use rolling_indicators::time::{Duration, Timestamp};
use rolling_indicators::traits::{Next, Reset};

/// Double-precision numbers as the scalar the indicators compute with.
#[derive(Clone, Copy, Debug, PartialEq)]
struct Real(f64);

impl Scalar for Real {
    fn zero() -> Self {
        Real(0.0)
    }

    fn from_count(n: u64) -> Self {
        Real(n as f64)
    }

    fn infinity() -> Self {
        Real(f64::INFINITY)
    }

    fn neg_infinity() -> Self {
        Real(f64::NEG_INFINITY)
    }

    fn lowest() -> Self {
        Real(f64::MIN)
    }

    fn highest() -> Self {
        Real(f64::MAX)
    }

    fn plus(self, rhs: Self) -> Self {
        Real(self.0 + rhs.0)
    }

    fn minus(self, rhs: Self) -> Self {
        Real(self.0 - rhs.0)
    }

    fn times(self, rhs: Self) -> Self {
        Real(self.0 * rhs.0)
    }

    fn over(self, rhs: Self) -> Self {
        Real(self.0 / rhs.0)
    }

    fn root(self) -> Self {
        Real(self.0.sqrt())
    }

    fn magnitude(self) -> Self {
        Real(self.0.abs())
    }

    fn less(self, rhs: Self) -> bool {
        self.0 < rhs.0
    }

    fn same(self, rhs: Self) -> bool {
        self.0 == rhs.0
    }

    fn text(self) -> String {
        format!("{}", self.0)
    }
}

fn round(num: f64) -> f64 {
    (num * 1000.0).round() / 1000.00
}

fn at(time: DateTime<Utc>) -> Timestamp {
    Timestamp::new(time.timestamp(), time.timestamp_subsec_nanos() % 1_000_000_000).unwrap()
}

fn datetime(s: &str) -> DateTime<Utc> {
    NaiveDateTime::parse_from_str(s, "%Y-%m-%d %H:%M:%S").unwrap().and_utc()
}

fn new_year_2020() -> DateTime<Utc> {
    Utc.with_ymd_and_hms(2020, 1, 1, 0, 0, 0).unwrap()
}

fn later(start: DateTime<Utc>, secs: i64) -> Timestamp {
    at(start + chrono::Duration::seconds(secs))
}

fn days_later(start: DateTime<Utc>, days: i64) -> Timestamp {
    at(start + chrono::Duration::days(days))
}

// ---- Bollinger bands ----

#[test]
fn bollinger_bands_test_new() {
    assert!(BollingerBands::new(Duration::days(0), Real(2_f64)).is_err());
    assert!(BollingerBands::new(Duration::days(1), Real(2_f64)).is_ok());
    assert!(BollingerBands::new(Duration::days(2), Real(2_f64)).is_ok());
}

#[test]
fn bollinger_bands_test_next() {
    let mut bb = BollingerBands::new(Duration::days(3), Real(2.0)).unwrap();
    let now = Utc::now();

    let a = bb.next((at(now), Real(2.0)));
    let b = bb.next((days_later(now, 1), Real(5.0)));
    let c = bb.next((days_later(now, 2), Real(1.0)));
    let d = bb.next((days_later(now, 3), Real(6.25)));

    assert_eq!(round(a.0), 2.0);
    assert_eq!(round(b.0), 6.5);
    assert_eq!(round(c.0), 6.066);
    assert_eq!(round(d.0), 8.562);
}

#[test]
fn bollinger_bands_test_reset() {
    let mut bb = BollingerBands::new(Duration::days(5), Real(2.0_f64)).unwrap();
    let now = Utc::now();

    let out = bb.next((at(now), Real(3.0)));

    assert_eq!(out.0, 3.0);

    bb.next((days_later(now, 1), Real(2.5)));
    bb.next((days_later(now, 2), Real(3.5)));
    bb.next((days_later(now, 3), Real(4.0)));

    let out = bb.next((days_later(now, 4), Real(2.0)));

    assert_eq!(round(out.0), 4.414);

    bb.reset();
    let out = bb.next((at(now), Real(3.0)));
    assert_eq!(out.0, 3.0);
}

#[test]
fn bollinger_bands_test_default() {
    BollingerBands::<Real>::default();
}

#[test]
fn bollinger_bands_test_display() {
    let duration = Duration::days(10);
    let bb = BollingerBands::new(duration, Real(3.0_f64)).unwrap();
    assert_eq!(bb.label(), format!("BB({}, 3)", duration.label()));
}

// ---- exponential moving average ----

#[test]
fn exponential_moving_average_test_new() {
    assert!(ExponentialMovingAverage::<Real>::new(Duration::days(0)).is_err());
    assert!(ExponentialMovingAverage::<Real>::new(Duration::days(1)).is_ok());
}

#[test]
fn exponential_moving_average_test_next() {
    let mut ema = ExponentialMovingAverage::new(Duration::days(3)).unwrap();
    let now = Utc::now();

    assert_eq!(ema.next((at(now), Real(2.0))), Real(2.0));
    assert_eq!(ema.next((days_later(now, 1), Real(5.0))), Real(3.5));
    assert_eq!(ema.next((days_later(now, 2), Real(1.0))), Real(2.25));
    assert_eq!(ema.next((days_later(now, 3), Real(6.25))), Real(4.25));
}

#[test]
fn exponential_moving_average_test_reset() {
    let mut ema = ExponentialMovingAverage::new(Duration::days(5)).unwrap();
    let now = Utc::now();

    assert_eq!(ema.next((at(now), Real(4.0))), Real(4.0));
    ema.next((days_later(now, 1), Real(10.0)));
    ema.next((days_later(now, 2), Real(15.0)));
    ema.next((days_later(now, 3), Real(20.0)));
    assert_ne!(ema.next((days_later(now, 4), Real(4.0))), Real(4.0));

    ema.reset();
    assert_eq!(ema.next((at(now), Real(4.0))), Real(4.0));
}

#[test]
fn exponential_moving_average_test_default() {
    let _ema = ExponentialMovingAverage::<Real>::default();
}

#[test]
fn exponential_moving_average_test_display() {
    let ema = ExponentialMovingAverage::<Real>::new(Duration::days(7)).unwrap();
    assert_eq!(ema.label(), "EMA(7 days)");
}

// ---- maximum drawdown ----

#[test]
fn max_drawdown_test_new() {
    assert!(MaxDrawdown::<Real>::new(Duration::seconds(0)).is_err());
    assert!(MaxDrawdown::<Real>::new(Duration::seconds(1)).is_ok());
}

#[test]
fn max_drawdown_test_next() {
    let duration = Duration::seconds(2);
    let mut max = MaxDrawdown::new(duration).unwrap();
    let start_time = new_year_2020();

    assert_eq!(max.next((at(start_time), Real(4.0))), Real(0.0));
    assert_eq!(max.next((later(start_time, 1), Real(2.0))), Real(50.0));
    assert_eq!(max.next((later(start_time, 2), Real(1.0))), Real(75.0));
    assert_eq!(max.next((later(start_time, 3), Real(3.0))), Real(50.0));
    assert_eq!(max.next((later(start_time, 4), Real(4.0))), Real(0.0));
    assert_eq!(max.next((later(start_time, 5), Real(0.0))), Real(100.0));
    assert_eq!(max.next((later(start_time, 6), Real(2.0))), Real(100.0));
    assert_eq!(max.next((later(start_time, 7), Real(3.0))), Real(0.0));
    assert_eq!(max.next((later(start_time, 8), Real(1.5))), Real(50.0));
}

#[test]
fn max_drawdown_test_reset() {
    let duration = Duration::seconds(100);
    let mut max = MaxDrawdown::new(duration).unwrap();
    let start_time = new_year_2020();

    assert_eq!(max.next((at(start_time), Real(4.0))), Real(0.0));
    assert_eq!(max.next((later(start_time, 50), Real(10.0))), Real(0.0));
    assert_eq!(max.next((later(start_time, 100), Real(2.0))), Real(80.0));

    max.reset();
    assert_eq!(max.next((later(start_time, 150), Real(4.0))), Real(0.0));
}

#[test]
fn max_drawdown_test_display() {
    let indicator = MaxDrawdown::<Real>::new(Duration::seconds(7)).unwrap();
    assert_eq!(indicator.label(), "MaxDrawdown(7s)");
}

// ---- maximum drawup ----

#[test]
fn max_drawup_test_new() {
    assert!(MaxDrawup::<Real>::new(Duration::seconds(0)).is_err());
    assert!(MaxDrawup::<Real>::new(Duration::seconds(1)).is_ok());
}

#[test]
fn max_drawup_test_next() {
    let duration = Duration::seconds(2);
    let mut max = MaxDrawup::new(duration).unwrap();
    let start_time = new_year_2020();

    assert_eq!(max.next((at(start_time), Real(4.0))), Real(0.0));
    assert_eq!(max.next((later(start_time, 1), Real(2.0))), Real(0.0));
    assert_eq!(max.next((later(start_time, 2), Real(1.0))), Real(0.0));
    assert_eq!(max.next((later(start_time, 3), Real(3.0))), Real(200.0));
    assert_eq!(max.next((later(start_time, 4), Real(4.0))), Real(300.0));
    assert_eq!(round(max.next((later(start_time, 5), Real(3.0))).0), 33.333);
    assert_eq!(max.next((later(start_time, 6), Real(6.0))), Real(100.0));
    assert_eq!(max.next((later(start_time, 7), Real(9.0))), Real(200.0));
}

#[test]
fn max_drawup_test_reset() {
    let duration = Duration::seconds(100);
    let mut max_drawup = MaxDrawup::new(duration).unwrap();
    let start_time = new_year_2020();

    assert_eq!(max_drawup.next((at(start_time), Real(4.0))), Real(0.0));

    assert_eq!(max_drawup.next((later(start_time, 50), Real(10.0))), Real(150.0));

    assert_eq!(max_drawup.next((later(start_time, 100), Real(2.0))), Real(150.0));

    max_drawup.reset();

    assert_eq!(max_drawup.next((later(start_time, 150), Real(4.0))), Real(0.0));

    assert_eq!(max_drawup.next((later(start_time, 200), Real(8.0))), Real(100.0));
}

#[test]
fn max_drawup_test_display() {
    let indicator = MaxDrawup::<Real>::new(Duration::seconds(7)).unwrap();
    assert_eq!(indicator.label(), "MaxDrawup(7s)");
}

// ---- maximum ----

#[test]
fn maximum_test_new() {
    assert!(Maximum::<Real>::new(Duration::seconds(0)).is_err());
    assert!(Maximum::<Real>::new(Duration::seconds(1)).is_ok());
}

/// The window keeps an observation that is exactly one duration old, so the
/// 5.0 of second 2 still counts at second 4, the 4.0 of second 4 at second 6,
/// and so on.
#[test]
fn maximum_test_next() {
    let duration = Duration::seconds(2);
    let mut max = Maximum::new(duration).unwrap();
    let start_time = new_year_2020();

    assert_eq!(max.next((at(start_time), Real(4.0))), Real(4.0));
    assert_eq!(max.next((later(start_time, 1), Real(1.2))), Real(4.0));
    assert_eq!(max.next((later(start_time, 2), Real(5.0))), Real(5.0));
    assert_eq!(max.next((later(start_time, 3), Real(3.0))), Real(5.0));
    assert_eq!(max.next((later(start_time, 4), Real(4.0))), Real(5.0));
    assert_eq!(max.next((later(start_time, 5), Real(0.0))), Real(4.0));
    assert_eq!(max.next((later(start_time, 6), Real(-1.0))), Real(4.0));
    assert_eq!(max.next((later(start_time, 7), Real(-2.0))), Real(0.0));
    assert_eq!(max.next((later(start_time, 8), Real(-1.5))), Real(-1.0));
}

#[test]
fn maximum_test_reset() {
    let duration = Duration::seconds(100);
    let mut max = Maximum::new(duration).unwrap();
    let start_time = new_year_2020();

    assert_eq!(max.next((at(start_time), Real(4.0))), Real(4.0));
    assert_eq!(max.next((later(start_time, 50), Real(10.0))), Real(10.0));
    assert_eq!(max.next((later(start_time, 100), Real(4.0))), Real(10.0));

    max.reset();
    assert_eq!(max.next((later(start_time, 150), Real(4.0))), Real(4.0));
}

#[test]
fn maximum_test_default() {
    let _ = Maximum::<Real>::default();
}

#[test]
fn maximum_test_display() {
    let indicator = Maximum::<Real>::new(Duration::seconds(7)).unwrap();
    assert_eq!(indicator.label(), "MAX(7s)");
}

// ---- mean absolute deviation ----

fn to_utc_datetime(timestamp: i64) -> Timestamp {
    at(Utc.timestamp_opt(timestamp, 0).unwrap())
}

#[test]
fn mean_absolute_deviation_test_new() {
    assert!(MeanAbsoluteDeviation::<Real>::new(Duration::seconds(0)).is_err());
    assert!(MeanAbsoluteDeviation::<Real>::new(Duration::seconds(1)).is_ok());
}

#[test]
fn mean_absolute_deviation_test_next() {
    let duration = Duration::seconds(5);
    let mut mad = MeanAbsoluteDeviation::new(duration).unwrap();

    let timestamp1 = to_utc_datetime(0);
    let timestamp2 = to_utc_datetime(1);
    let timestamp3 = to_utc_datetime(2);
    let timestamp4 = to_utc_datetime(3);
    let timestamp5 = to_utc_datetime(4);
    let timestamp6 = to_utc_datetime(5);

    assert_eq!(round(mad.next((timestamp1, Real(1.5))).0), 0.0);
    assert_eq!(round(mad.next((timestamp2, Real(4.0))).0), 1.25);
    assert_eq!(round(mad.next((timestamp3, Real(8.0))).0), 2.333);
    assert_eq!(round(mad.next((timestamp4, Real(4.0))).0), 1.813);
    assert_eq!(round(mad.next((timestamp5, Real(4.0))).0), 1.48);
    assert_eq!(round(mad.next((timestamp6, Real(1.5))).0), 1.48);
}

#[test]
fn mean_absolute_deviation_test_reset() {
    let duration = Duration::seconds(5);
    let mut mad = MeanAbsoluteDeviation::new(duration).unwrap();

    let timestamp1 = to_utc_datetime(0);
    let timestamp2 = to_utc_datetime(1);

    assert_eq!(round(mad.next((timestamp1, Real(1.5))).0), 0.0);
    assert_eq!(round(mad.next((timestamp2, Real(4.0))).0), 1.25);

    mad.reset();

    assert_eq!(round(mad.next((timestamp1, Real(1.5))).0), 0.0);
    assert_eq!(round(mad.next((timestamp2, Real(4.0))).0), 1.25);
}

#[test]
fn mean_absolute_deviation_test_default() {
    MeanAbsoluteDeviation::<Real>::default();
}

#[test]
fn mean_absolute_deviation_test_display() {
    let duration = Duration::seconds(10);
    let indicator = MeanAbsoluteDeviation::<Real>::new(duration).unwrap();
    assert_eq!(indicator.label(), format!("MAD({:?})", duration));
}

// ---- minimum ----

#[test]
fn minimum_test_new() {
    assert!(Minimum::<Real>::new(Duration::days(0)).is_err());
    assert!(Minimum::<Real>::new(Duration::days(1)).is_ok());
}

#[test]
fn minimum_test_next() {
    let duration = Duration::days(2);
    let mut min = Minimum::new(duration).unwrap();

    assert_eq!(min.next((at(datetime("2023-01-01 00:00:00")), Real(4.0))), Real(4.0));
    assert_eq!(min.next((at(datetime("2023-01-02 00:00:00")), Real(1.2))), Real(1.2));
    assert_eq!(min.next((at(datetime("2023-01-03 00:00:00")), Real(5.0))), Real(1.2));
    assert_eq!(min.next((at(datetime("2023-01-04 00:00:00")), Real(3.0))), Real(1.2));
    assert_eq!(min.next((at(datetime("2023-01-05 00:00:00")), Real(4.0))), Real(3.0));
    assert_eq!(min.next((at(datetime("2023-01-06 00:00:00")), Real(6.0))), Real(3.0));
    assert_eq!(min.next((at(datetime("2023-01-07 00:00:00")), Real(7.0))), Real(4.0));
    assert_eq!(min.next((at(datetime("2023-01-08 00:00:00")), Real(8.0))), Real(6.0));
    assert_eq!(min.next((at(datetime("2023-01-09 00:00:00")), Real(-9.0))), Real(-9.0));
    assert_eq!(min.next((at(datetime("2023-01-10 00:00:00")), Real(0.0))), Real(-9.0));
}

#[test]
fn minimum_test_reset() {
    let duration = Duration::days(10);
    let mut min = Minimum::new(duration).unwrap();

    assert_eq!(min.next((at(datetime("2023-01-01 00:00:00")), Real(5.0))), Real(5.0));
    assert_eq!(min.next((at(datetime("2023-01-02 00:00:00")), Real(7.0))), Real(5.0));

    min.reset();
    assert_eq!(min.next((at(datetime("2023-01-03 00:00:00")), Real(8.0))), Real(8.0));
}

#[test]
fn minimum_test_default() {
    let _ = Minimum::<Real>::default();
}

#[test]
fn minimum_test_display() {
    let indicator = Minimum::<Real>::new(Duration::days(10)).unwrap();
    assert_eq!(indicator.label(), "MIN(10 days)");
}

// ---- rate of change ----

#[test]
fn rate_of_change_test_new() {
    assert!(RateOfChange::<Real>::new(Duration::seconds(0)).is_err());
    assert!(RateOfChange::<Real>::new(Duration::seconds(1)).is_ok());
    assert!(RateOfChange::<Real>::new(Duration::seconds(100_000)).is_ok());
}

#[test]
fn test_next_f64() {
    let mut roc = RateOfChange::new(Duration::seconds(3)).unwrap();
    let start_time = new_year_2020();

    assert_eq!(round(roc.next((at(start_time), Real(10.0))).0), 0.0);
    assert_eq!(round(roc.next((later(start_time, 1), Real(10.4))).0), 4.0);
    assert_eq!(round(roc.next((later(start_time, 2), Real(10.57))).0), 5.7);
    assert_eq!(round(roc.next((later(start_time, 3), Real(10.8))).0), 8.0);
    assert_eq!(round(roc.next((later(start_time, 4), Real(10.9))).0), 4.808);
    assert_eq!(round(roc.next((later(start_time, 5), Real(10.0))).0), -5.393);
}

#[test]
fn rate_of_change_test_reset() {
    let mut roc = RateOfChange::new(Duration::seconds(3)).unwrap();
    let start_time = new_year_2020();

    roc.next((at(start_time), Real(12.3)));
    roc.next((later(start_time, 1), Real(15.0)));

    roc.reset();

    assert_eq!(round(roc.next((at(start_time), Real(10.0))).0), 0.0);
    assert_eq!(round(roc.next((later(start_time, 1), Real(10.4))).0), 4.0);
    assert_eq!(round(roc.next((later(start_time, 2), Real(10.57))).0), 5.7);
}

// ---- relative strength index ----

#[test]
fn relative_strength_index_test_new() {
    assert!(RelativeStrengthIndex::<Real>::new(Duration::days(0)).is_err());
    assert!(RelativeStrengthIndex::<Real>::new(Duration::days(1)).is_ok());
}

/// With three days the weight of the newest value is one half. After the
/// rise of 0.5 the average gain is 0.25 and the average loss zero; after the
/// fall of 0.5 they are 0.125 and 0.25, which rates 33; after the second fall
/// they are 0.0625 and 0.375, which rates 14.
#[test]
fn relative_strength_index_test_next() {
    let mut rsi = RelativeStrengthIndex::new(Duration::days(3)).unwrap();
    let timestamp = new_year_2020();
    assert_eq!(rsi.next((at(timestamp), Real(10.0))), Real(50.0));
    assert_eq!(rsi.next((days_later(timestamp, 1), Real(10.5))).0.round(), 100.0);
    assert_eq!(rsi.next((days_later(timestamp, 2), Real(10.0))).0.round(), 33.0);
    assert_eq!(rsi.next((days_later(timestamp, 3), Real(9.5))).0.round(), 14.0);
}

#[test]
fn relative_strength_index_test_reset() {
    let mut rsi = RelativeStrengthIndex::new(Duration::days(3)).unwrap();
    let timestamp = new_year_2020();
    assert_eq!(rsi.next((at(timestamp), Real(10.0))), Real(50.0));
    assert_eq!(rsi.next((days_later(timestamp, 1), Real(10.5))).0.round(), 100.0);

    rsi.reset();
    assert_eq!(rsi.next((at(timestamp), Real(10.0))).0.round(), 50.0);
    assert_eq!(rsi.next((days_later(timestamp, 1), Real(10.5))).0.round(), 100.0);
}

#[test]
fn relative_strength_index_test_default() {
    RelativeStrengthIndex::<Real>::default();
}

#[test]
fn relative_strength_index_test_display() {
    let rsi = RelativeStrengthIndex::<Real>::new(Duration::days(16)).unwrap();
    assert_eq!(rsi.label(), "RSI(16 days)");
}

// ---- simple moving average ----

#[test]
fn simple_moving_average_test_new() {
    assert!(SimpleMovingAverage::<Real>::new(Duration::seconds(0)).is_err());
    assert!(SimpleMovingAverage::<Real>::new(Duration::seconds(1)).is_ok());
}

#[test]
fn simple_moving_average_test_next() {
    let duration = Duration::seconds(4);
    let mut sma = SimpleMovingAverage::new(duration).unwrap();
    let start_time = Utc::now();
    assert_eq!(sma.next((at(start_time), Real(4.0))), Real(4.0));
    assert_eq!(sma.next((later(start_time, 1), Real(5.0))), Real(4.5));
    assert_eq!(sma.next((later(start_time, 2), Real(6.0))), Real(5.0));
    assert_eq!(sma.next((later(start_time, 3), Real(6.0))), Real(5.25));
    assert_eq!(sma.next((later(start_time, 4), Real(6.0))), Real(5.75));
    assert_eq!(sma.next((later(start_time, 5), Real(6.0))), Real(6.0));
    assert_eq!(sma.next((later(start_time, 6), Real(2.0))), Real(5.0));
    // test explicit out of bounds
    assert_eq!(sma.next((later(start_time, 6 + 4), Real(2.0))), Real(2.0));
}

#[test]
fn simple_moving_average_test_reset() {
    let duration = Duration::seconds(4);
    let mut sma = SimpleMovingAverage::new(duration).unwrap();
    let start_time = Utc::now();
    assert_eq!(sma.next((at(start_time), Real(4.0))), Real(4.0));
    assert_eq!(sma.next((later(start_time, 1), Real(5.0))), Real(4.5));
    assert_eq!(sma.next((later(start_time, 2), Real(6.0))), Real(5.0));

    sma.reset();
    assert_eq!(sma.next((later(start_time, 3), Real(99.0))), Real(99.0));
}

#[test]
fn simple_moving_average_test_default() {
    let _sma = SimpleMovingAverage::<Real>::default();
}

#[test]
fn simple_moving_average_test_display() {
    let duration = Duration::seconds(5);
    let sma = SimpleMovingAverage::<Real>::new(duration).unwrap();
    assert_eq!(sma.label(), format!("SMA({:?})", duration));
}

// ---- standard deviation ----

#[test]
fn standard_deviation_test_new() {
    assert!(StandardDeviation::<Real>::new(Duration::seconds(0)).is_err());
    assert!(StandardDeviation::<Real>::new(Duration::seconds(1)).is_ok());
}

#[test]
fn standard_deviation_test_next() {
    let duration = Duration::seconds(4);
    let mut sd = StandardDeviation::new(duration).unwrap();
    let now = Utc::now();
    assert_eq!(sd.next((later(now, 1), Real(10.0))), Real(0.0));
    assert_eq!(sd.next((later(now, 2), Real(20.0))), Real(5.0));
    assert_eq!(round(sd.next((later(now, 3), Real(30.0))).0), 8.165);
    assert_eq!(round(sd.next((later(now, 4), Real(20.0))).0), 7.071);
    assert_eq!(round(sd.next((later(now, 5), Real(10.0))).0), 7.071);
    assert_eq!(round(sd.next((later(now, 6), Real(100.0))).0), 35.355);
}

#[test]
fn standard_deviation_test_reset() {
    let duration = Duration::seconds(4);
    let mut sd = StandardDeviation::new(duration).unwrap();
    let now = Utc::now();
    assert_eq!(sd.next((at(now), Real(10.0))), Real(0.0));
    assert_eq!(sd.next((later(now, 1), Real(20.0))), Real(5.0));
    assert_eq!(round(sd.next((later(now, 2), Real(30.0))).0), 8.165);

    sd.reset();
    assert_eq!(sd.next((later(now, 3), Real(20.0))), Real(0.0));
}

#[test]
fn standard_deviation_test_default() {
    let _sd = StandardDeviation::<Real>::default();
}

#[test]
fn standard_deviation_test_display() {
    let duration = Duration::seconds(5);
    let sd = StandardDeviation::<Real>::new(duration).unwrap();
    assert_eq!(sd.label(), format!("SD({:?})", duration));
}
