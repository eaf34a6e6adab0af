use rolling_indicators::config::{AppConfig, ConfigError, Stored};
use rolling_indicators::error::TaError;
use rolling_indicators::text::{decimal_label, push_decimal, wrap};
use rolling_indicators::time::{Duration, Timestamp};
use rolling_indicators::window::{Boundary, TimeWindow};

// ---- time ----

#[test]
fn a_duration_counts_whole_seconds_toward_zero() {
    assert_eq!(Duration::seconds(90).num_seconds(), 90);
    assert_eq!(Duration::new(1, 999_999_999).unwrap().num_seconds(), 1);
    // a second and a half back: -2 whole seconds and half a second above
    assert_eq!(Duration::new(-2, 500_000_000).unwrap().num_seconds(), -1);
    assert_eq!(Duration::new(-2, 0).unwrap().num_seconds(), -2);
    assert_eq!(Duration::seconds(i64::MIN).num_seconds(), i64::MIN);
}

#[test]
fn a_duration_counts_whole_days_toward_zero() {
    assert_eq!(Duration::days(3).num_days(), 3);
    assert_eq!(Duration::seconds(86_399).num_days(), 0);
    assert_eq!(Duration::seconds(86_400).num_days(), 1);
    assert_eq!(Duration::seconds(-86_399).num_days(), 0);
    assert_eq!(Duration::seconds(-86_400).num_days(), -1);
    assert_eq!(Duration::seconds(-200_000).num_days(), -2);
    assert_eq!(Duration::seconds(i64::MIN).num_days(), -106_751_991_167_300);
    assert_eq!(Duration::seconds(i64::MAX).num_days(), 106_751_991_167_300);
}

#[test]
fn a_duration_is_positive_above_nothing() {
    assert!(Duration::seconds(1).is_positive());
    assert!(Duration::new(0, 1).unwrap().is_positive());
    assert!(!Duration::seconds(0).is_positive());
    assert!(!Duration::new(-1, 999_999_999).unwrap().is_positive());
}

#[test]
fn nanoseconds_stay_below_a_second() {
    assert!(Duration::new(0, 1_000_000_000).is_none());
    assert!(Timestamp::new(0, 1_000_000_000).is_none());
    assert!(Timestamp::new(0, u32::MAX).is_none());
    let t = Timestamp::new(-5, 999_999_999).unwrap();
    assert_eq!(t.secs(), -5);
    assert_eq!(t.subsec_nanos(), 999_999_999);
    assert_eq!(Duration::new(7, 8).unwrap().subsec_nanos(), 8);
    assert_eq!(Duration::days(2), Duration::seconds(172_800));
}

#[test]
fn instants_compare_against_a_moving_edge() {
    let now = Timestamp::from_secs(100);
    let span = Duration::seconds(10);
    assert!(Timestamp::from_secs(90).not_after(&now, &span));
    assert!(!Timestamp::from_secs(90).before(&now, &span));
    assert!(Timestamp::from_secs(89).before(&now, &span));
    assert!(!Timestamp::new(90, 1).unwrap().not_after(&now, &span));
    assert!(Boundary::Inclusive.is_stale(&Timestamp::from_secs(90), &now, &span));
    assert!(!Boundary::Exclusive.is_stale(&Timestamp::from_secs(90), &now, &span));
    // a span back in time moves the edge ahead
    assert!(Timestamp::from_secs(105).before(&now, &Duration::seconds(-10)));
    // the widest difference there is
    assert!(Timestamp::from_secs(i64::MIN).before(
        &Timestamp::from_secs(i64::MAX),
        &Duration::seconds(i64::MIN)
    ));
}

#[test]
fn a_duration_has_two_texts() {
    assert_eq!(Duration::seconds(5).debug_label(), "Duration { secs: 5, nanos: 0 }");
    let d = Duration::new(-3, 25).unwrap();
    assert_eq!(d.debug_label(), format!("{:?}", d));
    assert_eq!(Duration::seconds(864_000).label(), "864000s");
    assert_eq!(d.label(), "-3s+25ns");
    assert_eq!(Duration::seconds(0).label(), "0s");
}

// ---- text ----

#[test]
fn decimal_text_of_whole_numbers() {
    assert_eq!(decimal_label(0), "0");
    assert_eq!(decimal_label(7), "7");
    assert_eq!(decimal_label(10), "10");
    assert_eq!(decimal_label(-5), "-5");
    assert_eq!(decimal_label(1_234_567_890), "1234567890");
    assert_eq!(decimal_label(i64::MAX), "9223372036854775807");
    assert_eq!(decimal_label(i64::MIN), "-9223372036854775808");
    let mut out = String::from("n = ");
    push_decimal(&mut out, -40);
    assert_eq!(out, "n = -40");
    assert_eq!(wrap("<", &String::from("x"), ">"), "<x>");
}

// ---- the window ----

#[test]
fn a_window_wants_a_positive_duration() {
    assert_eq!(TimeWindow::<u8>::new(Duration::seconds(0)).err(), Some(TaError::InvalidParameter));
    assert_eq!(
        TimeWindow::<u8>::new(Duration::seconds(-4)).err(),
        Some(TaError::InvalidParameter)
    );
    let w = TimeWindow::<u8>::new(Duration::new(0, 1).unwrap()).unwrap();
    assert!(w.is_empty());
    assert_eq!(w.len(), 0);
    assert!(w.front().is_none());
    assert!(w.back().is_none());
    assert_eq!(w.duration(), Duration::new(0, 1).unwrap());
}

#[test]
fn a_window_hands_out_what_it_evicts() {
    let mut w = TimeWindow::new(Duration::seconds(10)).unwrap();
    for i in 0..6 {
        w.push(Timestamp::from_secs(i), i as u32);
    }
    assert_eq!(w.len(), 6);
    let gone = w.evict_older_than(Timestamp::from_secs(12), Boundary::Inclusive);
    let gone: Vec<u32> = gone.iter().map(|o| o.value).collect();
    assert_eq!(gone, vec![0, 1, 2]);
    assert_eq!(w.front().unwrap().value, 3);
    assert_eq!(w.back().unwrap().value, 5);
    assert_eq!(w.get(1).value, 4);
    let gone = w.evict_older_than(Timestamp::from_secs(13), Boundary::Exclusive);
    assert!(gone.is_empty());
    let gone = w.evict_older_than(Timestamp::from_secs(13), Boundary::Inclusive);
    assert_eq!(gone.len(), 1);
    assert_eq!(gone[0].time, Timestamp::from_secs(3));
    w.clear();
    assert!(w.is_empty());
    assert_eq!(w.duration(), Duration::seconds(10));
}

#[test]
fn eviction_stops_at_the_first_that_stays() {
    let mut w = TimeWindow::new(Duration::seconds(10)).unwrap();
    w.push(Timestamp::from_secs(100), 'a');
    w.push(Timestamp::from_secs(50), 'b');
    w.push(Timestamp::from_secs(105), 'c');
    // 50 is stale at 112 and stands behind 100, which is not
    let gone = w.evict_older_than(Timestamp::from_secs(105), Boundary::Inclusive);
    assert!(gone.is_empty());
    assert_eq!(w.len(), 3);
    let gone = w.evict_older_than(Timestamp::from_secs(110), Boundary::Inclusive);
    let gone: Vec<char> = gone.iter().map(|o| o.value).collect();
    assert_eq!(gone, vec!['a', 'b']);
    assert_eq!(w.len(), 1);
}

#[test]
fn a_window_fed_in_order_holds_nothing_too_old() {
    let span = Duration::seconds(7);
    for edge in [Boundary::Inclusive, Boundary::Exclusive] {
        let mut w = TimeWindow::new(span).unwrap();
        let mut now = 0;
        for step in [0, 1, 1, 5, 0, 7, 2, 30, 3, 3, 4] {
            now += step;
            let t = Timestamp::from_secs(now);
            w.evict_older_than(t, edge);
            w.push(t, now);
            for i in 0..w.len() {
                assert!(!edge.is_stale(&w.get(i).time, &t, &span));
                if i > 0 {
                    assert!(w.get(i - 1).value <= w.get(i).value);
                }
            }
            assert_eq!(w.back().unwrap().value, now);
        }
    }
}

// ---- settings ----

fn custom() -> AppConfig {
    let mut c = AppConfig::default();
    c.username = String::from("someone");
    c.entries = 3;
    c
}

#[test]
fn the_default_settings() {
    let c = AppConfig::default();
    assert_eq!(c.grpcport, "http://[::1]:50051");
    assert_eq!(c.username, "testuser");
    assert_eq!(c.password, "testPW");
    assert_eq!(c.baseurl, "http://localhost:8000");
    assert_eq!(c.urlget, "/te?q=123+eq+123 AND ");
    assert_eq!(
        c.urlfilter,
        vec![(String::from("aa::bb::cc"), vec![String::from("AA"), String::from("BB")])]
    );
    assert_eq!(c.entries, 10);
    assert_eq!(c.filter1, "AAccount");
    assert_eq!(c.filter2, "Update");
    assert_eq!(c.urlput, "/users");
    assert!(c.printmode);
    assert!(!c.checkmode);
    assert!(!c.filemode);
    assert_eq!(c.filelist, "list.csv");
}

#[test]
fn stored_settings_are_handed_on() {
    let r = AppConfig::default().confload(Stored::Found(Ok(custom())));
    let c = r.unwrap();
    assert_eq!(c.username, "someone");
    assert_eq!(c.entries, 3);
    let r = AppConfig::default().load_or_initialize(Stored::Found(Ok(custom())));
    assert_eq!(r.unwrap().username, "someone");
}

#[test]
fn missing_settings_become_the_default_ones() {
    let r = custom().confload(Stored::Missing(Ok(())));
    let c = r.unwrap();
    assert_eq!(c.username, "testuser");
    assert_eq!(c.entries, 10);
}

#[test]
fn a_failed_step_is_reported() {
    let r = AppConfig::default()
        .confload(Stored::Found(Err(ConfigError::InvalidConfig(String::from("line 3")))));
    assert!(matches!(r, Err(ConfigError::InvalidConfig(m)) if m == "line 3"));
    let r = AppConfig::default()
        .confload(Stored::Found(Err(ConfigError::IoError(String::from("denied")))));
    assert!(matches!(r, Err(ConfigError::IoError(m)) if m == "denied"));
    let r = AppConfig::default()
        .load_or_initialize(Stored::Missing(Err(ConfigError::IoError(String::from("full")))));
    assert!(matches!(r, Err(ConfigError::IoError(m)) if m == "full"));
}
