use watch_drift::drift::SpanUnit;
use watch_drift::movement::Movement;
use watch_drift::sample::{CalendarDate, WatchTimePair};
use watch_drift::watch::{Measure, Watch, WatchError};

const T0: i64 = 1_700_000_000_000;

fn pair(watch_time: i64, real_time: i64) -> WatchTimePair {
    WatchTimePair { watch_time, real_time }
}

fn date(year: i32, month: u32, day: u32) -> CalendarDate {
    CalendarDate { year, month, day }
}

#[test]
fn new_watch_is_empty() {
    let w = Watch::new("Speedmaster".to_string(), Movement::Mechanical);
    assert_eq!(w.name, "Speedmaster");
    assert_eq!(w.movement, Movement::Mechanical);
    assert!(w.logs.is_empty());
    assert!(w.measures.is_empty());
    assert_eq!(w.measure_start(), None);
    assert_eq!(w.drift(), None);
    assert_eq!(w.last_complete_measure(), None);
}

#[test]
fn start_then_end_computes_drift() {
    let mut w = Watch::new("Seiko".to_string(), Movement::Mechanical);
    w.start_measure(pair(T0, T0));
    assert!(w.measures[0].is_in_progress());
    assert_eq!(w.measure_start(), Some(pair(T0, T0)));
    assert_eq!(w.end_measure(pair(T0 + 86_405_000, T0 + 86_400_000)), Ok(()));
    assert_eq!(w.drift(), Some(5000));
    let m = w.last_complete_measure().unwrap();
    assert!(m.is_complete());
    assert_eq!(m.get_measure_time(), (100, SpanUnit::Days));
}

#[test]
fn quartz_watch_drift_per_month() {
    let mut w = Watch::new("Casio".to_string(), Movement::Quartz);
    w.start_measure(pair(T0, T0));
    assert_eq!(w.end_measure(pair(T0 + 86_405_000, T0 + 86_400_000)), Ok(()));
    assert_eq!(w.drift(), Some(152_083));
}

#[test]
fn ending_without_measure_is_refused() {
    let mut w = Watch::new("Casio".to_string(), Movement::Quartz);
    assert_eq!(w.end_measure(pair(T0, T0)), Err(WatchError::NoActiveMeasure));
    assert!(w.measures.is_empty());
}

#[test]
fn ending_before_start_is_refused_and_leaves_watch() {
    let mut w = Watch::new("Casio".to_string(), Movement::Quartz);
    w.start_measure(pair(T0, T0));
    assert_eq!(w.end_measure(pair(T0, T0)), Err(WatchError::InvalidInterval));
    assert_eq!(w.measures.len(), 1);
    assert_eq!(w.measures[0].measure_end, None);
    assert_eq!(w.measures[0].drift, None);
}

#[test]
fn ending_again_overwrites_end() {
    let mut w = Watch::new("Seiko".to_string(), Movement::Mechanical);
    w.start_measure(pair(T0, T0));
    assert_eq!(w.end_measure(pair(T0 + 86_405_000, T0 + 86_400_000)), Ok(()));
    assert_eq!(w.end_measure(pair(T0 + 172_810_000, T0 + 172_800_000)), Ok(()));
    assert_eq!(w.measures.len(), 1);
    assert_eq!(w.drift(), Some(5000));
    assert_eq!(w.measures[0].measure_end, Some(pair(T0 + 172_810_000, T0 + 172_800_000)));
    assert_eq!(w.last_complete_measure().unwrap().get_measure_time(), (200, SpanUnit::Days));
}

#[test]
fn starting_again_appends_second_measure() {
    let mut w = Watch::new("Seiko".to_string(), Movement::Mechanical);
    w.start_measure(pair(T0, T0));
    w.start_measure(pair(T0 + 1_000, T0 + 1_000));
    assert_eq!(w.measures.len(), 2);
    assert!(w.measures[0].is_in_progress());
    assert!(w.measures[1].is_in_progress());
}

#[test]
fn last_complete_measure_skips_open_one() {
    let mut w = Watch::new("Seiko".to_string(), Movement::Mechanical);
    w.start_measure(pair(T0, T0));
    assert_eq!(w.end_measure(pair(T0 + 86_401_000, T0 + 86_400_000)), Ok(()));
    w.start_measure(pair(T0 + 100_000_000, T0 + 100_000_000));
    assert_eq!(w.drift(), None);
    let m = w.last_complete_measure().unwrap();
    assert_eq!(m.drift, Some(1000));
    assert_eq!(m.measure_start, Some(pair(T0, T0)));
}

#[test]
fn recalculating_twice_gives_same_drifts() {
    let mut w = Watch::new("Seiko".to_string(), Movement::Mechanical);
    w.measures.push(Measure {
        drift: Some(999_999),
        measure_start: Some(pair(T0, T0)),
        measure_end: Some(pair(T0 + 86_403_000, T0 + 86_400_000)),
    });
    w.measures.push(Measure { drift: Some(7), measure_start: Some(pair(T0, T0)), measure_end: None });
    assert_eq!(w.update_running(), Ok(()));
    let once: Vec<Option<i128>> = w.measures.iter().map(|m| m.drift).collect();
    assert_eq!(once, vec![Some(3000), None]);
    assert_eq!(w.update_running(), Ok(()));
    let twice: Vec<Option<i128>> = w.measures.iter().map(|m| m.drift).collect();
    assert_eq!(once, twice);
}

#[test]
fn recalculating_with_bad_interval_is_refused() {
    let mut w = Watch::new("Seiko".to_string(), Movement::Mechanical);
    let bad = Measure {
        drift: Some(42),
        measure_start: Some(pair(T0, T0)),
        measure_end: Some(pair(T0, T0)),
    };
    w.measures.push(bad);
    assert_eq!(w.update_running(), Err(WatchError::InvalidInterval));
    assert_eq!(w.measures[0], bad);
}

#[test]
fn recompute_clears_drift_without_end() {
    let mut m = Measure { drift: Some(5), measure_start: Some(pair(T0, T0)), measure_end: None };
    assert_eq!(m.recompute(86_400_000), Ok(()));
    assert_eq!(m.drift, None);
}

#[test]
fn logging_same_day_twice_keeps_one_entry() {
    let mut w = Watch::new("Seiko".to_string(), Movement::Mechanical);
    assert!(w.log_wear(date(2024, 5, 1)));
    assert!(!w.log_wear(date(2024, 5, 1)));
    assert_eq!(w.logs, vec![date(2024, 5, 1)]);
}

#[test]
fn logging_two_days_keeps_both() {
    let mut w = Watch::new("Seiko".to_string(), Movement::Mechanical);
    assert!(w.log_wear(date(2024, 5, 1)));
    assert!(w.log_wear(date(2024, 5, 2)));
    assert_eq!(w.logs, vec![date(2024, 5, 1), date(2024, 5, 2)]);
}

#[test]
fn duplicate_copies_every_field() {
    let mut w = Watch::new("Seiko".to_string(), Movement::Mechanical);
    w.start_measure(pair(T0, T0));
    w.log_wear(date(2024, 1, 1));
    let copy = w.duplicate();
    assert_eq!(copy.name, w.name);
    assert_eq!(copy.movement, w.movement);
    assert_eq!(copy.logs, w.logs);
    assert_eq!(copy.measures, w.measures);
}
