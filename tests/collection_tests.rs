use watch_drift::collection::{get_matching_watches, handle_recalculate, NameQuery};
use watch_drift::movement::Movement;
use watch_drift::sample::WatchTimePair;
use watch_drift::watch::{Measure, Watch, WatchError};

const T0: i64 = 1_700_000_000_000;

fn pair(watch_time: i64, real_time: i64) -> WatchTimePair {
    WatchTimePair { watch_time, real_time }
}

fn names(watches: &[Watch]) -> Vec<String> {
    watches.iter().map(|w| w.name.clone()).collect()
}

fn collection() -> Vec<Watch> {
    vec![
        Watch::new("Rolex Submariner".to_string(), Movement::Mechanical),
        Watch::new("Casio F91W".to_string(), Movement::Quartz),
        Watch::new("Seiko SKX".to_string(), Movement::Mechanical),
    ]
}

#[test]
fn saving_new_name_appends() {
    let mut all = collection();
    let w = Watch::new("Omega".to_string(), Movement::Mechanical);
    w.save(&mut all);
    assert_eq!(names(&all), vec!["Rolex Submariner", "Casio F91W", "Seiko SKX", "Omega"]);
}

#[test]
fn saving_same_watch_twice_keeps_one_record() {
    let mut all = collection();
    let mut w = Watch::new("Casio F91W".to_string(), Movement::Quartz);
    w.start_measure(pair(T0, T0));
    w.save(&mut all);
    w.save(&mut all);
    assert_eq!(names(&all), vec!["Rolex Submariner", "Casio F91W", "Seiko SKX"]);
    assert_eq!(all[1].measures.len(), 1);
    let mut fresh = Watch::new("Omega".to_string(), Movement::Quartz);
    fresh.save(&mut all);
    fresh.log_wear(watch_drift::sample::CalendarDate { year: 2024, month: 2, day: 3 });
    fresh.save(&mut all);
    assert_eq!(all.len(), 4);
    assert_eq!(all[3].logs.len(), 1);
}

#[test]
fn query_is_case_insensitive() {
    let q = NameQuery::new("ROLEX").unwrap();
    assert!(q.is_match("Rolex Submariner"));
    assert!(!q.is_match("Casio F91W"));
}

#[test]
fn matching_keeps_collection_order() {
    let all = collection();
    let found = get_matching_watches(&all, "s").unwrap();
    assert_eq!(names(&found), vec!["Rolex Submariner", "Casio F91W", "Seiko SKX"]);
    let found = get_matching_watches(&all, "^se").unwrap();
    assert_eq!(names(&found), vec!["Seiko SKX"]);
    let found = get_matching_watches(&all, "").unwrap();
    assert_eq!(found.len(), 3);
    let found = get_matching_watches(&all, "zzz").unwrap();
    assert!(found.is_empty());
}

#[test]
fn invalid_query_is_refused() {
    let all = collection();
    assert!(matches!(get_matching_watches(&all, "(unclosed"), Err(WatchError::InvalidPattern)));
    assert!(NameQuery::new("[").is_err());
}

#[test]
fn recalculate_updates_matching_watches_only() {
    let mut all = collection();
    let stale = Measure {
        drift: Some(1),
        measure_start: Some(pair(T0, T0)),
        measure_end: Some(pair(T0 + 86_410_000, T0 + 86_400_000)),
    };
    all[0].measures.push(stale);
    all[2].measures.push(stale);
    assert_eq!(handle_recalculate(&mut all, "rolex"), Ok(()));
    assert_eq!(all[0].measures[0].drift, Some(10_000));
    assert_eq!(all[2].measures[0].drift, Some(1));
    assert_eq!(names(&all), vec!["Rolex Submariner", "Casio F91W", "Seiko SKX"]);
}

#[test]
fn recalculate_refuses_bad_interval_without_change() {
    let mut all = collection();
    let bad = Measure {
        drift: Some(3),
        measure_start: Some(pair(T0, T0)),
        measure_end: Some(pair(T0 + 5, T0 - 5)),
    };
    all[1].measures.push(bad);
    assert_eq!(handle_recalculate(&mut all, ""), Err(WatchError::InvalidInterval));
    assert_eq!(all[1].measures[0], bad);
    assert_eq!(handle_recalculate(&mut all, "("), Err(WatchError::InvalidPattern));
}
