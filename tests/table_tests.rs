use watch_drift::format::{push_decimal, push_digits, push_signed_decimal};
use watch_drift::movement::Movement;
use watch_drift::sample::{CalendarDate, WatchTimePair};
use watch_drift::table::{get_left_right_padding, handle_print, markdown_table};
use watch_drift::watch::Watch;

fn pair(watch_time: i64, real_time: i64) -> WatchTimePair {
    WatchTimePair { watch_time, real_time }
}

fn signed(v: i128, places: u32) -> String {
    let mut s = String::new();
    push_signed_decimal(&mut s, v, places);
    s
}

fn unsigned(v: i128, places: u32) -> String {
    let mut s = String::new();
    push_decimal(&mut s, v, places);
    s
}

#[test]
fn padding_centres_with_odd_space_right() {
    assert_eq!(get_left_right_padding("Type", 10), (3, 3));
    assert_eq!(get_left_right_padding("Drift", 10), (2, 3));
    assert_eq!(get_left_right_padding("Watch Name", 10), (0, 0));
    assert_eq!(get_left_right_padding("é", 4), (1, 1));
}

#[test]
fn decimals_print_like_floats() {
    assert_eq!(signed(5000, 3), "+5");
    assert_eq!(signed(152_083, 3), "+152.083");
    assert_eq!(signed(-500, 3), "-0.5");
    assert_eq!(signed(0, 3), "+0");
    assert_eq!(signed(1_010, 3), "+1.01");
    assert_eq!(unsigned(100, 2), "1");
    assert_eq!(unsigned(2388, 2), "23.88");
    assert_eq!(unsigned(5, 2), "0.05");
    assert_eq!(unsigned(-250, 2), "-2.5");
    let mut s = String::new();
    push_digits(&mut s, 1_234_567_890);
    assert_eq!(s, "1234567890");
}

#[test]
fn cells_of_a_watch() {
    let mut w = Watch::new("Seiko".to_string(), Movement::Mechanical);
    assert_eq!(w.table_print_name(), "Seiko");
    assert_eq!(w.drift_cell(), "??");
    w.start_measure(pair(0, 0));
    assert_eq!(w.table_print_name(), "* Seiko *");
    assert_eq!(w.end_measure(pair(86_405_000, 86_400_000)), Ok(()));
    assert_eq!(w.table_print_name(), "Seiko");
    assert_eq!(w.drift_cell(), "+5s/day, (1 days)");
    w.log_wear(CalendarDate { year: 2024, month: 1, day: 2 });
    assert_eq!(w.wears_cell(), "1 days");
}

#[test]
fn table_of_two_watches() {
    let mut seiko = Watch::new("Seiko".to_string(), Movement::Mechanical);
    seiko.start_measure(pair(0, 0));
    assert_eq!(seiko.end_measure(pair(86_405_000, 86_400_000)), Ok(()));
    seiko.log_wear(CalendarDate { year: 2024, month: 1, day: 1 });
    seiko.log_wear(CalendarDate { year: 2024, month: 1, day: 2 });
    let mut casio = Watch::new("Casio".to_string(), Movement::Quartz);
    casio.start_measure(pair(0, 0));
    let all = vec![casio, seiko];
    let expected = "\n| Watch Name |    Type    |       Drift       | Num. Wears |\n|------------|------------|-------------------|------------|\n|   Seiko    | Mechanical | +5s/day, (1 days) |   2 days   |\n| * Casio *  |   Quartz   |        ??         |   0 days   |\n";
    assert_eq!(markdown_table(&all), expected);
    assert_eq!(handle_print(&all), expected);
}

#[test]
fn table_orders_equal_wears_latest_first() {
    let all = vec![
        Watch::new("A".to_string(), Movement::Quartz),
        Watch::new("B".to_string(), Movement::Quartz),
    ];
    let text = handle_print(&all);
    let b = text.find(" B ").unwrap();
    let a = text.find(" A ").unwrap();
    assert!(b < a);
}

#[test]
fn empty_table_has_header_only() {
    let text = handle_print(&Vec::new());
    assert_eq!(
        text,
        "\n| Watch Name |    Type    | Drift | Num. Wears |\n|------------|------------|-------|------------|\n"
    );
}
