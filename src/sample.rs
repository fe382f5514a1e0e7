use vstd::prelude::*;

verus! {

/// One synchronisation: the time read off the watch face and the real time,
/// taken at the same moment. Both are instants in milliseconds since the Unix
/// epoch.
#[derive(Clone, Copy, Debug, PartialEq, Eq, Structural)]
pub struct WatchTimePair {
    pub watch_time: i64,
    pub real_time: i64,
}

/// A day of the calendar, as year, month (1 to 12) and day of the month.
#[derive(Clone, Copy, Debug, PartialEq, Eq, Structural)]
pub struct CalendarDate {
    pub year: i32,
    pub month: u32,
    pub day: u32,
}

} // verus!
