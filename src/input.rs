use vstd::prelude::*;

verus! {

/// A key pressed while the user picks a watch or sets a time.
#[derive(Clone, Copy, Debug, PartialEq, Eq, Structural)]
pub enum Key {
    Up,
    Down,
    Enter,
    Interrupt,
    Other,
}

/// What a key does to a choice among a list of watches.
#[derive(Clone, Copy, Debug, PartialEq, Eq, Structural)]
pub enum SelectionStep {
    /// The cursor moves to this position.
    Move(usize),
    /// Nothing changes.
    Stay,
    /// The watch at this position is chosen.
    Choose(usize),
    /// The user gave up.
    Abort,
}

/// The effect of `key` on a choice among `count` watches with the cursor at
/// `cursor`: up and down move the cursor within the list, enter chooses.
pub fn selection_step(cursor: usize, count: usize, key: Key) -> (r: SelectionStep)
    requires
        cursor < count,
    ensures
        r == match key {
            Key::Up => if cursor > 0 {
                SelectionStep::Move((cursor - 1) as usize)
            } else {
                SelectionStep::Stay
            },
            Key::Down => if cursor + 1 < count {
                SelectionStep::Move((cursor + 1) as usize)
            } else {
                SelectionStep::Stay
            },
            Key::Enter => SelectionStep::Choose(cursor),
            Key::Interrupt => SelectionStep::Abort,
            Key::Other => SelectionStep::Stay,
        },
{
    match key {
        Key::Up => if cursor > 0 {
            SelectionStep::Move(cursor - 1)
        } else {
            SelectionStep::Stay
        },
        Key::Down => if cursor < count - 1 {
            SelectionStep::Move(cursor + 1)
        } else {
            SelectionStep::Stay
        },
        Key::Enter => SelectionStep::Choose(cursor),
        Key::Interrupt => SelectionStep::Abort,
        Key::Other => SelectionStep::Stay,
    }
}

/// Milliseconds in a minute, the step by which the watch time is set.
pub const MINUTE_MS: i64 = 60000;

/// Milliseconds that the first guess at the watch time lies ahead of the real
/// time at which the user synchronised.
pub const FIRST_GUESS_AHEAD_MS: i64 = 55000;

/// What a key does while the user sets the time shown by the watch.
#[derive(Clone, Copy, Debug, PartialEq, Eq, Structural)]
pub enum TimeEntryStep {
    /// The time shown becomes this one.
    Show(i64),
    /// Nothing changes.
    Stay,
    /// The time shown is accepted.
    Accept,
}

/// The first time offered as the watch's reading; none where it would not fit.
pub fn first_watch_guess(real_time: i64) -> (r: Option<i64>)
    ensures
        real_time + FIRST_GUESS_AHEAD_MS <= i64::MAX ==> r == Some(
            (real_time + FIRST_GUESS_AHEAD_MS) as i64,
        ),
        real_time + FIRST_GUESS_AHEAD_MS > i64::MAX ==> r is None,
{
    real_time.checked_add(FIRST_GUESS_AHEAD_MS)
}

/// The effect of `key` on the watch time offered: up and down move it by a
/// minute (where the result fits), enter accepts it.
pub fn time_entry_step(watch_time: i64, key: Key) -> (r: TimeEntryStep)
    ensures
        r == match key {
            Key::Up => if watch_time + MINUTE_MS <= i64::MAX {
                TimeEntryStep::Show((watch_time + MINUTE_MS) as i64)
            } else {
                TimeEntryStep::Stay
            },
            Key::Down => if watch_time - MINUTE_MS >= i64::MIN {
                TimeEntryStep::Show((watch_time - MINUTE_MS) as i64)
            } else {
                TimeEntryStep::Stay
            },
            Key::Enter => TimeEntryStep::Accept,
            _ => TimeEntryStep::Stay,
        },
{
    match key {
        Key::Up => match watch_time.checked_add(MINUTE_MS) {
            Some(t) => TimeEntryStep::Show(t),
            None => TimeEntryStep::Stay,
        },
        Key::Down => match watch_time.checked_sub(MINUTE_MS) {
            Some(t) => TimeEntryStep::Show(t),
            None => TimeEntryStep::Stay,
        },
        Key::Enter => TimeEntryStep::Accept,
        _ => TimeEntryStep::Stay,
    }
}

} // verus!
