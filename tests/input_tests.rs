use watch_drift::input::{
    first_watch_guess, selection_step, time_entry_step, Key, SelectionStep, TimeEntryStep,
};

#[test]
fn selection_moves_within_list() {
    assert_eq!(selection_step(0, 3, Key::Up), SelectionStep::Stay);
    assert_eq!(selection_step(1, 3, Key::Up), SelectionStep::Move(0));
    assert_eq!(selection_step(1, 3, Key::Down), SelectionStep::Move(2));
    assert_eq!(selection_step(2, 3, Key::Down), SelectionStep::Stay);
    assert_eq!(selection_step(2, 3, Key::Enter), SelectionStep::Choose(2));
    assert_eq!(selection_step(0, 3, Key::Interrupt), SelectionStep::Abort);
    assert_eq!(selection_step(0, 3, Key::Other), SelectionStep::Stay);
}

#[test]
fn time_entry_moves_by_minutes() {
    assert_eq!(first_watch_guess(1_000), Some(56_000));
    assert_eq!(first_watch_guess(i64::MAX), None);
    assert_eq!(time_entry_step(0, Key::Up), TimeEntryStep::Show(60_000));
    assert_eq!(time_entry_step(0, Key::Down), TimeEntryStep::Show(-60_000));
    assert_eq!(time_entry_step(5, Key::Enter), TimeEntryStep::Accept);
    assert_eq!(time_entry_step(5, Key::Other), TimeEntryStep::Stay);
    assert_eq!(time_entry_step(i64::MAX, Key::Up), TimeEntryStep::Stay);
}
