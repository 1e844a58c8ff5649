use todolist::{Timestamp, Todo, TodoState};

fn at(secs: i64, nanos: u32) -> Timestamp {
    Timestamp { secs, nanos }
}

#[test]
fn it_creates_a_new_todo() {
    let todo = Todo::new("My Todo");
    assert_eq!(*todo.title(), String::from("My Todo"));
    assert_eq!(todo.date_finished(), None);
    assert_eq!(todo.state(), TodoState::Active);
}

#[test]
fn it_updates_the_state() {
    let mut todo = Todo::new("My Todo");
    todo.update_state(TodoState::Complete);
    assert_eq!(todo.state(), TodoState::Complete);
}

#[test]
fn new_at_keeps_title_and_instant() {
    let todo = Todo::new_at("Write report", at(1_700_000_000, 250));
    assert_eq!(todo.title().as_str(), "Write report");
    assert_eq!(todo.state(), TodoState::Active);
    assert_eq!(todo.date_created(), at(1_700_000_000, 250));
    assert_eq!(todo.date_finished(), None);
}

#[test]
fn empty_and_duplicate_titles_are_taken() {
    let a = Todo::new_at("", at(1, 0));
    let b = Todo::new_at("", at(1, 0));
    assert_eq!(a.title().as_str(), "");
    assert_eq!(a, b);
}

#[test]
fn new_reads_the_clock() {
    let todo = Todo::new("clock");
    let created = todo.date_created();
    // Any reading taken while this runs lies well after 2017.
    assert!(created.secs > 1_500_000_000);
    assert!(created.nanos < 2_000_000_000);
}

#[test]
fn completing_records_the_instant() {
    let mut todo = Todo::new_at("x", at(100, 0));
    todo.update_state_at(TodoState::Complete, at(105, 7));
    assert_eq!(todo.state(), TodoState::Complete);
    assert_eq!(todo.date_finished(), Some(at(105, 7)));
    assert_eq!(todo.date_created(), at(100, 0));
    assert_eq!(todo.title().as_str(), "x");
}

#[test]
fn completing_again_takes_the_later_instant() {
    let mut todo = Todo::new_at("x", at(100, 0));
    todo.update_state_at(TodoState::Complete, at(105, 0));
    todo.update_state_at(TodoState::Complete, at(110, 0));
    assert_eq!(todo.state(), TodoState::Complete);
    assert_eq!(todo.date_finished(), Some(at(110, 0)));
}

#[test]
fn reopening_clears_the_finishing_instant() {
    let mut todo = Todo::new_at("x", at(100, 0));
    todo.update_state_at(TodoState::Complete, at(105, 0));
    todo.update_state_at(TodoState::Active, at(106, 0));
    assert_eq!(todo.state(), TodoState::Active);
    assert_eq!(todo.date_finished(), None);
    assert_eq!(todo, Todo::new_at("x", at(100, 0)));
}

#[test]
fn update_state_keeps_state_and_instant_in_step() {
    let mut todo = Todo::new("x");
    todo.update_state(TodoState::Complete);
    assert!(todo.date_finished().is_some());
    todo.update_state(TodoState::Active);
    assert_eq!(todo.state(), TodoState::Active);
    assert_eq!(todo.date_finished(), None);
    todo.update_state(TodoState::Active);
    assert_eq!(todo.date_finished(), None);
}

#[test]
fn timestamps_compare_by_seconds_then_nanoseconds() {
    assert!(at(5, 0).is_at_or_after(&at(5, 0)));
    assert!(at(5, 1).is_at_or_after(&at(5, 0)));
    assert!(!at(5, 0).is_at_or_after(&at(5, 1)));
    assert!(at(6, 0).is_at_or_after(&at(5, 999_999_999)));
    assert!(!at(5, 999_999_999).is_at_or_after(&at(6, 0)));
    assert!(at(-1, 0).is_at_or_after(&at(-2, 500)));
    assert!(!at(i64::MIN, 0).is_at_or_after(&at(i64::MAX, 0)));
    // The derived order agrees.
    assert!(at(6, 0) >= at(5, 999_999_999));
    assert!(at(5, 0) < at(5, 1));
}
