use chrono::{DateTime, Local};
use cron::Schedule;
use dispenser::cron_watcher::{is_due, next_or_sentinel, occurrence_of, CronWatcher, NONE_TIMESTAMP};
use std::str::FromStr;
use std::sync::atomic::Ordering;

fn make_schedule(expr: &str) -> Schedule {
    Schedule::from_str(expr).expect("Failed to parse cron expression")
}

fn as_local(timestamp: i64) -> DateTime<Local> {
    DateTime::from_timestamp(timestamp, 0).unwrap().with_timezone(&Local)
}

#[test]
fn test_new_initializes_with_next_timestamp() {
    // Every second schedule - should always have a next occurrence
    let schedule = make_schedule("* * * * * *");
    let watcher = CronWatcher::new(&schedule);

    let next = watcher.load_next();
    assert!(next.is_some(), "Expected next timestamp to be set");

    let next_dt = as_local(next.unwrap());
    assert!(
        next_dt > chrono::Local::now(),
        "Next timestamp should be in the future"
    );
}

#[test]
fn test_load_next_returns_none_for_none_timestamp() {
    let schedule = make_schedule("* * * * * *");
    let watcher = CronWatcher::new(&schedule);

    // Manually set the next timestamp to NONE_TIMESTAMP
    watcher.next.store(NONE_TIMESTAMP, Ordering::SeqCst);

    assert!(
        watcher.load_next().is_none(),
        "Expected None when timestamp is NONE_TIMESTAMP"
    );
}

#[test]
fn test_load_next_returns_datetime_for_valid_timestamp() {
    let schedule = make_schedule("* * * * * *");
    let watcher = CronWatcher::new(&schedule);

    let next = watcher.load_next();
    assert!(next.is_some());

    // Verify the returned time is reasonable (within the next second)
    let next_dt = as_local(next.unwrap());
    let now = chrono::Local::now();
    let diff = next_dt.signed_duration_since(now);
    assert!(
        diff.num_seconds() <= 1,
        "Next occurrence should be within 1 second for per-second schedule"
    );
}

#[test]
fn test_is_ready_returns_false_when_not_yet_time() {
    // Schedule far in the future (year 2099)
    let schedule = make_schedule("0 0 0 1 1 * 2099");
    let watcher = CronWatcher::new(&schedule);

    assert!(
        !watcher.is_ready(),
        "Should not be ready when next time is in the future"
    );
}

#[test]
fn test_is_ready_returns_true_and_updates_when_time_passed() {
    let schedule = make_schedule("* * * * * *");
    let watcher = CronWatcher::new(&schedule);

    // Set the next timestamp to a time in the past
    let past_timestamp = chrono::Local::now().timestamp() - 10;
    watcher.next.store(past_timestamp, Ordering::SeqCst);

    let old_next = watcher.next.load(Ordering::SeqCst);
    assert!(watcher.is_ready(), "Should be ready when time has passed");

    // Verify the next timestamp was updated
    let new_next = watcher.next.load(Ordering::SeqCst);
    assert!(
        new_next > old_next,
        "Next timestamp should be updated after is_ready returns true"
    );
}

#[test]
fn test_is_ready_returns_false_when_next_is_none() {
    let schedule = make_schedule("* * * * * *");
    let watcher = CronWatcher::new(&schedule);

    // Set to NONE_TIMESTAMP
    watcher.next.store(NONE_TIMESTAMP, Ordering::SeqCst);

    assert!(
        !watcher.is_ready(),
        "Should not be ready when next timestamp is None"
    );
}

#[test]
fn test_partial_eq_same_schedule_same_next() {
    let schedule = make_schedule("0 0 * * * *");
    let watcher1 = CronWatcher::new(&schedule);
    let watcher2 = CronWatcher::new(&schedule);

    // Both should have the same next timestamp since they use the same schedule
    assert_eq!(watcher1, watcher2);
}

#[test]
fn test_partial_eq_same_schedule_different_next() {
    let schedule = make_schedule("0 0 * * * *");
    let watcher1 = CronWatcher::new(&schedule);
    let watcher2 = CronWatcher::new(&schedule);

    // Modify one watcher's next timestamp
    watcher2.next.store(12345, Ordering::SeqCst);

    assert_ne!(watcher1, watcher2);
}

#[test]
fn test_partial_eq_different_schedule() {
    let schedule1 = make_schedule("0 0 * * * *");
    let schedule2 = make_schedule("0 30 * * * *");
    let watcher1 = CronWatcher::new(&schedule1);
    let watcher2 = CronWatcher::new(&schedule2);

    assert_ne!(watcher1, watcher2);
}

#[test]
fn test_is_ready_boundary_condition_exact_time() {
    let schedule = make_schedule("* * * * * *");
    let watcher = CronWatcher::new(&schedule);

    // Set next to exactly now
    let now_timestamp = chrono::Local::now().timestamp();
    watcher.next.store(now_timestamp, Ordering::SeqCst);

    // Should be ready since now >= next
    assert!(
        watcher.is_ready(),
        "Should be ready when current time equals next time"
    );
}

#[test]
fn due_means_reached_and_not_the_sentinel() {
    assert!(is_due(100, 100));
    assert!(is_due(100, 101));
    assert!(!is_due(100, 99));
    assert!(!is_due(NONE_TIMESTAMP, i64::MAX));
    assert!(!is_due(NONE_TIMESTAMP, NONE_TIMESTAMP));
    assert_eq!(NONE_TIMESTAMP, i64::MIN);
}

#[test]
fn sentinel_stands_for_no_occurrence() {
    assert_eq!(next_or_sentinel(None), NONE_TIMESTAMP);
    assert_eq!(next_or_sentinel(Some(42)), 42);
    assert_eq!(occurrence_of(NONE_TIMESTAMP), None);
    assert_eq!(occurrence_of(42), Some(42));
}

#[test]
fn each_occurrence_is_consumed_once() {
    let schedule = make_schedule("0 0 0 1 1 * 2099");
    let watcher = CronWatcher::new(&schedule);
    watcher.next.store(1_000, Ordering::SeqCst);
    // The occurrence at 1000 is due at 2000; the next one is in 2099.
    assert!(watcher.is_ready_at(2_000));
    assert!(!watcher.is_ready_at(2_000));
    assert!(!watcher.is_ready_at(2_001));
    assert!(watcher.load_next().unwrap() > 2_001);
}

#[test]
fn nothing_is_due_at_the_earliest_time() {
    let schedule = make_schedule("* * * * * * *");
    let watcher = CronWatcher::new(&schedule);
    // No occurrence is reached at the time that stands for "none": a stored
    // time is either that one, or later.
    assert!(!watcher.is_ready_at(i64::MIN));
    watcher.next.store(i64::MIN + 1, Ordering::SeqCst);
    assert!(!watcher.is_ready_at(i64::MIN));
    assert!(watcher.is_ready_at(i64::MIN + 1));
}

#[test]
fn a_watcher_watches_the_schedule_it_was_given() {
    let schedule = make_schedule("0 30 9 * * Mon-Fri *");
    let other = make_schedule("0 0 12 * * * *");
    let watcher = CronWatcher::new(&schedule);
    let same = CronWatcher::new(&schedule);
    let different = CronWatcher::new(&other);
    same.next.store(7, Ordering::SeqCst);
    different.next.store(7, Ordering::SeqCst);
    watcher.next.store(7, Ordering::SeqCst);
    assert!(watcher == same);
    assert!(watcher != different);
}

#[test]
fn the_sentinel_is_never_an_occurrence() {
    let schedule = make_schedule("* * * * * * *");
    let watcher = CronWatcher::new(&schedule);
    watcher.next.store(NONE_TIMESTAMP, Ordering::SeqCst);
    assert_eq!(watcher.load_next(), None);
    watcher.next.store(NONE_TIMESTAMP + 1, Ordering::SeqCst);
    assert_eq!(watcher.load_next(), Some(NONE_TIMESTAMP + 1));
}
