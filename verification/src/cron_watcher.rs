//! The cron watcher: tells when a schedule is due, once per occurrence.
//!
//! The watcher holds the time of the next occurrence as Unix seconds in an
//! atomic cell. Whoever finds that time reached tries to replace it by the
//! occurrence after; of all who try for one occurrence only one succeeds,
//! and only that one is told that the schedule is due.

use cron::Schedule;
use std::sync::atomic::AtomicI64;
use std::sync::atomic::Ordering;
use vstd::prelude::*;
use vstd::std_specs::cmp::PartialEqSpecImpl;

verus! {

/// The time that stands for "no further occurrence".
pub const NONE_TIMESTAMP: i64 = -0x8000_0000_0000_0000;

#[verifier::external_type_specification]
#[verifier::external_body]
pub struct ExSchedule(Schedule);

/// Wraps `Schedule::upcoming` of cron with the local time zone, and `next` on
/// what it returns: the first occurrence of the schedule after the present
/// moment, as Unix seconds, if there is one. The result depends on the clock
/// and on the time zone of the machine; nothing is claimed of it.
#[verifier::external_body]
fn upcoming_timestamp(schedule: &Schedule) -> Option<i64> {
    match schedule.upcoming(chrono::Local).next() {
        Some(occurrence) => Some(occurrence.timestamp()),
        None => None,
    }
}

/// Wraps `Local::now` of chrono: the present moment as Unix seconds. Nothing
/// is claimed of it.
#[verifier::external_body]
fn now_timestamp() -> i64 {
    chrono::Local::now().timestamp()
}

/// Wraps `Clone::clone` of cron's `Schedule`, which the crate derives: the
/// copy is the schedule it was made from, field by field.
#[verifier::external_body]
fn clone_schedule(schedule: &Schedule) -> (r: Schedule)
    ensures
        r == *schedule,
{
    schedule.clone()
}

/// Wraps `PartialEq::eq` of cron's `Schedule`, which compares the texts the
/// two schedules were read from. Nothing is claimed of the result.
#[verifier::external_body]
fn same_schedule(a: &Schedule, b: &Schedule) -> bool {
    a == b
}

/// Whether a schedule whose next occurrence is at `current` is due at `now`:
/// it has a next occurrence, and that time is reached.
pub open spec fn due(current: i64, now: i64) -> bool {
    current != NONE_TIMESTAMP && now >= current
}

/// Whether a schedule whose next occurrence is at `current` is due at `now`.
pub fn is_due(current: i64, now: i64) -> (r: bool)
    ensures
        r == due(current, now),
{
    current != NONE_TIMESTAMP && now >= current
}

/// The time to store for an optional next occurrence.
pub fn next_or_sentinel(next: Option<i64>) -> (r: i64)
    ensures
        r == match next {
            Some(t) => t,
            None => NONE_TIMESTAMP,
        },
{
    match next {
        Some(t) => t,
        None => NONE_TIMESTAMP,
    }
}

/// The next occurrence that a stored time stands for.
pub fn occurrence_of(stored: i64) -> (r: Option<i64>)
    ensures
        r == if stored == NONE_TIMESTAMP {
            None
        } else {
            Some(stored)
        },
{
    if stored == NONE_TIMESTAMP {
        None
    } else {
        Some(stored)
    }
}

/// What an attempt to replace `expected` by `new` does to a cell that holds
/// `cell`: whether it succeeds, and what the cell holds afterwards. The
/// attempt succeeds exactly if the cell holds `expected`.
pub open spec fn exchanged(cell: i64, expected: i64, new: i64) -> (bool, i64) {
    if cell == expected {
        (true, new)
    } else {
        (false, cell)
    }
}

/// Of two callers that found the same occurrence due, at most one is told
/// so: once the first has put a later occurrence in its place, the attempt
/// of the second fails, whatever it wants to put there. This holds as long as
/// the occurrence that the first puts in place is not the one it found.
pub proof fn lemma_one_claim_per_occurrence(cell: i64, current: i64, first: i64, second: i64)
    requires
        first != current,
    ensures
        exchanged(cell, current, first).0 ==> !exchanged(
            exchanged(cell, current, first).1,
            current,
            second,
        ).0,
{
}

/// A caller that does not find the occurrence due leaves the cell as it is.
pub proof fn lemma_failed_claim_changes_nothing(cell: i64, current: i64, new: i64)
    ensures
        !exchanged(cell, current, new).0 ==> exchanged(cell, current, new).1 == cell,
{
}

/// A schedule and the time of its next occurrence.
#[derive(Debug)]
pub struct CronWatcher {
    schedule: Schedule,
    /// The next occurrence as Unix seconds, or `NONE_TIMESTAMP`.
    pub next: AtomicI64,
}

impl CronWatcher {
    /// The schedule that the watcher watches.
    pub closed spec fn watched(&self) -> Schedule {
        self.schedule
    }

    /// A watcher for `schedule` whose next occurrence is the first one after
    /// the present moment. Which moment that is the clock decides, and the
    /// cell that holds it has no value that a contract could speak of.
    pub fn new(schedule: &Schedule) -> (r: CronWatcher)
        ensures
            r.watched() == *schedule,
    {
        let schedule = clone_schedule(schedule);
        let next = next_or_sentinel(upcoming_timestamp(&schedule));
        CronWatcher { schedule, next: AtomicI64::new(next) }
    }

    /// The next occurrence, as Unix seconds. The time that stands for "no
    /// further occurrence" is never handed out as one.
    pub fn load_next(&self) -> (r: Option<i64>)
        ensures
            r != Some(NONE_TIMESTAMP),
    {
        occurrence_of(self.next.load(Ordering::SeqCst))
    }

    /// Whether the schedule is due now. See `is_ready_at`.
    pub fn is_ready(&self) -> bool {
        self.is_ready_at(now_timestamp())
    }

    /// Whether the schedule is due at `now`, and this caller is the one to
    /// act on it.
    ///
    /// 1. The next occurrence is read. If there is none, or `now` is before
    ///    it, the schedule is not due.
    /// 2. Else the occurrence after the present moment is computed, and put
    ///    in place of the one that was read, unless another caller has
    ///    replaced that one meanwhile.
    /// 3. The answer is yes only if the replacement took place.
    ///
    /// The cell is shared, so the contract cannot say what is read from it,
    /// nor whether the replacement takes place: it says that the answer is
    /// yes only where an occurrence is reached at `now`.
    pub fn is_ready_at(&self, now: i64) -> (r: bool)
        ensures
            r ==> exists|current: i64| due(current, now),
    {
        let current = self.next.load(Ordering::SeqCst);
        if !is_due(current, now) {
            return false;
        }
        assert(due(current, now));
        let new_next = next_or_sentinel(upcoming_timestamp(&self.schedule));
        self.next.compare_exchange(current, new_next, Ordering::SeqCst, Ordering::SeqCst).is_ok()
    }
}

impl PartialEq for CronWatcher {
    /// Whether the two watchers have the same schedule and the same next
    /// occurrence.
    fn eq(&self, other: &CronWatcher) -> (r: bool) {
        same_schedule(&self.schedule, &other.schedule) && self.next.load(Ordering::SeqCst)
            == other.next.load(Ordering::SeqCst)
    }
}

impl PartialEqSpecImpl for CronWatcher {
    /// The comparison reads shared cells and an opaque schedule: it has no
    /// mathematical meaning.
    open spec fn obeys_eq_spec() -> bool {
        false
    }

    open spec fn eq_spec(&self, other: &CronWatcher) -> bool {
        true
    }
}

impl Eq for CronWatcher {

}

} // verus!
