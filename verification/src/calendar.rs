//! Day numbers and Monday-anchored weeks.
//!
//! A calendar date is represented by its day number: the count of days in the
//! proleptic Gregorian calendar with January 1 of year 1 as day 1. That day is
//! a Monday, so the weekday of a date is a function of its day number alone,
//! and a week index computed from day numbers never resets at a year boundary.

use vstd::prelude::*;

verus! {

/// Seconds in a calendar day.
pub const SECONDS_PER_DAY: i64 = 86_400;

/// Day number of January 1, 1970, the day on which Unix time starts.
pub const UNIX_EPOCH_DAY: i64 = 719_163;

/// Local day number of the instant `unix` seconds after the Unix epoch, seen
/// from a zone that is `offset` seconds ahead of UTC.
pub open spec fn day_of(unix: int, offset: int) -> int {
    (unix + offset) / 86_400 + 719_163
}

/// Position of a day in its week: 0 for Monday through 6 for Sunday.
pub open spec fn weekday_of(day: int) -> int {
    (day - 1) % 7
}

/// Day number of the Monday on or before `day`.
pub open spec fn week_start_of(day: int) -> int {
    day - weekday_of(day)
}

/// Monday-anchored week index of `day`: the day number of the Monday of its
/// week, divided by seven and rounded down.
pub open spec fn week_index_of(day: int) -> int {
    week_start_of(day) / 7
}

/// Whether `day` is one of the seven days of the week that contains `reference`.
pub open spec fn in_week_of(day: int, reference: int) -> bool {
    week_start_of(reference) <= day <= week_start_of(reference) + 6
}

/// The week of a day starts on a Monday, ends on the following Sunday six days
/// later, and contains the day itself.
pub proof fn lemma_week_runs_monday_to_sunday(day: int)
    ensures
        weekday_of(week_start_of(day)) == 0,
        weekday_of(week_start_of(day) + 6) == 6,
        in_week_of(day, day),
{
}

/// Consecutive days of one week have consecutive weekdays, counted from the
/// Monday that starts the week.
pub proof fn lemma_weekday_within_week(day: int, reference: int)
    requires
        in_week_of(day, reference),
    ensures
        weekday_of(day) == day - week_start_of(reference),
        week_start_of(day) == week_start_of(reference),
{
}

/// Two days of the same Monday-to-Sunday week have the same week index, so
/// the offset in weeks between them is zero.
pub proof fn lemma_same_week_same_index(day: int, reference: int)
    requires
        in_week_of(day, reference),
    ensures
        week_index_of(day) - week_index_of(reference) == 0,
{
    lemma_weekday_within_week(day, reference);
}

/// The week index grows by exactly one from one week to the next.
pub proof fn lemma_week_index_steps(day: int)
    ensures
        week_index_of(day + 7) == week_index_of(day) + 1,
        week_index_of(day) == (day - 1) / 7,
{
}

/// The week index never decreases as days go by.
pub proof fn lemma_week_index_monotonic(earlier: int, later: int)
    requires
        earlier <= later,
    ensures
        week_index_of(earlier) <= week_index_of(later),
{
    lemma_week_index_steps(earlier);
    lemma_week_index_steps(later);
}

} // verus!
