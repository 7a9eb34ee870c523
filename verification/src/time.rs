//! Zoned timestamps: an instant together with the offset of the local zone.

use crate::calendar::{day_of, week_index_of, week_start_of, weekday_of};
use chrono::{Local, TimeZone};
use vstd::prelude::*;

verus! {

/// Earliest Unix timestamp that can be placed in the local zone.
pub const MIN_TIMESTAMP: i64 = -8_334_601_228_800;

/// Latest Unix timestamp that can be placed in the local zone.
pub const MAX_TIMESTAMP: i64 = 8_210_266_876_799;

/// Whether `offset` is a possible distance in seconds between a zone and UTC:
/// strictly less than one day in either direction.
pub open spec fn valid_offset(offset: int) -> bool {
    -86_400 < offset < 86_400
}

/// An instant on the Unix time line, seen from a zone at a fixed offset.
#[derive(Clone, Copy, Debug, PartialEq, Eq, Structural)]
pub struct ZonedTime {
    unix: i64,
    offset: i32,
}

/// What a [`ZonedTime`] stands for.
pub ghost struct ZonedTimeView {
    /// Seconds since the Unix epoch.
    pub unix: int,
    /// Seconds that the zone is ahead of UTC.
    pub offset: int,
}

impl ZonedTimeView {
    /// Day number of the local calendar date.
    pub open spec fn day(self) -> int {
        day_of(self.unix, self.offset)
    }

    /// Weekday of the local date, 0 for Monday through 6 for Sunday.
    pub open spec fn weekday(self) -> int {
        weekday_of(self.day())
    }

    /// Day number of the Monday on or before the local date.
    pub open spec fn week_start(self) -> int {
        week_start_of(self.day())
    }

    /// Monday-anchored week index of the local date.
    pub open spec fn week_index(self) -> int {
        week_index_of(self.day())
    }
}

impl View for ZonedTime {
    type V = ZonedTimeView;

    closed spec fn view(&self) -> ZonedTimeView {
        ZonedTimeView { unix: self.unix as int, offset: self.offset as int }
    }
}

/// Asks chrono's `Local.timestamp_opt(unix, 0)` for the local time at an
/// instant and returns the offset of that local time from UTC in seconds.
///
/// chrono documents that the call yields a single local time for every
/// second count it can represent, and keeps every offset strictly within one
/// day of UTC. Which offset comes back depends on the zone of the machine.
#[verifier::external_body]
fn local_offset_at(unix: i64) -> (offset: i32)
    requires
        MIN_TIMESTAMP <= unix <= MAX_TIMESTAMP,
    ensures
        valid_offset(offset as int),
{
    Local.timestamp_opt(unix, 0).unwrap().offset().local_minus_utc()
}

/// Reads chrono's `Local::now()` and returns its Unix timestamp together
/// with its offset from UTC in seconds.
///
/// The instant is whatever the system clock says; the offset is strictly
/// within one day of UTC, as for every chrono offset.
#[verifier::external_body]
fn clock_now() -> (now: (i64, i32))
    ensures
        valid_offset(now.1 as int),
{
    let now = Local::now();
    (now.timestamp(), now.offset().local_minus_utc())
}

impl ZonedTime {
    #[verifier::type_invariant]
    spec fn well_formed(self) -> bool {
        valid_offset(self.offset as int)
    }

    /// The instant `unix` seen from a zone `offset` seconds ahead of UTC, if
    /// `offset` is less than a day in either direction.
    pub fn new(unix: i64, offset: i32) -> (time: Option<ZonedTime>)
        ensures
            time is Some <==> valid_offset(offset as int),
            time matches Some(t) ==> t@ == (ZonedTimeView { unix: unix as int, offset: offset as int }),
    {
        if -86_400 < offset && offset < 86_400 {
            Some(ZonedTime { unix, offset })
        } else {
            None
        }
    }

    /// The instant `unix` seen from the local zone of this machine.
    pub fn local_at(unix: i64) -> (time: ZonedTime)
        requires
            MIN_TIMESTAMP <= unix <= MAX_TIMESTAMP,
        ensures
            time@.unix == unix,
            valid_offset(time@.offset),
    {
        let offset = local_offset_at(unix);
        ZonedTime { unix, offset }
    }

    /// The instant `unix` seen from the local zone of this machine, if the
    /// timestamp lies between [`MIN_TIMESTAMP`] and [`MAX_TIMESTAMP`].
    pub fn from_timestamp(unix: i64) -> (time: Option<ZonedTime>)
        ensures
            time is Some <==> MIN_TIMESTAMP <= unix <= MAX_TIMESTAMP,
            time matches Some(t) ==> t@.unix == unix && valid_offset(t@.offset),
    {
        if MIN_TIMESTAMP <= unix && unix <= MAX_TIMESTAMP {
            Some(ZonedTime::local_at(unix))
        } else {
            None
        }
    }

    /// The current instant, seen from the local zone of this machine.
    pub fn now() -> (time: ZonedTime)
        ensures
            valid_offset(time@.offset),
    {
        let (unix, offset) = clock_now();
        ZonedTime { unix, offset }
    }

    /// The instant of a zoned time fits in 64 bits and its offset in 32, so
    /// day numbers and week indices are far from the limits of `i64`.
    pub proof fn lemma_view_in_range(self)
        ensures
            i64::MIN <= self@.unix <= i64::MAX,
            i32::MIN <= self@.offset <= i32::MAX,
    {
    }

    /// Seconds since the Unix epoch.
    pub fn timestamp(&self) -> (unix: i64)
        ensures
            unix == self@.unix,
    {
        self.unix
    }

    /// Seconds that the zone is ahead of UTC.
    pub fn offset(&self) -> (offset: i32)
        ensures
            offset == self@.offset,
            valid_offset(offset as int),
    {
        proof {
            use_type_invariant(self);
        }
        self.offset
    }

    /// Day number of the local calendar date.
    pub fn date(&self) -> (day: i64)
        ensures
            day == self@.day(),
    {
        let local: i128 = self.unix as i128 + self.offset as i128;
        let days: i128 = local.checked_div_euclid(86_400).unwrap();
        (days + 719_163) as i64
    }

    /// Weekday of the local date, 0 for Monday through 6 for Sunday.
    pub fn weekday(&self) -> (weekday: i64)
        ensures
            weekday == self@.weekday(),
            0 <= weekday < 7,
    {
        let day = self.date();
        (day - 1).checked_rem_euclid(7).unwrap()
    }

    /// Day number of the Monday on or before the local date.
    pub fn week_start(&self) -> (monday: i64)
        ensures
            monday == self@.week_start(),
    {
        self.date() - self.weekday()
    }

    /// Monday-anchored week index of the local date.
    pub fn week_index(&self) -> (index: i64)
        ensures
            index == self@.week_index(),
    {
        self.week_start().checked_div_euclid(7).unwrap()
    }
}

} // verus!
