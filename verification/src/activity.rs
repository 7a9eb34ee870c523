//! One scheduled activity.

use crate::priority::Priority;
use crate::time::{ZonedTime, ZonedTimeView};
use vstd::prelude::*;

verus! {

/// A scheduled item: what it is, when it starts and ends, and how many weeks
/// lie between the week in which it was read and the weeks of its start and
/// of its end.
#[derive(Debug)]
pub struct Activity {
    title: String,
    start: ZonedTime,
    end: ZonedTime,
    description: String,
    priority: Priority,
    start_week: i64,
    end_week: i64,
}

/// What an [`Activity`] stands for.
pub ghost struct ActivityView {
    /// Title of the activity.
    pub title: Seq<char>,
    /// When the activity starts.
    pub start: ZonedTimeView,
    /// When the activity ends.
    pub end: ZonedTimeView,
    /// Free text, possibly empty.
    pub description: Seq<char>,
    /// Priority of the activity.
    pub priority: Priority,
    /// Week offsets of the start and of the end.
    pub weeks: (int, int),
}

impl ActivityView {
    /// What holds of every activity: it has a title, and it ends no earlier
    /// than it starts.
    pub open spec fn well_formed(self) -> bool {
        &&& self.title.len() > 0
        &&& self.start.unix <= self.end.unix
    }

    /// Whether the activity touches the calendar day `day`: the day lies
    /// between the local dates of its start and of its end, both included.
    pub open spec fn touches(self, day: int) -> bool {
        self.start.day() <= day <= self.end.day()
    }
}

impl View for Activity {
    type V = ActivityView;

    closed spec fn view(&self) -> ActivityView {
        ActivityView {
            title: self.title@,
            start: self.start@,
            end: self.end@,
            description: self.description@,
            priority: self.priority,
            weeks: (self.start_week as int, self.end_week as int),
        }
    }
}

/// The views of a sequence of activities.
pub open spec fn activity_views(activities: Seq<Activity>) -> Seq<ActivityView> {
    activities.map_values(|activity: Activity| activity@)
}

impl Clone for Activity {
    fn clone(&self) -> (copy: Activity)
        ensures
            copy@ == self@,
    {
        proof {
            use_type_invariant(self);
        }
        Activity {
            title: self.title.clone(),
            start: self.start,
            end: self.end,
            description: self.description.clone(),
            priority: self.priority,
            start_week: self.start_week,
            end_week: self.end_week,
        }
    }
}

impl Activity {
    #[verifier::type_invariant]
    spec fn well_formed(self) -> bool {
        self@.well_formed()
    }

    /// An activity with the given fields.
    pub fn new(
        title: String,
        start: ZonedTime,
        end: ZonedTime,
        description: String,
        priority: Priority,
        weeks: (i64, i64),
    ) -> (activity: Activity)
        requires
            title@.len() > 0,
            start@.unix <= end@.unix,
        ensures
            activity@ == (ActivityView {
                title: title@,
                start: start@,
                end: end@,
                description: description@,
                priority,
                weeks: (weeks.0 as int, weeks.1 as int),
            }),
    {
        Activity {
            title,
            start,
            end,
            description,
            priority,
            start_week: weeks.0,
            end_week: weeks.1,
        }
    }

    /// Title of the activity, never empty.
    pub fn title(&self) -> (title: &String)
        ensures
            title@ == self@.title,
            title@.len() > 0,
    {
        proof {
            use_type_invariant(self);
        }
        &self.title
    }

    /// When the activity starts.
    pub fn start(&self) -> (start: &ZonedTime)
        ensures
            start@ == self@.start,
            start@.unix <= self@.end.unix,
    {
        proof {
            use_type_invariant(self);
        }
        &self.start
    }

    /// When the activity ends.
    pub fn end(&self) -> (end: &ZonedTime)
        ensures
            end@ == self@.end,
            self@.start.unix <= end@.unix,
    {
        proof {
            use_type_invariant(self);
        }
        &self.end
    }

    /// Free text, possibly empty.
    pub fn description(&self) -> (description: &String)
        ensures
            description@ == self@.description,
    {
        &self.description
    }

    /// Priority of the activity.
    pub fn priority(&self) -> (priority: &Priority)
        ensures
            *priority == self@.priority,
    {
        &self.priority
    }

    /// Week offsets of the start and of the end.
    pub fn week_offsets(&self) -> (weeks: (i64, i64))
        ensures
            weeks.0 == self@.weeks.0,
            weeks.1 == self@.weeks.1,
    {
        (self.start_week, self.end_week)
    }
}

} // verus!
