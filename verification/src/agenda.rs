//! The agenda and its weekly view.
//!
//! The weekly view of an agenda maps each of the seven days of a week, Monday
//! to Sunday, to the activities that touch that day, in agenda order. An
//! activity that spans several days appears once on each day it touches.

use crate::activity::{activity_views, Activity, ActivityView};
use crate::calendar::{in_week_of, lemma_week_runs_monday_to_sunday, week_start_of};
use crate::error::ParseError;
use crate::parser::{has_invalid_range, lines_of, parsed_on, AgendaParser, Parser};
use crate::time::{ZonedTime, ZonedTimeView};
use std::collections::BTreeMap;
use vstd::prelude::*;

verus! {

/// The activities of one agenda, in the order of their source.
#[derive(Debug)]
pub struct Agenda {
    activities: Vec<Activity>,
}

/// The views of the activities that a bucket refers to.
pub open spec fn bucket_views(bucket: Seq<&Activity>) -> Seq<ActivityView> {
    bucket.map_values(|activity: &Activity| activity@)
}

/// Positions, in increasing order, of those among the first `count`
/// activities that touch `day`.
pub open spec fn touching_among(activities: Seq<ActivityView>, day: int, count: int) -> Seq<int> {
    Seq::new(count as nat, |i: int| i).filter(|i: int| activities[i].touches(day))
}

/// Positions, in increasing order, of the activities that touch `day`.
pub open spec fn touching(activities: Seq<ActivityView>, day: int) -> Seq<int> {
    touching_among(activities, day, activities.len() as int)
}

/// The activities that touch `day`, in agenda order.
pub open spec fn on_day(activities: Seq<ActivityView>, day: int) -> Seq<ActivityView> {
    touching(activities, day).map_values(|i: int| activities[i])
}

/// First day on which an activity shows in the week of `reference`.
pub open spec fn clip_start(activity: ActivityView, reference: int) -> int {
    if activity.start.day() >= week_start_of(reference) {
        activity.start.day()
    } else {
        week_start_of(reference)
    }
}

/// Last day on which an activity shows in the week of `reference`.
pub open spec fn clip_end(activity: ActivityView, reference: int) -> int {
    if activity.end.day() <= week_start_of(reference) + 6 {
        activity.end.day()
    } else {
        week_start_of(reference) + 6
    }
}

/// Adding one activity to those considered adds its position if it touches
/// the day, and nothing otherwise.
pub proof fn lemma_touching_among_step(activities: Seq<ActivityView>, day: int, count: int)
    requires
        0 <= count,
    ensures
        touching_among(activities, day, count + 1) == if activities[count].touches(day) {
            touching_among(activities, day, count).push(count)
        } else {
            touching_among(activities, day, count)
        },
        touching_among(activities, day, 0) == Seq::<int>::empty(),
{
    reveal(Seq::filter);
    let longer = Seq::new((count + 1) as nat, |i: int| i);
    assert(longer.drop_last() == Seq::new(count as nat, |i: int| i));
    assert(longer.last() == count);
}

/// Every position listed is below `count`, touches the day, and is greater
/// than the positions listed before it; every position below `count` that
/// touches the day is listed.
pub proof fn lemma_touching_among(activities: Seq<ActivityView>, day: int, count: int)
    requires
        0 <= count,
    ensures
        forall|p: int|
            0 <= p < touching_among(activities, day, count).len() ==> {
                let i = #[trigger] touching_among(activities, day, count)[p];
                0 <= i < count && activities[i].touches(day)
            },
        forall|p: int, q: int|
            0 <= p < q < touching_among(activities, day, count).len() ==> #[trigger] touching_among(
                activities,
                day,
                count,
            )[p] < #[trigger] touching_among(activities, day, count)[q],
        forall|i: int|
            0 <= i < count && activities[i].touches(day) ==> touching_among(
                activities,
                day,
                count,
            ).contains(i),
    decreases count,
{
    if count == 0 {
        lemma_touching_among_step(activities, day, 0);
    } else {
        lemma_touching_among(activities, day, count - 1);
        lemma_touching_among_step(activities, day, count - 1);
        let before = touching_among(activities, day, count - 1);
        let now = touching_among(activities, day, count);
        assert forall|i: int| 0 <= i < count && activities[i].touches(day) implies now.contains(
            i,
        ) by {
            if i < count - 1 {
                assert(before.contains(i));
                let p = choose|p: int| 0 <= p < before.len() && before[p] == i;
                assert(now[p] == i);
            } else {
                assert(now[now.len() - 1] == i);
            }
        }
    }
}

/// An activity is listed for a day exactly when it touches that day.
pub proof fn lemma_listed_iff_touches(activities: Seq<ActivityView>, day: int, i: int)
    ensures
        touching(activities, day).contains(i) <==> 0 <= i < activities.len()
            && activities[i].touches(day),
{
    lemma_touching_among(activities, day, activities.len() as int);
}

/// Within the week of `reference`, an activity is listed for exactly the days
/// from its clipped start to its clipped end, and for no others.
pub proof fn lemma_listed_from_clipped_start_to_end(
    activities: Seq<ActivityView>,
    i: int,
    reference: int,
    day: int,
)
    requires
        0 <= i < activities.len(),
        in_week_of(day, reference),
    ensures
        touching(activities, day).contains(i) <==> clip_start(activities[i], reference) <= day
            <= clip_end(activities[i], reference),
{
    lemma_listed_iff_touches(activities, day, i);
}

/// An activity that spans a whole week is listed for each of its seven days.
pub proof fn lemma_spanning_activity_listed_every_day(
    activities: Seq<ActivityView>,
    i: int,
    reference: int,
    day: int,
)
    requires
        0 <= i < activities.len(),
        activities[i].start.day() <= week_start_of(reference),
        week_start_of(reference) + 6 <= activities[i].end.day(),
        in_week_of(day, reference),
    ensures
        touching(activities, day).contains(i),
{
    lemma_listed_iff_touches(activities, day, i);
}

/// An activity that starts and ends on the same day is listed for that day
/// and for no other.
pub proof fn lemma_one_day_activity_listed_once(activities: Seq<ActivityView>, i: int, day: int)
    requires
        0 <= i < activities.len(),
        activities[i].start.day() == activities[i].end.day(),
    ensures
        touching(activities, day).contains(i) <==> day == activities[i].start.day(),
{
    lemma_listed_iff_touches(activities, day, i);
}

/// The activities of a day stand in agenda order: each entry is the activity
/// at a position of the agenda, and the positions increase along the day.
pub proof fn lemma_day_keeps_agenda_order(activities: Seq<ActivityView>, day: int, p: int, q: int)
    requires
        0 <= p < q < on_day(activities, day).len(),
    ensures
        on_day(activities, day).len() == touching(activities, day).len(),
        0 <= touching(activities, day)[p] < touching(activities, day)[q] < activities.len(),
        on_day(activities, day)[p] == activities[touching(activities, day)[p]],
        on_day(activities, day)[q] == activities[touching(activities, day)[q]],
{
    lemma_touching_among(activities, day, activities.len() as int);
}

impl View for Agenda {
    type V = Seq<ActivityView>;

    closed spec fn view(&self) -> Seq<ActivityView> {
        activity_views(self.activities@)
    }
}

impl Agenda {
    /// An agenda of the given activities, in their order.
    pub fn new(activities: Vec<Activity>) -> (agenda: Agenda)
        ensures
            agenda@ == activity_views(activities@),
    {
        Agenda { activities }
    }

    /// The agenda that a text holds, read now in the local zone.
    pub fn from_text(content: &str) -> (result: Result<Agenda, ParseError>)
        ensures
            exists|now: ZonedTimeView|
                parsed_on(
                    content@,
                    #[trigger] now.day(),
                    match result {
                        Ok(agenda) => Ok(agenda@),
                        Err(error) => Err(error),
                    },
                ),
            result is Err <==> has_invalid_range(lines_of(content@)),
            result matches Err(error) ==> error == ParseError::InvalidTimeRange,
    {
        match AgendaParser::parse(content) {
            Ok(activities) => Ok(Agenda { activities }),
            Err(error) => Err(error),
        }
    }

    /// The activities, in agenda order.
    pub fn activities(&self) -> (activities: &Vec<Activity>)
        ensures
            activity_views(activities@) == self@,
    {
        &self.activities
    }

    /// The activities that touch the day `day`, in agenda order.
    pub fn activities_on(&self, day: i64) -> (bucket: Vec<&Activity>)
        ensures
            bucket_views(bucket@) == on_day(self@, day as int),
    {
        let ghost all = self@;
        let ghost pick = |i: int| all[i];
        let mut bucket: Vec<&Activity> = Vec::new();
        proof {
            lemma_touching_among_step(all, day as int, 0);
        }
        for i in 0..self.activities.len()
            invariant
                all == self@,
                all.len() == self.activities@.len(),
                pick == |i: int| all[i],
                bucket_views(bucket@) == touching_among(all, day as int, i as int).map_values(pick),
        {
            let activity = &self.activities[i];
            let starts = activity.start().date();
            let ends = activity.end().date();
            proof {
                lemma_touching_among_step(all, day as int, i as int);
                assert(all[i as int] == activity@);
            }
            if starts <= day && day <= ends {
                proof {
                    assert(bucket_views(bucket@.push(activity)) == bucket_views(bucket@).push(
                        activity@,
                    ));
                    assert(touching_among(all, day as int, i as int).push(i as int).map_values(pick)
                        == touching_among(all, day as int, i as int).map_values(pick).push(
                        all[i as int],
                    ));
                }
                bucket.push(activity);
            }
        }
        bucket
    }

    /// The weekly view for the week that contains the local date of `day`:
    /// a map from each of the seven day numbers of that week, Monday to
    /// Sunday, to the activities that touch that day, in agenda order.
    pub fn get_week_activities(&self, day: ZonedTime) -> (week: BTreeMap<i64, Vec<&Activity>>)
        ensures
            forall|date: i64| week@.contains_key(date) <==> in_week_of(date as int, day@.day()),
            forall|date: i64|
                week@.contains_key(date) ==> bucket_views((#[trigger] week@[date])@) == on_day(
                    self@,
                    date as int,
                ),
            week@.len() == 7,
    {
        proof {
            day.lemma_view_in_range();
        }
        let monday = day.week_start();
        let mut week: BTreeMap<i64, Vec<&Activity>> = BTreeMap::new();
        for k in 0..7i64
            invariant
                monday == week_start_of(day@.day()),
                -200_000_000_000_000 < monday < 200_000_000_000_000,
                forall|date: i64| week@.contains_key(date) <==> monday <= date < monday + k,
                forall|date: i64|
                    week@.contains_key(date) ==> bucket_views((#[trigger] week@[date])@) == on_day(
                        self@,
                        date as int,
                    ),
                week@.dom().finite(),
                week@.len() == k,
        {
            let date = monday + k;
            let bucket = self.activities_on(date);
            week.insert(date, bucket);
        }
        week
    }
}

} // verus!
