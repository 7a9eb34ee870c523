//! The agenda parser: from the text of an agenda to its activities.
//!
//! The text is read line by line. A line that is no activity record is
//! skipped, and so is a record whose priority is no priority name. A record
//! that ends before it starts fails the whole parse. The activities come out
//! in the order of their lines.

use crate::activity::{activity_views, Activity, ActivityView};
use crate::calendar::{in_week_of, lemma_same_week_same_index, week_index_of};
use crate::error::ParseError;
use crate::record::{lemma_record_is_well_formed, record_of_line, Record, RecordView};
use crate::text::{chars_of, split, split_on, views};
use crate::time::{ZonedTime, ZonedTimeView};
use vstd::prelude::*;

verus! {

/// Something that reads a list of items from text.
pub trait Parser<T> {
    /// Reads the items that `content` holds.
    fn parse(content: &str) -> Result<Vec<T>, ParseError>;
}

/// The parser of agenda text.
pub struct AgendaParser;

/// A line without the carriage return that may end it.
pub open spec fn strip_cr(line: Seq<char>) -> Seq<char> {
    if line.len() > 0 && line.last() == '\r' {
        line.drop_last()
    } else {
        line
    }
}

/// The lines of a text: its pieces between line feeds, each without the
/// carriage return that may end it.
pub open spec fn lines_of(text: Seq<char>) -> Seq<Seq<char>> {
    split_on(text, '\n').map_values(|line: Seq<char>| strip_cr(line))
}

/// The record that a line contributes to the agenda, if any.
pub open spec fn kept_record(line: Seq<char>) -> Option<RecordView> {
    match record_of_line(line) {
        Ok(record) => Some(record),
        Err(_) => None,
    }
}

/// Whether some line is a record that ends before it starts.
pub open spec fn has_invalid_range(lines: Seq<Seq<char>>) -> bool {
    exists|i: int|
        0 <= i < lines.len() && record_of_line(#[trigger] lines[i]) == Err::<
            RecordView,
            ParseError,
        >(ParseError::InvalidTimeRange)
}

/// The records that the given lines contribute, in line order.
pub open spec fn kept_records(lines: Seq<Seq<char>>) -> Seq<RecordView> {
    lines.filter_map(|line: Seq<char>| kept_record(line))
}

/// The records of a text: those of its lines that are records, in line
/// order, unless one of them ends before it starts.
pub open spec fn records_of(text: Seq<char>) -> Result<Seq<RecordView>, ParseError> {
    let lines = lines_of(text);
    if has_invalid_range(lines) {
        Err(ParseError::InvalidTimeRange)
    } else {
        Ok(kept_records(lines))
    }
}

/// A text with a record that ends before it starts has no records at all:
/// the whole text is refused for its time range.
pub proof fn lemma_invalid_range_refuses_text(text: Seq<char>, i: int)
    requires
        0 <= i < lines_of(text).len(),
        record_of_line(lines_of(text)[i]) == Err::<RecordView, ParseError>(
            ParseError::InvalidTimeRange,
        ),
    ensures
        records_of(text) == Err::<Seq<RecordView>, ParseError>(ParseError::InvalidTimeRange),
{
}

/// A text is refused only for a time range, and only when one of its lines
/// is a record that ends before it starts. Lines that are no records, and
/// records with an unknown priority, never fail a text.
pub proof fn lemma_text_refused_only_for_range(text: Seq<char>)
    ensures
        records_of(text) is Err <==> has_invalid_range(lines_of(text)),
        records_of(text) matches Err(error) ==> error == ParseError::InvalidTimeRange,
{
}

/// Each record kept comes from a line that gives it, and is well formed.
pub proof fn lemma_kept_record_has_a_line(lines: Seq<Seq<char>>, k: int)
    requires
        0 <= k < kept_records(lines).len(),
    ensures
        kept_records(lines)[k].well_formed(),
        exists|i: int|
            0 <= i < lines.len() && record_of_line(#[trigger] lines[i]) == Ok::<
                RecordView,
                ParseError,
            >(kept_records(lines)[k]),
    decreases lines.len(),
{
    let shorter = lines.drop_last();
    let last = lines.last();
    if k < kept_records(shorter).len() {
        lemma_kept_record_has_a_line(shorter, k);
        let i = choose|i: int|
            0 <= i < shorter.len() && record_of_line(#[trigger] shorter[i]) == Ok::<
                RecordView,
                ParseError,
            >(kept_records(shorter)[k]);
        assert(lines[i] == shorter[i]);
    } else {
        assert(record_of_line(lines[lines.len() - 1]) == Ok::<RecordView, ParseError>(
            kept_records(lines)[k],
        ));
        lemma_record_is_well_formed(last);
    }
}

/// Records stand in the order of their lines: of two records, the one that
/// comes first was given by a line that comes first.
pub proof fn lemma_kept_records_keep_line_order(lines: Seq<Seq<char>>, first: int, second: int)
    requires
        0 <= first < second < kept_records(lines).len(),
    ensures
        exists|i: int, j: int|
            0 <= i < j < lines.len() && record_of_line(#[trigger] lines[i]) == Ok::<
                RecordView,
                ParseError,
            >(kept_records(lines)[first]) && record_of_line(#[trigger] lines[j]) == Ok::<
                RecordView,
                ParseError,
            >(kept_records(lines)[second]),
    decreases lines.len(),
{
    let shorter = lines.drop_last();
    if second < kept_records(shorter).len() {
        lemma_kept_records_keep_line_order(shorter, first, second);
        let (i, j) = choose|i: int, j: int|
            0 <= i < j < shorter.len() && record_of_line(#[trigger] shorter[i]) == Ok::<
                RecordView,
                ParseError,
            >(kept_records(shorter)[first]) && record_of_line(#[trigger] shorter[j]) == Ok::<
                RecordView,
                ParseError,
            >(kept_records(shorter)[second]);
        assert(lines[i] == shorter[i]);
        assert(lines[j] == shorter[j]);
    } else {
        lemma_kept_record_has_a_line(shorter, first);
        let i = choose|i: int|
            0 <= i < shorter.len() && record_of_line(#[trigger] shorter[i]) == Ok::<
                RecordView,
                ParseError,
            >(kept_records(shorter)[first]);
        let j = lines.len() - 1;
        assert(lines[i] == shorter[i]);
        assert(record_of_line(lines[j]) == Ok::<RecordView, ParseError>(
            kept_records(lines)[second],
        ));
    }
}

/// The views of a sequence of records.
pub open spec fn record_views(records: Seq<Record>) -> Seq<RecordView> {
    records.map_values(|record: Record| record@)
}

/// Week offsets of a start day and an end day, counted from the week of
/// `today`: zero for that week, negative before it, positive after it.
pub open spec fn week_offsets_of(start_day: int, end_day: int, today: int) -> (int, int) {
    (week_index_of(start_day) - week_index_of(today), week_index_of(end_day) - week_index_of(today))
}

/// An activity that starts and ends within the Monday-to-Sunday week of
/// `today` has both week offsets zero.
pub proof fn lemma_offsets_are_zero_within_current_week(start_day: int, end_day: int, today: int)
    requires
        in_week_of(start_day, today),
        in_week_of(end_day, today),
    ensures
        week_offsets_of(start_day, end_day, today) == (0int, 0int),
{
    lemma_same_week_same_index(start_day, today);
    lemma_same_week_same_index(end_day, today);
}

/// Moving the start or the end by whole weeks moves its offset by as many.
pub proof fn lemma_offsets_count_weeks(start_day: int, end_day: int, today: int, weeks: int)
    ensures
        week_offsets_of(start_day + 7 * weeks, end_day, today).0 == week_offsets_of(
            start_day,
            end_day,
            today,
        ).0 + weeks,
        week_offsets_of(start_day, end_day + 7 * weeks, today).1 == week_offsets_of(
            start_day,
            end_day,
            today,
        ).1 + weeks,
{
}

/// Whether `activity` is what `record` becomes when it is read on the day
/// `today`: the same title, instants, description and priority, and the week
/// offsets of its local dates from the week of `today`.
pub open spec fn activity_of_record(activity: ActivityView, record: RecordView, today: int) -> bool {
    &&& activity.title == record.title
    &&& activity.start.unix == record.start
    &&& activity.end.unix == record.end
    &&& activity.description == record.description
    &&& activity.priority == record.priority
    &&& activity.weeks == week_offsets_of(activity.start.day(), activity.end.day(), today)
}

/// Whether `result` is what parsing `text` on the day `today` may give: the
/// error of the text, or one activity for each of its records, in order.
pub open spec fn parsed_on(
    text: Seq<char>,
    today: int,
    result: Result<Seq<ActivityView>, ParseError>,
) -> bool {
    match records_of(text) {
        Err(error) => result == Err::<Seq<ActivityView>, ParseError>(error),
        Ok(records) => {
            &&& result matches Ok(activities)
            &&& activities.len() == records.len()
            &&& forall|i: int|
                0 <= i < records.len() ==> activity_of_record(
                    #[trigger] activities[i],
                    records[i],
                    today,
                )
        },
    }
}

/// What a parse gave, with the activities as their views.
pub open spec fn outcome_views(result: Result<Vec<Activity>, ParseError>) -> Result<
    Seq<ActivityView>,
    ParseError,
> {
    match result {
        Ok(activities) => Ok(activity_views(activities@)),
        Err(error) => Err(error),
    }
}

/// A copy of `line` without the carriage return that may end it.
pub fn trim_cr(line: &Vec<char>) -> (trimmed: Vec<char>)
    ensures
        trimmed@ == strip_cr(line@),
{
    let n = line.len();
    let keep = if n > 0 && line[n - 1] == '\r' {
        n - 1
    } else {
        n
    };
    let mut trimmed: Vec<char> = Vec::new();
    for i in 0..keep
        invariant
            keep <= line.len(),
            trimmed@ == line@.take(i as int),
    {
        trimmed.push(line[i]);
    }
    proof {
        assert(line@.take(line.len() as int) == line@);
    }
    trimmed
}

impl AgendaParser {
    /// Reads the records of an agenda text.
    pub fn parse_records(content: &str) -> (result: Result<Vec<Record>, ParseError>)
        ensures
            result matches Ok(records) ==> records_of(content@) == Ok::<
                Seq<RecordView>,
                ParseError,
            >(record_views(records@)),
            result matches Err(error) ==> records_of(content@) == Err::<
                Seq<RecordView>,
                ParseError,
            >(error),
    {
        let chars = chars_of(content);
        let lines = split(&chars, '\n');
        let ghost all = lines_of(content@);
        let ghost keep = |line: Seq<char>| kept_record(line);
        let mut records: Vec<Record> = Vec::new();
        assert(all.len() == lines@.len());
        for i in 0..lines.len()
            invariant
                all == lines_of(content@),
                keep == |line: Seq<char>| kept_record(line),
                all.len() == lines@.len(),
                views(lines@) == split_on(content@, '\n'),
                !has_invalid_range(all.take(i as int)),
                record_views(records@) == all.take(i as int).filter_map(keep),
        {
            let line = trim_cr(&lines[i]);
            proof {
                assert(views(lines@)[i as int] == lines@[i as int]@);
                assert(line@ == all[i as int]);
                all.lemma_filter_map_take_succ(keep, i as int);
            }
            match Record::from_chars(&line) {
                Ok(record) => {
                    proof {
                        assert(record_views(records@.push(record)) == record_views(records@).push(
                            record@,
                        ));
                    }
                    records.push(record);
                },
                Err(ParseError::InvalidTimeRange) => {
                    proof {
                        assert(has_invalid_range(all));
                    }
                    return Err(ParseError::InvalidTimeRange);
                },
                Err(_) => {},
            }
            proof {
                assert forall|j: int| 0 <= j < i + 1 implies record_of_line(
                    #[trigger] all.take(i + 1)[j],
                ) != Err::<RecordView, ParseError>(ParseError::InvalidTimeRange) by {
                    if j < i {
                        assert(all.take(i as int)[j] == all.take(i + 1)[j]);
                    }
                }
            }
        }
        proof {
            assert(all.take(lines.len() as int) == all);
        }
        Ok(records)
    }

    /// Week offsets of `start` and `end`, counted from the week of `now`.
    pub fn weeks_at(start: &ZonedTime, end: &ZonedTime, now: &ZonedTime) -> (weeks: (i64, i64))
        ensures
            (weeks.0 as int, weeks.1 as int) == week_offsets_of(
                start@.day(),
                end@.day(),
                now@.day(),
            ),
    {
        proof {
            start.lemma_view_in_range();
            end.lemma_view_in_range();
            now.lemma_view_in_range();
        }
        let current = now.week_index();
        (start.week_index() - current, end.week_index() - current)
    }

    /// Week offsets of `start` and `end`, counted from the current week of
    /// the local zone. Whatever the clock says, the two offsets differ by
    /// the number of weeks between the week of `start` and the week of `end`.
    pub fn weeks(start: ZonedTime, end: ZonedTime) -> (weeks: (i64, i64))
        ensures
            exists|now: ZonedTimeView|
                (weeks.0 as int, weeks.1 as int) == week_offsets_of(
                    start@.day(),
                    end@.day(),
                    #[trigger] now.day(),
                ),
            weeks.1 - weeks.0 == week_index_of(end@.day()) - week_index_of(start@.day()),
    {
        let now = ZonedTime::now();
        AgendaParser::weeks_at(&start, &end, &now)
    }

    /// The activity that `record` becomes, given the local times `start` and
    /// `end` of its two instants and the time `now` of reading.
    pub fn activity_at(record: &Record, start: ZonedTime, end: ZonedTime, now: &ZonedTime) -> (activity:
        Activity)
        requires
            start@.unix == record@.start,
            end@.unix == record@.end,
        ensures
            activity_of_record(activity@, record@, now@.day()),
            activity@.start == start@,
            activity@.end == end@,
    {
        let weeks = AgendaParser::weeks_at(&start, &end, now);
        let title = record.title().clone();
        let description = record.description().clone();
        Activity::new(title, start, end, description, record.priority(), weeks)
    }

    /// Reads the activities of an agenda text, with week offsets counted
    /// from the week of `now`.
    pub fn parse_at(content: &str, now: &ZonedTime) -> (result: Result<Vec<Activity>, ParseError>)
        ensures
            parsed_on(content@, now@.day(), outcome_views(result)),
            result is Err <==> has_invalid_range(lines_of(content@)),
            result matches Err(error) ==> error == ParseError::InvalidTimeRange,
    {
        let records = match AgendaParser::parse_records(content) {
            Ok(records) => records,
            Err(error) => {
                return Err(error);
            },
        };
        let mut activities: Vec<Activity> = Vec::new();
        for i in 0..records.len()
            invariant
                records_of(content@) == Ok::<Seq<RecordView>, ParseError>(record_views(records@)),
                activities@.len() == i,
                forall|j: int|
                    0 <= j < i ==> activity_of_record(
                        (#[trigger] activities@[j])@,
                        record_views(records@)[j],
                        now@.day(),
                    ),
        {
            let record = &records[i];
            let start = ZonedTime::local_at(record.start());
            let end = ZonedTime::local_at(record.end());
            let activity = AgendaParser::activity_at(record, start, end, now);
            activities.push(activity);
        }
        Ok(activities)
    }
}

impl Parser<Activity> for AgendaParser {
    /// Reads the activities of an agenda text, with week offsets counted
    /// from the current week of the local zone.
    fn parse(content: &str) -> (result: Result<Vec<Activity>, ParseError>)
        ensures
            exists|now: ZonedTimeView|
                parsed_on(content@, #[trigger] now.day(), outcome_views(result)),
            result is Err <==> has_invalid_range(lines_of(content@)),
            result matches Err(error) ==> error == ParseError::InvalidTimeRange,
    {
        let now = ZonedTime::now();
        AgendaParser::parse_at(content, &now)
    }
}

} // verus!
