//! The grammar of one agenda line.
//!
//! A line holds five fields separated by semicolons:
//! `title;start;end;description;priority`. The title is not empty, the start
//! and the end are Unix timestamps in decimal digits, the description may be
//! empty, and the priority is one of the priority names. No field can hold a
//! semicolon.
//!
//! A line of that shape whose end is a smaller number than its start has an
//! invalid time range, however long the two numbers are. Only a line that
//! passes this test is held to the timestamps that can be placed in the local
//! zone.

use crate::error::ParseError;
use crate::priority::Priority;
use crate::text::{
    chars_of, decimal_less, decimal_value, is_decimal, is_decimal_run, is_digit, split, split_on,
    string_of,
};
use crate::time::MAX_TIMESTAMP;
use vstd::prelude::*;

verus! {

/// The fields of one agenda line.
pub struct Record {
    title: String,
    start: i64,
    end: i64,
    description: String,
    priority: Priority,
}

/// What a [`Record`] stands for.
pub ghost struct RecordView {
    /// Title of the activity.
    pub title: Seq<char>,
    /// Unix timestamp at which the activity starts.
    pub start: int,
    /// Unix timestamp at which the activity ends.
    pub end: int,
    /// Free text, possibly empty.
    pub description: Seq<char>,
    /// Priority of the activity.
    pub priority: Priority,
}

impl RecordView {
    /// What holds of every record: it has a title, and it ends no earlier
    /// than it starts, both within the timestamps that can be placed in the
    /// local zone.
    pub open spec fn well_formed(self) -> bool {
        &&& self.title.len() > 0
        &&& 0 <= self.start <= self.end <= MAX_TIMESTAMP
    }
}

impl View for Record {
    type V = RecordView;

    closed spec fn view(&self) -> RecordView {
        RecordView {
            title: self.title@,
            start: self.start as int,
            end: self.end as int,
            description: self.description@,
            priority: self.priority,
        }
    }
}

/// The timestamp that a field writes: the value of its digits, if the field
/// is a non-empty run of digits and the value is at most [`MAX_TIMESTAMP`].
pub open spec fn timestamp_of(field: Seq<char>) -> Option<int> {
    if is_decimal(field) && decimal_value(field) <= MAX_TIMESTAMP {
        Some(decimal_value(field))
    } else {
        None
    }
}

/// What a line says. A line that does not have five fields, has an empty
/// title, or has a start or an end that is no run of digits is malformed. A
/// line of the right shape is refused for a priority that is no priority
/// name, and otherwise for an end that is a smaller number than its start.
/// A line that passes all of this is still malformed if its end is above
/// [`MAX_TIMESTAMP`].
pub open spec fn record_of_line(line: Seq<char>) -> Result<RecordView, ParseError> {
    let fields = split_on(line, ';');
    if fields.len() != 5 || fields[0].len() == 0 || !is_decimal(fields[1]) || !is_decimal(
        fields[2],
    ) {
        Err(ParseError::MalformedLine)
    } else if Priority::from_name(fields[4]) is None {
        Err(ParseError::InvalidPriority)
    } else if decimal_value(fields[2]) < decimal_value(fields[1]) {
        Err(ParseError::InvalidTimeRange)
    } else if decimal_value(fields[2]) > MAX_TIMESTAMP {
        Err(ParseError::MalformedLine)
    } else {
        Ok(
            RecordView {
                title: fields[0],
                start: decimal_value(fields[1]),
                end: decimal_value(fields[2]),
                description: fields[3],
                priority: Priority::from_name(fields[4])->0,
            },
        )
    }
}

/// Whatever its numbers are, a line of the right shape and with a known
/// priority whose end is a smaller number than its start has an invalid
/// time range.
pub proof fn lemma_end_before_start_is_invalid_range(line: Seq<char>)
    requires
        split_on(line, ';').len() == 5,
        split_on(line, ';')[0].len() > 0,
        is_decimal(split_on(line, ';')[1]),
        is_decimal(split_on(line, ';')[2]),
        Priority::from_name(split_on(line, ';')[4]) is Some,
        decimal_value(split_on(line, ';')[2]) < decimal_value(split_on(line, ';')[1]),
    ensures
        record_of_line(line) == Err::<RecordView, ParseError>(ParseError::InvalidTimeRange),
{
}

/// The digits of a number never write less than a prefix of them does.
pub proof fn lemma_decimal_value_of_prefix(digits: Seq<char>, len: int)
    requires
        0 <= len <= digits.len(),
        forall|i: int| 0 <= i < digits.len() ==> is_digit(#[trigger] digits[i]),
    ensures
        0 <= decimal_value(digits.take(len)) <= decimal_value(digits),
    decreases digits.len(),
{
    if len == digits.len() {
        assert(digits.take(len) == digits);
        if len > 0 {
            lemma_decimal_value_of_prefix(digits.drop_last(), len - 1);
        }
    } else {
        lemma_decimal_value_of_prefix(digits.drop_last(), len);
        assert(digits.drop_last().take(len) == digits.take(len));
    }
}

/// The digits of a number write a value that is not negative.
pub proof fn lemma_decimal_value_is_not_negative(digits: Seq<char>)
    requires
        is_decimal(digits),
    ensures
        0 <= decimal_value(digits),
{
    lemma_decimal_value_of_prefix(digits, 0);
}

/// Every record that a line gives is well formed.
pub proof fn lemma_record_is_well_formed(line: Seq<char>)
    ensures
        record_of_line(line) matches Ok(record) ==> record.well_formed(),
{
    let fields = split_on(line, ';');
    if record_of_line(line) is Ok {
        lemma_decimal_value_is_not_negative(fields[1]);
    }
}

/// Reads the timestamp that a field writes.
pub fn read_timestamp(field: &Vec<char>) -> (timestamp: Option<i64>)
    ensures
        timestamp matches Some(t) ==> timestamp_of(field@) == Some(t as int),
        timestamp is None ==> timestamp_of(field@) is None,
{
    if field.len() == 0 {
        return None;
    }
    let mut value: i64 = 0;
    for i in 0..field.len()
        invariant
            forall|j: int| 0 <= j < i ==> is_digit(#[trigger] field@[j]),
            value == decimal_value(field@.take(i as int)),
            0 <= value <= MAX_TIMESTAMP,
    {
        let c = field[i];
        if c < '0' || c > '9' {
            return None;
        }
        proof {
            assert(field@.take(i + 1).drop_last() == field@.take(i as int));
        }
        value = value * 10 + (c as i64 - '0' as i64);
        if value > MAX_TIMESTAMP {
            proof {
                if is_decimal(field@) {
                    lemma_decimal_value_of_prefix(field@, i + 1);
                }
            }
            return None;
        }
    }
    proof {
        assert(field@.take(field.len() as int) == field@);
    }
    Some(value)
}

impl Record {
    #[verifier::type_invariant]
    spec fn well_formed(self) -> bool {
        self@.well_formed()
    }

    /// Reads one line, given as its characters.
    pub fn from_chars(line: &Vec<char>) -> (result: Result<Record, ParseError>)
        ensures
            result matches Ok(record) ==> record_of_line(line@) == Ok::<RecordView, ParseError>(
                record@,
            ) && record@.well_formed(),
            result matches Err(error) ==> record_of_line(line@) == Err::<RecordView, ParseError>(
                error,
            ),
    {
        let fields = split(line, ';');
        assert(fields@.len() == split_on(line@, ';').len());
        if fields.len() != 5 {
            return Err(ParseError::MalformedLine);
        }
        assert(forall|i: int| 0 <= i < 5 ==> fields@[i]@ == #[trigger] split_on(line@, ';')[i]);
        if fields[0].len() == 0 {
            return Err(ParseError::MalformedLine);
        }
        if !is_decimal_run(&fields[1]) || !is_decimal_run(&fields[2]) {
            return Err(ParseError::MalformedLine);
        }
        let priority = match Priority::from_chars(&fields[4]) {
            Ok(priority) => priority,
            Err(error) => {
                return Err(error);
            },
        };
        if decimal_less(&fields[2], &fields[1]) {
            return Err(ParseError::InvalidTimeRange);
        }
        let end = match read_timestamp(&fields[2]) {
            Some(end) => end,
            None => {
                return Err(ParseError::MalformedLine);
            },
        };
        proof {
            lemma_decimal_value_is_not_negative(fields@[1]@);
        }
        let start = read_timestamp(&fields[1]).unwrap();
        proof {
            lemma_record_is_well_formed(line@);
        }
        Ok(
            Record {
                title: string_of(&fields[0]),
                start,
                end,
                description: string_of(&fields[3]),
                priority,
            },
        )
    }

    /// Reads one line.
    pub fn parse(line: &str) -> (result: Result<Record, ParseError>)
        ensures
            result matches Ok(record) ==> record_of_line(line@) == Ok::<RecordView, ParseError>(
                record@,
            ) && record@.well_formed(),
            result matches Err(error) ==> record_of_line(line@) == Err::<RecordView, ParseError>(
                error,
            ),
    {
        Record::from_chars(&chars_of(line))
    }

    /// Title of the activity.
    pub fn title(&self) -> (title: &String)
        ensures
            title@ == self@.title,
            self@.well_formed(),
    {
        proof {
            use_type_invariant(self);
        }
        &self.title
    }

    /// Unix timestamp at which the activity starts.
    pub fn start(&self) -> (start: i64)
        ensures
            start == self@.start,
            self@.well_formed(),
    {
        proof {
            use_type_invariant(self);
        }
        self.start
    }

    /// Unix timestamp at which the activity ends.
    pub fn end(&self) -> (end: i64)
        ensures
            end == self@.end,
            self@.well_formed(),
    {
        proof {
            use_type_invariant(self);
        }
        self.end
    }

    /// Free text, possibly empty.
    pub fn description(&self) -> (description: &String)
        ensures
            description@ == self@.description,
    {
        &self.description
    }

    /// Priority of the activity.
    pub fn priority(&self) -> (priority: Priority)
        ensures
            priority == self@.priority,
    {
        self.priority
    }
}

} // verus!
