use agenda::{Activity, AgendaParser, ParseError, Parser, Priority, Record, ZonedTime};
use chrono::{Datelike, Duration, Local, TimeZone};

fn zoned(time: &chrono::DateTime<Local>) -> ZonedTime {
    ZonedTime::new(time.timestamp(), time.offset().local_minus_utc()).unwrap()
}

#[test]
fn same_week_offsets() {
    let now = Local::now();
    let dt1 = now - Duration::days(now.weekday().num_days_from_monday() as i64);
    let dt2 = dt1 + Duration::days(6);
    let result = AgendaParser::weeks(zoned(&dt1), zoned(&dt2));
    assert_eq!((0, 0), result);
}

#[test]
fn different_week_offsets() {
    let now = Local::now();
    let dt1 = now - Duration::days(now.weekday().num_days_from_monday() as i64) - Duration::days(14);
    let dt2 = now + Duration::days(14);
    let result = AgendaParser::weeks(zoned(&dt1), zoned(&dt2));
    assert_eq!((-2, 2), result);
}

#[test]
fn parse_agenda() {
    let content = "testevent1;1577808000;1578585600;this event has a description;Low\n\
                   testevent2;1577808000;1578585600;;Low\n";
    let activities: Vec<Activity> = AgendaParser::parse(content).expect("Failed to open the test agenda");
    assert_eq!(2, activities.len());
    assert_eq!(
        (
            &"testevent1".to_string(),
            &zoned(&Local.timestamp_opt("1577808000".parse::<i64>().unwrap(), 0).unwrap()),
            &zoned(&Local.timestamp_opt("1578585600".parse::<i64>().unwrap(), 0).unwrap()),
            &"this event has a description".to_string(),
            &Priority::Low,
        ),
        (
            activities[0].title(),
            activities[0].start(),
            activities[0].end(),
            activities[0].description(),
            activities[0].priority()
        )
    );
    assert_eq!(
        (
            &"testevent2".to_string(),
            &zoned(&Local.timestamp_opt("1577808000".parse::<i64>().unwrap(), 0).unwrap()),
            &zoned(&Local.timestamp_opt("1578585600".parse::<i64>().unwrap(), 0).unwrap()),
            &"".to_string(),
            &Priority::Low,
        ),
        (
            activities[1].title(),
            activities[1].start(),
            activities[1].end(),
            activities[1].description(),
            activities[1].priority()
        )
    );
}

#[test]
fn weeks_at_counts_from_the_week_of_now() {
    // Wednesday 2025-01-15, noon UTC.
    let now = ZonedTime::new(1736942400, 0).unwrap();
    let monday = ZonedTime::new(1736726400, 0).unwrap();
    let sunday = ZonedTime::new(1737331199, 0).unwrap();
    assert_eq!(AgendaParser::weeks_at(&monday, &sunday, &now), (0, 0));
    let last_sunday = ZonedTime::new(1736726399, 0).unwrap();
    let next_monday = ZonedTime::new(1737331200, 0).unwrap();
    assert_eq!(AgendaParser::weeks_at(&last_sunday, &next_monday, &now), (-1, 1));
    let long_ago = ZonedTime::new(1577808000, 0).unwrap();
    let far_ahead = ZonedTime::new(1767225600, 0).unwrap();
    assert_eq!(AgendaParser::weeks_at(&long_ago, &far_ahead, &now), (-263, 50));
}

#[test]
fn weeks_at_crosses_new_year_without_a_jump() {
    // Now: Tuesday 2024-12-31. Start: Monday 2024-12-30. End: Sunday 2025-01-05.
    let now = ZonedTime::new(1735646400, 0).unwrap();
    let start = ZonedTime::new(1735560000, 0).unwrap();
    let end = ZonedTime::new(1736078400, 0).unwrap();
    assert_eq!(AgendaParser::weeks_at(&start, &end, &now), (0, 0));
    // Monday 2025-01-06 is one week on, Sunday 2024-12-29 one week back.
    let next = ZonedTime::new(1736164800, 0).unwrap();
    let previous = ZonedTime::new(1735473600, 0).unwrap();
    assert_eq!(AgendaParser::weeks_at(&previous, &next, &now), (-1, 1));
}

#[test]
fn weeks_at_goes_by_local_dates() {
    // Sunday 2025-01-19 23:30 UTC is already Monday one hour further east.
    let now = ZonedTime::new(1736942400, 0).unwrap();
    let utc = ZonedTime::new(1737329400, 0).unwrap();
    let east = ZonedTime::new(1737329400, 3600).unwrap();
    assert_eq!(AgendaParser::weeks_at(&utc, &east, &now), (0, 1));
}

#[test]
fn records_keep_the_order_of_their_lines() {
    let content = "Meet;1736812800;1736816400;;Normal\n\
                   Call;1736816400;1736820000;;Low\n\
                   Span1;1736208000;1736812800;;Important";
    let records = AgendaParser::parse_records(content).unwrap();
    let titles: Vec<&str> = records.iter().map(|record| record.title().as_str()).collect();
    assert_eq!(titles, vec!["Meet", "Call", "Span1"]);
    assert_eq!(records[2].start(), 1736208000);
    assert_eq!(records[2].end(), 1736812800);
    assert_eq!(records[2].priority(), Priority::Important);
}

#[test]
fn lines_that_are_no_records_are_skipped() {
    let content = "# my agenda\n\
                   \n\
                   Meet;1;2;;Normal\n\
                   not a record\n\
                   Lunch;3;4;;Urgent\n\
                   Too;many;5;6;;Low\n\
                   Call;7;8;by phone;Low\n\
                   \n";
    let records = AgendaParser::parse_records(content).unwrap();
    let titles: Vec<&str> = records.iter().map(|record| record.title().as_str()).collect();
    assert_eq!(titles, vec!["Meet", "Call"]);
}

#[test]
fn empty_text_has_no_records() {
    assert_eq!(AgendaParser::parse_records("").unwrap().len(), 0);
    assert_eq!(AgendaParser::parse_records("\n\n\n").unwrap().len(), 0);
    assert_eq!(AgendaParser::parse("").unwrap().len(), 0);
}

#[test]
fn carriage_returns_end_lines_too() {
    let content = "Meet;1;2;;Normal\r\nCall;3;4;;Low\r\n";
    let records = AgendaParser::parse_records(content).unwrap();
    assert_eq!(records.len(), 2);
    assert_eq!(records[0].priority(), Priority::Normal);
    assert_eq!(records[1].title(), "Call");
    let unfinished = AgendaParser::parse_records("Meet;1;2;;Normal\r").unwrap();
    assert_eq!(unfinished.len(), 1);
    // Only one carriage return is taken off, and only at the end.
    assert_eq!(AgendaParser::parse_records("Meet;1;2;;Normal\r\r\n").unwrap().len(), 0);
    assert_eq!(AgendaParser::parse_records("Me\ret;1;2;;Normal\n").unwrap()[0].title(), "Me\ret");
}

#[test]
fn trim_cr_takes_one_carriage_return_off() {
    let trim = |text: &str| -> String {
        let chars: Vec<char> = text.chars().collect();
        agenda::parser::trim_cr(&chars).iter().collect()
    };
    assert_eq!(trim("abc\r"), "abc");
    assert_eq!(trim("abc"), "abc");
    assert_eq!(trim(""), "");
    assert_eq!(trim("\r"), "");
    assert_eq!(trim("abc\r\r"), "abc\r");
    assert_eq!(trim("\rabc"), "\rabc");
}

#[test]
fn end_before_start_fails_the_whole_parse() {
    let first = "Bad;2;1;;Low\nMeet;1;2;;Normal\n";
    let middle = "Meet;1;2;;Normal\nBad;1736816400;1736812800;;Low\nCall;3;4;;Low\n";
    let last = "Meet;1;2;;Normal\nCall;3;4;;Low\nBad;10;9;;Important";
    for content in [first, middle, last] {
        assert_eq!(AgendaParser::parse_records(content).err(), Some(ParseError::InvalidTimeRange));
        assert_eq!(AgendaParser::parse(content).err(), Some(ParseError::InvalidTimeRange));
        let now = ZonedTime::new(0, 0).unwrap();
        assert_eq!(AgendaParser::parse_at(content, &now).err(), Some(ParseError::InvalidTimeRange));
    }
}

#[test]
fn a_bad_range_in_a_line_that_is_no_record_does_not_fail() {
    let content = "Bad;2;1;;Urgent\nBad;2;1;Low\nMeet;1;2;;Normal\n";
    let records = AgendaParser::parse_records(content).unwrap();
    assert_eq!(records.len(), 1);
    assert_eq!(records[0].title(), "Meet");
}

#[test]
fn activity_at_takes_local_times_and_now() {
    let record = Record::parse("Meet;1736812800;1736816400;bring notes;Normal").unwrap();
    let start = ZonedTime::new(1736812800, 7200).unwrap();
    let end = ZonedTime::new(1736816400, 7200).unwrap();
    // Now: three weeks later.
    let now = ZonedTime::new(1736812800 + 21 * 86_400, 7200).unwrap();
    let activity = AgendaParser::activity_at(&record, start, end, &now);
    assert_eq!(activity.title(), "Meet");
    assert_eq!(activity.start(), &start);
    assert_eq!(activity.end(), &end);
    assert_eq!(activity.description(), "bring notes");
    assert_eq!(activity.priority(), &Priority::Normal);
    assert_eq!(activity.week_offsets(), (-3, -3));
}

#[test]
fn parse_at_counts_weeks_from_the_given_time() {
    let content = "Meet;1736812800;1736816400;;Normal\nSpan;1736208000;1738000000;;Low\n";
    let now = ZonedTime::from_timestamp(1736812800).unwrap();
    let activities = AgendaParser::parse_at(content, &now).unwrap();
    assert_eq!(activities.len(), 2);
    assert_eq!(activities[0].week_offsets(), (0, 0));
    let span = &activities[1];
    assert_eq!(span.start(), &ZonedTime::from_timestamp(1736208000).unwrap());
    assert_eq!(span.end(), &ZonedTime::from_timestamp(1738000000).unwrap());
    assert_eq!(span.week_offsets(), AgendaParser::weeks_at(span.start(), span.end(), &now));
    assert_eq!(span.week_offsets().1 - span.week_offsets().0, span.end().week_index() - span.start().week_index());
}

#[test]
fn parse_gives_zero_offsets_for_this_week() {
    let now = Local::now();
    let monday = now - Duration::days(now.weekday().num_days_from_monday() as i64);
    let content = format!("Today;{};{};;Low\n", now.timestamp(), now.timestamp() + 1);
    let activities = AgendaParser::parse(&content).unwrap();
    assert_eq!(activities.len(), 1);
    assert_eq!(activities[0].week_offsets().0, 0);
    assert_eq!(zoned(&monday).week_index(), activities[0].start().week_index());
}

#[test]
fn end_before_start_fails_whatever_the_size_of_the_start() {
    let now = ZonedTime::new(0, 0).unwrap();
    for content in [
        "A;9000000000000;5;;Low",
        "Meet;1;2;;Normal\nA;9000000000000;5;;Low\nCall;3;4;;Low\n",
        "Meet;1;2;;Normal\nA;99999999999999999999999999999999999999;99999999999999999999999999999999999998;;Low",
    ] {
        assert_eq!(AgendaParser::parse_records(content).err(), Some(ParseError::InvalidTimeRange));
        assert_eq!(AgendaParser::parse(content).err(), Some(ParseError::InvalidTimeRange));
        assert_eq!(AgendaParser::parse_at(content, &now).err(), Some(ParseError::InvalidTimeRange));
        assert_eq!(agenda::Agenda::from_text(content).err(), Some(ParseError::InvalidTimeRange));
    }
}

#[test]
fn end_beyond_the_latest_local_time_is_skipped() {
    let content = "Far;5;9000000000000;;Low\nMeet;1;2;;Normal\nFar;9000000000000;9000000000000;;Low\n";
    let records = AgendaParser::parse_records(content).unwrap();
    assert_eq!(records.len(), 1);
    assert_eq!(records[0].title(), "Meet");
}
