use filters::error::FilterError;
use filters::schedule::{
    after_separator, date_range, parse_date_time, parse_time, same_day, Instant, TimeOfDay,
};

fn instant(year: i32, month: u32, day: u32, hour: u32, minute: u32, second: u32) -> Instant {
    Instant { year, month, day, hour, minute, second }
}

#[test]
fn single_day_schedule_gives_start_and_end_on_one_date() {
    let (start, end) = parse_time("April 6, 2024 7:30PM - 9:30PM").unwrap();
    assert_eq!(start, instant(2024, 4, 6, 19, 30, 0));
    assert_eq!(end, instant(2024, 4, 6, 21, 30, 0));
}

#[test]
fn date_range_schedule_gives_start_and_end_on_two_dates() {
    let (start, end) = parse_time("April 30 - May 1, 2024 11:00PM - 2:00AM").unwrap();
    assert_eq!(start, instant(2024, 4, 30, 23, 0, 0));
    assert_eq!(end, instant(2024, 5, 1, 2, 0, 0));
}

#[test]
fn other_word_counts_are_malformed() {
    assert_eq!(parse_time(""), Err(FilterError::MalformedSchedule));
    assert_eq!(parse_time("April 6, 2024"), Err(FilterError::MalformedSchedule));
    assert_eq!(parse_time("April 6, 2024 7:30PM"), Err(FilterError::MalformedSchedule));
    assert_eq!(
        parse_time("April 6, 2024 7:30PM - 9:30PM extra"),
        Err(FilterError::MalformedSchedule)
    );
    assert_eq!(
        parse_time("a b c d e f g h i j"),
        Err(FilterError::MalformedSchedule)
    );
}

#[test]
fn unreadable_fields_are_malformed() {
    assert_eq!(parse_time("Smarch 6, 2024 7:30PM - 9:30PM"), Err(FilterError::MalformedSchedule));
    assert_eq!(parse_time("April 6, 2024 7:30PM to 9:30PM"), Err(FilterError::MalformedSchedule));
    assert_eq!(parse_time("April 6, 2024 7:30PM - 9:61PM"), Err(FilterError::MalformedSchedule));
    assert_eq!(
        parse_time("April 31 - May 1, 2024 11:00PM - 2:00AM"),
        Err(FilterError::MalformedSchedule)
    );
    assert_eq!(
        parse_time("April 30 - May 1, 2024 11:00PM - 25:00AM"),
        Err(FilterError::MalformedSchedule)
    );
}

#[test]
fn stored_instants_are_six_numbers_between_commas() {
    assert_eq!(parse_date_time("2024,04,06,19,30,00"), Some(instant(2024, 4, 6, 19, 30, 0)));
    assert_eq!(parse_date_time("2022,01,01,12,00,00"), Some(instant(2022, 1, 1, 12, 0, 0)));
    assert_eq!(parse_date_time("2024-04-06 19:30:00"), None);
    assert_eq!(parse_date_time("2024,13,06,19,30,00"), None);
    assert_eq!(parse_date_time(""), None);
}

#[test]
fn separator_is_a_hyphen_between_two_spaces() {
    assert_eq!(after_separator(" - 9:30PM"), Some("9:30PM"));
    assert_eq!(after_separator(" - "), Some(""));
    assert_eq!(after_separator("- 9:30PM"), None);
    assert_eq!(after_separator(" -9:30PM"), None);
    assert_eq!(after_separator(" \u{2013} 9:30PM"), None);
    assert_eq!(after_separator(""), None);
}

#[test]
fn end_of_a_single_day_keeps_the_date_of_the_start() {
    let start = instant(2024, 4, 6, 19, 30, 15);
    let end_time = TimeOfDay { hour: 21, minute: 45, second: 50 };
    assert_eq!(same_day(start, end_time), (start, instant(2024, 4, 6, 21, 45, 15)));
}

#[test]
fn a_range_needs_both_ends() {
    let a = instant(2024, 4, 30, 23, 0, 0);
    let b = instant(2024, 5, 1, 2, 0, 0);
    assert_eq!(date_range(Some(a), Some(b)), Ok((a, b)));
    assert_eq!(date_range(None, Some(b)), Err(FilterError::MalformedSchedule));
    assert_eq!(date_range(Some(a), None), Err(FilterError::MalformedSchedule));
    assert_eq!(date_range(None, None), Err(FilterError::MalformedSchedule));
}
