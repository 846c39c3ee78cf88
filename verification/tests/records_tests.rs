use money_calendar::records::is_heading;
use money_calendar::records::parse_record;
use money_calendar::records::record_fields;
use money_calendar::records::starts_with_heading;
use money_calendar::records::WorkRecord;
use money_calendar::records::DATE_FORMAT;
use money_calendar::records::HEADING;
use money_calendar::text::chars_of;

fn record(year: i32, month: u32, day: u32, start: &str, end: &str) -> WorkRecord {
    WorkRecord { year, month, day, start: start.to_string(), end: end.to_string() }
}

#[test]
fn text_is_taken_apart_into_its_characters() {
    assert_eq!(chars_of("a,é:"), vec!['a', ',', 'é', ':']);
    assert_eq!(chars_of(""), Vec::<char>::new());
}

#[test]
fn format_and_heading() {
    assert_eq!(DATE_FORMAT, "%Y-%m-%d");
    assert_eq!(HEADING, "date,start,end");
}

#[test]
fn line_is_split_at_its_first_commas() {
    assert_eq!(record_fields("2024-03-05,09:00,17:00"), Some(("2024-03-05", "09:00", "17:00")));
    assert_eq!(record_fields("a,b,c,d,e"), Some(("a", "b", "c")));
    assert_eq!(record_fields(" a , b , c "), Some((" a ", " b ", " c ")));
}

#[test]
fn fields_may_be_empty() {
    assert_eq!(record_fields(",,"), Some(("", "", "")));
    assert_eq!(record_fields("a,b,"), Some(("a", "b", "")));
    assert_eq!(record_fields(",,,"), Some(("", "", "")));
    assert_eq!(record_fields("a,,c"), Some(("a", "", "c")));
}

#[test]
fn line_with_fewer_than_three_fields_has_none() {
    assert_eq!(record_fields(""), None);
    assert_eq!(record_fields("2024-03-05"), None);
    assert_eq!(record_fields("2024-03-05,09:00"), None);
    assert_eq!(record_fields(","), None);
}

#[test]
fn fields_keep_characters_of_any_width() {
    assert_eq!(record_fields("日付,é,ü"), Some(("日付", "é", "ü")));
}

#[test]
fn heading_begins_with_the_column_names() {
    assert!(starts_with_heading("date,start,end"));
    assert!(starts_with_heading("date,start,end,base_rate,regular_hours,overtime_hours,total"));
    assert!(!starts_with_heading("date,start"));
    assert!(!starts_with_heading("date,start,enx"));
    assert!(!starts_with_heading(" date,start,end"));
    assert!(!starts_with_heading("Date,start,end"));
    assert!(!starts_with_heading(""));
}

#[test]
fn heading_is_known_in_letters_small_or_large() {
    assert!(is_heading("date,start,end,base_rate"));
    assert!(is_heading("DATE,START,END"));
    assert!(is_heading("Date,Start,End,Rate"));
    assert!(!is_heading("2024-03-05,09:00,17:00"));
    assert!(!is_heading("date;start;end"));
    assert!(!is_heading(""));
}

#[test]
fn reads_a_stored_shift() {
    assert_eq!(
        parse_record("2024-03-05,09:00,17:00", false),
        Some(record(2024, 3, 5, "09:00", "17:00"))
    );
}

#[test]
fn reads_a_row_with_further_columns() {
    assert_eq!(
        parse_record("2024-12-31,23:00,01:00,30.0000,0.5000,1.0000,60.0000", false),
        Some(record(2024, 12, 31, "23:00", "01:00"))
    );
}

#[test]
fn white_space_around_the_times_is_dropped() {
    assert_eq!(
        parse_record("2024-03-05, 09:00 ,\t17:00\u{a0}", false),
        Some(record(2024, 3, 5, "09:00", "17:00"))
    );
    assert_eq!(
        parse_record("2024-03-05,9 00,17:00", false),
        Some(record(2024, 3, 5, "9 00", "17:00"))
    );
}

#[test]
fn times_are_kept_as_written() {
    assert_eq!(parse_record("2024-03-05,soon,late", false), Some(record(2024, 3, 5, "soon", "late")));
    assert_eq!(parse_record("2024-03-05,,", false), Some(record(2024, 3, 5, "", "")));
}

#[test]
fn heading_on_the_first_line_stores_no_shift() {
    assert_eq!(parse_record("date,start,end,base_rate", true), None);
    assert_eq!(parse_record("DATE,Start,End", true), None);
}

#[test]
fn heading_is_only_looked_for_on_the_first_line() {
    assert_eq!(parse_record("2024-03-05,09:00,17:00", true), Some(record(2024, 3, 5, "09:00", "17:00")));
    // On a later line a heading is a row like any other; its first field names no day.
    assert_eq!(parse_record("date,start,end", false), None);
}

#[test]
fn line_without_three_fields_stores_no_shift() {
    assert_eq!(parse_record("", false), None);
    assert_eq!(parse_record("2024-03-05,09:00", false), None);
    assert_eq!(parse_record("2024-03-05", true), None);
}

#[test]
fn line_without_a_day_stores_no_shift() {
    assert_eq!(parse_record("yesterday,09:00,17:00", false), None);
    assert_eq!(parse_record("2024-02-30,09:00,17:00", false), None);
    assert_eq!(parse_record("2024-13-01,09:00,17:00", false), None);
    assert_eq!(parse_record("2024/03/05,09:00,17:00", false), None);
    assert_eq!(parse_record(",09:00,17:00", false), None);
}

#[test]
fn day_of_a_leap_year_is_read() {
    assert_eq!(parse_record("2024-02-29,08:00,12:00", false), Some(record(2024, 2, 29, "08:00", "12:00")));
    assert_eq!(parse_record("2023-02-29,08:00,12:00", false), None);
}
