//! Stored shifts, one line of text each.
//!
//! A line holds the day of a shift, its start and its end, with commas
//! between them; what follows a third comma is not read. The day is written
//! as year, month and day with hyphens between them. The first line of a
//! store may be a heading, which names the columns.

use crate::calendar::date_exists;
use crate::text::chars_of;
use chrono::Datelike;
use chrono::NaiveDate;
use vstd::prelude::*;

verus! {

/// How the day of a shift is written: year, month and day.
pub const DATE_FORMAT: &'static str = "%Y-%m-%d";

/// How a heading begins, in small letters.
pub const HEADING: &'static str = "date,start,end";

/// `text` in small letters, as `str::to_lowercase` gives it.
pub uninterp spec fn lowercase_text(text: Seq<char>) -> Seq<char>;

/// `text` without the white space at its two ends, as `str::trim` gives it.
pub uninterp spec fn trimmed_text(text: Seq<char>) -> Seq<char>;

/// Year, month and day of the day that `text` names when read by `format`,
/// as `chrono::NaiveDate::parse_from_str` finds them; `None` where it finds
/// no day.
pub uninterp spec fn date_in_text(text: Seq<char>, format: Seq<char>) -> Option<(int, int, int)>;

/// `text` in small letters. Calls `str::to_lowercase`.
#[verifier::external_body]
fn lowercase(text: &str) -> (lower: String)
    ensures
        lower@ == lowercase_text(text@),
{
    text.to_lowercase()
}

/// `text` without the white space at its two ends. Calls `str::trim`.
#[verifier::external_body]
fn trim(text: &str) -> (inner: &str)
    ensures
        inner@ == trimmed_text(text@),
{
    text.trim()
}

/// Year, month and day of the day that `text` names when read by `format`.
///
/// Calls `chrono::NaiveDate::parse_from_str` and takes the date it gives
/// apart with `chrono::Datelike::year`, `month` and `day`. What it reads
/// depends on the two texts alone, and a date that it gives is a day of the
/// calendar. Only [`DATE_FORMAT`] is admitted as the format.
#[verifier::external_body]
fn date_from_text(text: &str, format: &str) -> (date: Option<(i32, u32, u32)>)
    requires
        format@ == DATE_FORMAT@,
    ensures
        match date {
            Some(d) => date_in_text(text@, format@) == Some((d.0 as int, d.1 as int, d.2 as int))
                && date_exists(d.0 as int, d.1 as int, d.2 as int),
            None => date_in_text(text@, format@).is_none(),
        },
{
    match NaiveDate::parse_from_str(text, format) {
        Ok(date) => Some((date.year(), date.month(), date.day())),
        Err(_) => None,
    }
}

/// Place of the first comma of `text` at or after place `from`; the length
/// of `text` where there is none.
pub open spec fn comma_from(text: Seq<char>, from: int) -> int
    decreases text.len() - from,
{
    if from < 0 || from >= text.len() {
        text.len() as int
    } else if text[from] == ',' {
        from
    } else {
        comma_from(text, from + 1)
    }
}

/// The first three fields of `line`, where it has two commas or more: what
/// stands before the first comma, between the first and the second, and
/// after the second up to the third or the end of the line.
pub open spec fn fields_of(line: Seq<char>) -> Option<(Seq<char>, Seq<char>, Seq<char>)> {
    let first = comma_from(line, 0);
    let second = comma_from(line, first + 1);
    let third = comma_from(line, second + 1);
    if first < line.len() && second < line.len() {
        Some(
            (
                line.subrange(0, first),
                line.subrange(first + 1, second),
                line.subrange(second + 1, third),
            ),
        )
    } else {
        None
    }
}

/// Whether a line that reads `lower` in small letters is a heading.
pub open spec fn begins_as_heading(lower: Seq<char>) -> bool {
    HEADING@.is_prefix_of(lower)
}

/// A stored shift as text: the day it was worked on, and its start and end
/// as they were written.
pub struct RecordText {
    pub year: int,
    pub month: int,
    pub day: int,
    pub start: Seq<char>,
    pub end: Seq<char>,
}

/// The shift that `line` stores, if it stores one. A heading on the first
/// line stores none, nor does a line with fewer than three fields or one
/// whose first field names no day. The start and the end are the second and
/// the third field without the white space around them; they are not read
/// as clock times here.
pub open spec fn record_of(line: Seq<char>, first_line: bool) -> Option<RecordText> {
    if first_line && begins_as_heading(lowercase_text(line)) {
        None
    } else {
        match fields_of(line) {
            None => None,
            Some(fields) => match date_in_text(fields.0, DATE_FORMAT@) {
                None => None,
                Some(date) => Some(
                    RecordText {
                        year: date.0,
                        month: date.1,
                        day: date.2,
                        start: trimmed_text(fields.1),
                        end: trimmed_text(fields.2),
                    },
                ),
            },
        }
    }
}

/// A stored shift: the day it was worked on, and its start and end as they
/// were written.
#[derive(Clone, Debug, PartialEq, Eq)]
pub struct WorkRecord {
    pub year: i32,
    pub month: u32,
    pub day: u32,
    pub start: String,
    pub end: String,
}

impl View for WorkRecord {
    type V = RecordText;

    open spec fn view(&self) -> RecordText {
        RecordText {
            year: self.year as int,
            month: self.month as int,
            day: self.day as int,
            start: self.start@,
            end: self.end@,
        }
    }
}

/// Finds the first comma at or after place `from`.
fn find_comma(chars: &Vec<char>, from: usize) -> (place: usize)
    ensures
        place == comma_from(chars@, from as int),
        place <= chars.len(),
        from <= chars.len() ==> from <= place,
{
    if from >= chars.len() {
        return chars.len();
    }
    let mut place: usize = from;
    while place < chars.len() && chars[place] != ','
        invariant
            from <= place <= chars.len(),
            comma_from(chars@, from as int) == comma_from(chars@, place as int),
        decreases chars.len() - place,
    {
        place = place + 1;
    }
    place
}

/// Whether a line that reads `lower` in small letters is a heading: whether
/// it begins with the names of the first three columns.
pub fn starts_with_heading(lower: &str) -> (heading: bool)
    ensures
        heading == begins_as_heading(lower@),
{
    let line = chars_of(lower);
    let start = chars_of(HEADING);
    if line.len() < start.len() {
        return false;
    }
    let mut i: usize = 0;
    while i < start.len()
        invariant
            i <= start.len() <= line.len(),
            start@ == HEADING@,
            line@ == lower@,
            forall|j: int| 0 <= j < i ==> line@[j] == start@[j],
        decreases start.len() - i,
    {
        if line[i] != start[i] {
            return false;
        }
        i = i + 1;
    }
    assert(lower@.subrange(0, HEADING@.len() as int) =~= HEADING@);
    true
}

/// Whether `line` is a heading, in letters small or large.
pub fn is_heading(line: &str) -> (heading: bool)
    ensures
        heading == begins_as_heading(lowercase_text(line@)),
{
    let lower = lowercase(line);
    starts_with_heading(lower.as_str())
}

/// Splits `line` at its commas into its first three fields, where it has as
/// many.
pub fn record_fields(line: &str) -> (fields: Option<(&str, &str, &str)>)
    ensures
        match fields {
            Some(f) => fields_of(line@) == Some((f.0@, f.1@, f.2@)),
            None => fields_of(line@).is_none(),
        },
{
    let chars = chars_of(line);
    let n: usize = chars.len();
    let first: usize = find_comma(&chars, 0);
    if first >= n {
        return None;
    }
    let second: usize = find_comma(&chars, first + 1);
    if second >= n {
        return None;
    }
    let third: usize = find_comma(&chars, second + 1);
    Some(
        (
            line.substring_char(0, first),
            line.substring_char(first + 1, second),
            line.substring_char(second + 1, third),
        ),
    )
}

/// Reads the shift that a line of a store holds. `first_line` says whether
/// the line is the first of its store, where a heading may stand.
pub fn parse_record(line: &str, first_line: bool) -> (record: Option<WorkRecord>)
    ensures
        match record {
            Some(r) => record_of(line@, first_line) == Some(r@) && date_exists(
                r.year as int,
                r.month as int,
                r.day as int,
            ),
            None => record_of(line@, first_line).is_none(),
        },
{
    if first_line && is_heading(line) {
        return None;
    }
    let fields = match record_fields(line) {
        Some(fields) => fields,
        None => {
            return None;
        },
    };
    let date = match date_from_text(fields.0, DATE_FORMAT) {
        Some(date) => date,
        None => {
            return None;
        },
    };
    Some(
        WorkRecord {
            year: date.0,
            month: date.1,
            day: date.2,
            start: trim(fields.1).to_owned(),
            end: trim(fields.2).to_owned(),
        },
    )
}

} // verus!
