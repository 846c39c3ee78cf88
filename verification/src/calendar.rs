//! Months of the calendar: their names, their lengths, their neighbours and
//! their layout in a grid of weeks.

use chrono::Datelike;
use chrono::NaiveDate;
use vstd::prelude::*;

verus! {

/// First year that has dates.
pub const MIN_YEAR: i32 = -262143;

/// Last year that has dates.
pub const MAX_YEAR: i32 = 262142;

/// Cells in the grid of a month: six weeks of seven days.
pub const GRID_CELLS: usize = 42;

/// The English name of month `m`, counted from 1; the empty text for 0 and
/// for numbers above 12.
pub open spec fn month_label(m: int) -> Seq<char> {
    if m == 1 {
        "January"@
    } else if m == 2 {
        "February"@
    } else if m == 3 {
        "March"@
    } else if m == 4 {
        "April"@
    } else if m == 5 {
        "May"@
    } else if m == 6 {
        "June"@
    } else if m == 7 {
        "July"@
    } else if m == 8 {
        "August"@
    } else if m == 9 {
        "September"@
    } else if m == 10 {
        "October"@
    } else if m == 11 {
        "November"@
    } else if m == 12 {
        "December"@
    } else {
        ""@
    }
}

/// The English name of month `m`, counted from 1. Month 0 has the empty name.
pub fn month_name(m: u32) -> (name: &'static str)
    requires
        m <= 12,
    ensures
        name@ == month_label(m as int),
{
    match m {
        1 => "January",
        2 => "February",
        3 => "March",
        4 => "April",
        5 => "May",
        6 => "June",
        7 => "July",
        8 => "August",
        9 => "September",
        10 => "October",
        11 => "November",
        12 => "December",
        _ => "",
    }
}

/// Whether `year` has a 29th of February: every fourth year does, but of
/// the years that end a century only every fourth.
pub open spec fn is_leap_year(year: int) -> bool {
    year % 4 == 0 && (year % 100 != 0 || year % 400 == 0)
}

/// Number of days of month `month` of `year`.
pub open spec fn days_in_month(year: int, month: int) -> int {
    if month == 2 {
        if is_leap_year(year) {
            29
        } else {
            28
        }
    } else if month == 4 || month == 6 || month == 9 || month == 11 {
        30
    } else {
        31
    }
}

/// Whether `year`, `month` and `day` name a day of the calendar.
pub open spec fn date_exists(year: int, month: int, day: int) -> bool {
    MIN_YEAR <= year <= MAX_YEAR && 1 <= month <= 12 && 1 <= day <= days_in_month(year, month)
}

/// Day of the month of the day before the day `day` of month `month` of
/// `year`.
pub open spec fn day_of_month_before(year: int, month: int, day: int) -> int {
    if day > 1 {
        day - 1
    } else if month > 1 {
        days_in_month(year, month - 1)
    } else {
        31
    }
}

/// Day of the month of the day before a given day, where both days exist.
///
/// Calls `chrono::NaiveDate::from_ymd_opt`, on the date it makes
/// `chrono::NaiveDate::pred_opt`, and on the date before
/// `chrono::Datelike::day`. The first makes a date exactly for the days of
/// the Gregorian calendar in the years `MIN_YEAR..=MAX_YEAR`; the second
/// gives the day before it, which exists but before the first of January of
/// `MIN_YEAR`; the third gives its day of the month.
#[verifier::external_body]
fn day_before(year: i32, month: u32, day: u32) -> (before: Option<u32>)
    ensures
        match before {
            Some(d) => date_exists(year as int, month as int, day as int) && !(year == MIN_YEAR
                && month == 1 && day == 1) && d == day_of_month_before(
                year as int,
                month as int,
                day as int,
            ),
            None => !date_exists(year as int, month as int, day as int) || (year == MIN_YEAR
                && month == 1 && day == 1),
        },
{
    match NaiveDate::from_ymd_opt(year, month, day) {
        Some(date) => match date.pred_opt() {
            Some(previous) => Some(previous.day()),
            None => None,
        },
        None => None,
    }
}

/// Whether month `month` of `year` is followed by a month whose first day
/// has a day before it. Month 0 stands for the December before `year`.
pub open spec fn has_last_day(year: int, month: int) -> bool {
    if month == 12 {
        MIN_YEAR <= year < MAX_YEAR
    } else if month == 0 {
        MIN_YEAR < year <= MAX_YEAR
    } else {
        0 < month < 12 && MIN_YEAR <= year <= MAX_YEAR
    }
}

/// Number of days of month `month` of `year`: the day of the month of the
/// day before the first of the following month.
pub fn last_day(year: i32, month: u32) -> (days: u32)
    requires
        has_last_day(year as int, month as int),
    ensures
        days == days_in_month(year as int, month as int),
        28 <= days <= 31,
{
    let before = if month == 12 {
        day_before(year + 1, 1, 1)
    } else {
        day_before(year, month + 1, 1)
    };
    before.unwrap()
}

/// The month before month `month` of `year`, as year and month.
pub fn previous_month(year: i32, month: u32) -> (before: (i32, u32))
    requires
        1 <= month <= 12,
        month == 1 ==> year > i32::MIN,
    ensures
        before == if month == 1 {
            ((year - 1) as i32, 12u32)
        } else {
            (year, (month - 1) as u32)
        },
{
    if month == 1 {
        (year - 1, 12)
    } else {
        (year, month - 1)
    }
}

/// The month after month `month` of `year`, as year and month.
pub fn next_month(year: i32, month: u32) -> (after: (i32, u32))
    requires
        1 <= month <= 12,
        month == 12 ==> year < i32::MAX,
    ensures
        after == if month == 12 {
            ((year + 1) as i32, 1u32)
        } else {
            (year, (month + 1) as u32)
        },
{
    if month == 12 {
        (year + 1, 1)
    } else {
        (year, month + 1)
    }
}

/// Day of the month shown in cell `cell` of the grid of a month whose first
/// day falls on weekday `first_weekday`, counted from Sunday as 0, and which
/// has `days` days. Cells are counted along the weeks, from 0. The month
/// starts in the cell of its first weekday in the first week and fills the
/// cells after it day by day; the cells before and after stay empty, as do
/// all cells where `first_weekday` is no weekday.
pub open spec fn cell_day(cell: int, first_weekday: int, days: int) -> Option<u32> {
    if 0 <= first_weekday < 7 && first_weekday <= cell < first_weekday + days {
        Some((cell - first_weekday + 1) as u32)
    } else {
        None
    }
}

/// Lays the days of a month out in a grid of six weeks, Sunday first.
pub fn month_grid(first_weekday: u32, days: u32) -> (grid: Vec<Option<u32>>)
    ensures
        grid.len() == GRID_CELLS,
        forall|cell: int|
            0 <= cell < GRID_CELLS ==> #[trigger] grid[cell] == cell_day(
                cell,
                first_weekday as int,
                days as int,
            ),
{
    let mut grid: Vec<Option<u32>> = Vec::new();
    let mut day: u32 = 1;
    let mut started = false;
    let mut week: u32 = 0;
    while week < 6
        invariant
            week <= 6,
            grid.len() == week * 7,
            started <==> first_weekday < 7 && week > 0,
            started ==> day == week * 7 - first_weekday + 1 || (day == days + 1 && day <= week * 7
                - first_weekday + 1),
            !started ==> day == 1,
            day <= days + 1,
            forall|cell: int|
                0 <= cell < grid.len() ==> #[trigger] grid[cell] == cell_day(
                    cell,
                    first_weekday as int,
                    days as int,
                ),
        decreases 6 - week,
    {
        let mut weekday: u32 = 0;
        while weekday < 7
            invariant
                week < 6,
                weekday <= 7,
                grid.len() == week * 7 + weekday,
                started <==> first_weekday < 7 && (week > 0 || weekday > first_weekday),
                started ==> day == week * 7 + weekday - first_weekday + 1 || (day == days + 1
                    && day <= week * 7 + weekday - first_weekday + 1),
                !started ==> day == 1,
                day <= days + 1,
            day <= days + 1,
                forall|cell: int|
                    0 <= cell < grid.len() ==> #[trigger] grid[cell] == cell_day(
                        cell,
                        first_weekday as int,
                        days as int,
                    ),
            decreases 7 - weekday,
        {
            if !started && weekday == first_weekday {
                started = true;
            }
            if started && day <= days {
                grid.push(Some(day));
                day = day + 1;
            } else {
                grid.push(None);
            }
            weekday = weekday + 1;
        }
        week = week + 1;
    }
    grid
}

} // verus!
