use money_calendar::calendar::last_day;
use money_calendar::calendar::month_grid;
use money_calendar::calendar::month_name;
use money_calendar::calendar::next_month;
use money_calendar::calendar::previous_month;
use money_calendar::calendar::GRID_CELLS;
use money_calendar::calendar::MAX_YEAR;
use money_calendar::calendar::MIN_YEAR;

#[test]
fn months_have_their_english_names() {
    let names = [
        "", "January", "February", "March", "April", "May", "June", "July", "August",
        "September", "October", "November", "December",
    ];
    for m in 0..=12u32 {
        assert_eq!(month_name(m), names[m as usize]);
    }
}

#[test]
fn months_have_their_lengths() {
    let lengths = [31, 28, 31, 30, 31, 30, 31, 31, 30, 31, 30, 31];
    for month in 1..=12u32 {
        assert_eq!(last_day(2023, month), lengths[month as usize - 1]);
    }
}

#[test]
fn february_has_a_29th_in_leap_years() {
    assert_eq!(last_day(2024, 2), 29);
    assert_eq!(last_day(2023, 2), 28);
    assert_eq!(last_day(2000, 2), 29);
    assert_eq!(last_day(1900, 2), 28);
    assert_eq!(last_day(2100, 2), 28);
    assert_eq!(last_day(0, 2), 29);
    assert_eq!(last_day(-4, 2), 29);
    assert_eq!(last_day(-1, 2), 28);
    assert_eq!(last_day(-100, 2), 28);
    assert_eq!(last_day(-400, 2), 29);
}

#[test]
fn december_ends_on_the_31st() {
    assert_eq!(last_day(2024, 12), 31);
    assert_eq!(last_day(1999, 12), 31);
}

#[test]
fn month_zero_is_the_december_before() {
    assert_eq!(last_day(2024, 0), 31);
}

#[test]
fn first_and_last_year_have_lengths() {
    assert_eq!(last_day(MIN_YEAR, 1), 31);
    assert_eq!(last_day(MIN_YEAR, 2), 28);
    assert_eq!(last_day(MIN_YEAR, 12), 31);
    assert_eq!(last_day(MAX_YEAR, 1), 31);
    assert_eq!(last_day(MAX_YEAR, 11), 30);
    assert_eq!(last_day(MAX_YEAR - 1, 12), 31);
    assert_eq!(last_day(MAX_YEAR, 0), 31);
    assert_eq!(last_day(MIN_YEAR + 1, 0), 31);
}

#[test]
fn month_before() {
    assert_eq!(previous_month(2024, 3), (2024, 2));
    assert_eq!(previous_month(2024, 12), (2024, 11));
    assert_eq!(previous_month(2024, 1), (2023, 12));
    assert_eq!(previous_month(0, 1), (-1, 12));
}

#[test]
fn month_after() {
    assert_eq!(next_month(2024, 3), (2024, 4));
    assert_eq!(next_month(2024, 1), (2024, 2));
    assert_eq!(next_month(2024, 12), (2025, 1));
    assert_eq!(next_month(-1, 12), (0, 1));
}

#[test]
fn month_after_the_month_before_is_the_month() {
    for month in 1..=12u32 {
        let (y, m) = previous_month(2024, month);
        assert_eq!(next_month(y, m), (2024, month));
        let (y, m) = next_month(2024, month);
        assert_eq!(previous_month(y, m), (2024, month));
    }
}

#[test]
fn grid_has_six_weeks() {
    assert_eq!(GRID_CELLS, 42);
    assert_eq!(month_grid(0, 31).len(), 42);
    assert_eq!(month_grid(6, 28).len(), 42);
}

#[test]
fn grid_starts_the_month_on_its_first_weekday() {
    let grid = month_grid(3, 30);
    for cell in 0..42usize {
        if cell < 3 {
            assert_eq!(grid[cell], None);
        } else if cell < 33 {
            assert_eq!(grid[cell], Some(cell as u32 - 2));
        } else {
            assert_eq!(grid[cell], None);
        }
    }
}

#[test]
fn grid_of_a_month_that_starts_on_sunday() {
    let grid = month_grid(0, 28);
    assert_eq!(grid[0], Some(1));
    assert_eq!(grid[27], Some(28));
    assert_eq!(grid[28], None);
    assert_eq!(grid[41], None);
}

#[test]
fn grid_holds_a_long_month_that_starts_on_saturday() {
    let grid = month_grid(6, 31);
    assert_eq!(grid[5], None);
    assert_eq!(grid[6], Some(1));
    assert_eq!(grid[36], Some(31));
    assert_eq!(grid[37], None);
}

#[test]
fn grid_cuts_off_what_six_weeks_cannot_hold() {
    let grid = month_grid(6, 40);
    assert_eq!(grid[6], Some(1));
    assert_eq!(grid[41], Some(36));
}

#[test]
fn grid_of_no_days_is_empty() {
    assert!(month_grid(2, 0).iter().all(|cell| cell.is_none()));
}

#[test]
fn grid_without_a_first_weekday_is_empty() {
    assert!(month_grid(7, 30).iter().all(|cell| cell.is_none()));
    assert!(month_grid(u32::MAX, u32::MAX).iter().all(|cell| cell.is_none()));
}
