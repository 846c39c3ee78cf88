use money_calendar::clock::parse_hhmm;
use money_calendar::shift::segment_minutes;
use money_calendar::shift::MinuteSplit;
use money_calendar::shift::ShiftInterval;
use money_calendar::shift::MINUTES_PER_DAY;
use money_calendar::shift::OVERTIME_START;

fn interval(start: &str, end: &str) -> ShiftInterval {
    ShiftInterval::normalize(parse_hhmm(start).unwrap(), parse_hhmm(end).unwrap()).unwrap()
}

#[test]
fn constants_of_the_day() {
    assert_eq!(MINUTES_PER_DAY, 1440);
    assert_eq!(OVERTIME_START, 15 * 60 + 30);
}

#[test]
fn shift_within_one_day_keeps_its_end() {
    let shift = interval("09:00", "17:00");
    assert_eq!(shift.start(), 540);
    assert_eq!(shift.end(), 1020);
    assert_eq!(shift.duration(), 480);
}

#[test]
fn end_before_start_falls_on_the_next_day() {
    let shift = interval("23:00", "01:00");
    assert_eq!(shift.start(), 1380);
    assert_eq!(shift.end(), 1500);
    assert_eq!(shift.duration(), 120);
}

#[test]
fn equal_start_and_end_make_a_whole_day() {
    let shift = interval("08:00", "08:00");
    assert_eq!(shift.start(), 480);
    assert_eq!(shift.end(), 1920);
    assert_eq!(shift.duration(), 1440);
    let midnight = interval("00:00", "00:00");
    assert_eq!(midnight.start(), 0);
    assert_eq!(midnight.end(), 1440);
}

#[test]
fn normalizing_never_fails() {
    for start in 0..96u32 {
        for end in 0..96u32 {
            let s = parse_hhmm(&format!("{}:{}", start / 4, start % 4 * 15)).unwrap();
            let e = parse_hhmm(&format!("{}:{}", end / 4, end % 4 * 15)).unwrap();
            let shift = ShiftInterval::normalize(s, e).unwrap();
            assert!(shift.start() < shift.end());
            assert!(shift.duration() <= 1440);
        }
    }
}

#[test]
fn one_minute_shift_across_midnight() {
    let shift = interval("23:59", "00:00");
    assert_eq!(shift.start(), 1439);
    assert_eq!(shift.end(), 1440);
    assert_eq!(shift.duration(), 1);
}

#[test]
fn time_before_the_cutoff_is_regular() {
    assert_eq!(segment_minutes(540, 930), MinuteSplit { regular: 390, overtime: 0 });
    assert_eq!(segment_minutes(0, 1), MinuteSplit { regular: 1, overtime: 0 });
}

#[test]
fn time_from_the_cutoff_on_is_overtime() {
    assert_eq!(segment_minutes(930, 1440), MinuteSplit { regular: 0, overtime: 510 });
    assert_eq!(segment_minutes(929, 931), MinuteSplit { regular: 1, overtime: 1 });
}

#[test]
fn shift_across_the_cutoff_is_split_there() {
    assert_eq!(segment_minutes(840, 1020), MinuteSplit { regular: 90, overtime: 90 });
}

#[test]
fn evening_before_midnight_is_overtime_and_morning_after_is_regular() {
    assert_eq!(segment_minutes(1380, 1500), MinuteSplit { regular: 60, overtime: 60 });
}

#[test]
fn whole_day_has_930_regular_minutes() {
    assert_eq!(segment_minutes(0, 1440), MinuteSplit { regular: 930, overtime: 510 });
    assert_eq!(segment_minutes(480, 1920), MinuteSplit { regular: 930, overtime: 510 });
}

#[test]
fn cutoff_is_applied_on_every_day_of_a_long_interval() {
    assert_eq!(segment_minutes(100, 4000), MinuteSplit { regular: 2690, overtime: 1210 });
    assert_eq!(segment_minutes(1440 * 3 + 900, 1440 * 3 + 960), MinuteSplit { regular: 30, overtime: 30 });
}

#[test]
fn empty_and_backward_intervals_hold_no_minute() {
    assert_eq!(segment_minutes(600, 600), MinuteSplit { regular: 0, overtime: 0 });
    assert_eq!(segment_minutes(50, 20), MinuteSplit { regular: 0, overtime: 0 });
}

#[test]
fn largest_interval_is_split_without_overflow() {
    let split = segment_minutes(0, u32::MAX);
    assert_eq!(split.regular as u64 + split.overtime as u64, u32::MAX as u64);
    let days = (u32::MAX / 1440) as u64;
    let rest = (u32::MAX % 1440) as u64;
    assert_eq!(split.regular as u64, days * 930 + rest.min(930));
}

#[test]
fn split_counts_every_minute_once() {
    for start in [0u32, 1, 929, 930, 931, 1439, 1440, 2000] {
        for length in [0u32, 1, 29, 30, 31, 509, 510, 511, 1440, 2880, 5000] {
            let split = segment_minutes(start, start + length);
            assert_eq!(split.regular + split.overtime, length);
            let mut regular = 0;
            for minute in start..start + length {
                if minute % 1440 < 930 {
                    regular += 1;
                }
            }
            assert_eq!(split.regular, regular);
        }
    }
}
