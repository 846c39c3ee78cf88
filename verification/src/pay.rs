//! Lunch break, pay, and the whole computation from two clock times.
//!
//! Money is counted in whole numbers. The hourly rate is a whole number of
//! some unit of currency, and a pay is a whole number of 120ths of that unit:
//! a regular minute earns a 60th of the rate, which is two 120ths, and an
//! overtime minute earns one and a half times as much, which is three.

use crate::clock::clock_minutes;
use crate::clock::parse_hhmm;
use crate::clock::TimeOfDay;
use crate::error::PayError;
use crate::shift::lemma_split_covers_interval;
use crate::shift::lemma_stretch_before_cutoff;
use crate::shift::overtime_between;
use crate::shift::regular_between;
use crate::shift::rolled_end;
use crate::shift::segment_minutes;
use crate::shift::MinuteSplit;
use crate::shift::ShiftInterval;
use vstd::prelude::*;

verus! {

/// Length of the unpaid lunch break, in minutes.
pub const LUNCH_MINUTES: u32 = 30;

/// A pay is counted in parts of the rate's unit of currency; this many make
/// one unit.
pub const PAY_DENOMINATOR: u128 = 120;

/// Minutes of lunch break taken out of `total` worked minutes: the whole
/// break, or all of the shift where it is shorter than the break.
pub open spec fn lunch_taken(total: int) -> int {
    if total < LUNCH_MINUTES {
        total
    } else {
        LUNCH_MINUTES as int
    }
}

/// Regular minutes left after the lunch break, which is taken out of the
/// regular minutes first.
pub open spec fn regular_after_lunch(regular: int, overtime: int) -> int {
    let lunch = lunch_taken(regular + overtime);
    if regular >= lunch {
        regular - lunch
    } else {
        0
    }
}

/// Overtime minutes left after the lunch break: what of the break the
/// regular minutes could not cover is taken out of the overtime minutes,
/// which do not go below zero.
pub open spec fn overtime_after_lunch(regular: int, overtime: int) -> int {
    let lunch = lunch_taken(regular + overtime);
    if regular >= lunch {
        overtime
    } else if overtime - (lunch - regular) > 0 {
        overtime - (lunch - regular)
    } else {
        0
    }
}

/// Pay of `regular` regular and `overtime` overtime minutes at `rate` an
/// hour, in 120ths of the rate's unit: `regular / 60 * rate` and
/// `overtime / 60 * rate * 1.5`, added up and multiplied by 120.
pub open spec fn pay_in_120ths(regular: int, overtime: int, rate: int) -> int {
    rate * (2 * regular + 3 * overtime)
}

/// Paid time and pay of one shift.
#[derive(Clone, Copy, Debug, PartialEq, Eq, Structural)]
pub struct PaySummary {
    /// Paid minutes before the overtime cutoff.
    pub regular_minutes: u32,
    /// Paid minutes from the overtime cutoff on.
    pub overtime_minutes: u32,
    /// Pay of the shift in 120ths of the rate's unit of currency.
    pub total_pay_120ths: u128,
}

impl PaySummary {
    /// A summary stands for time that was worked: it holds a paid minute.
    pub open spec fn wf(&self) -> bool {
        self.regular_minutes + self.overtime_minutes > 0
    }

    /// Paid minutes, regular and overtime together.
    pub fn total_minutes(&self) -> (total: u64)
        ensures
            total == self.regular_minutes + self.overtime_minutes,
    {
        self.regular_minutes as u64 + self.overtime_minutes as u64
    }

    /// Prices paid minutes at `hourly_rate`. Refuses with
    /// [`PayError::NoWorkableTime`] where there is no paid minute.
    pub fn from_minutes(paid: MinuteSplit, hourly_rate: u64) -> (summary: Result<
        PaySummary,
        PayError,
    >)
        ensures
            summary == priced(paid.regular as int, paid.overtime as int, hourly_rate),
            summary matches Ok(p) ==> p.wf(),
    {
        if paid.regular == 0 && paid.overtime == 0 {
            return Err(PayError::NoWorkableTime);
        }
        let weight: u64 = 2 * (paid.regular as u64) + 3 * (paid.overtime as u64);
        assert(hourly_rate * weight <= u128::MAX) by (nonlinear_arith)
            requires
                hourly_rate <= u64::MAX,
                weight <= u64::MAX,
        ;
        assert(hourly_rate * weight == pay_in_120ths(
            paid.regular as int,
            paid.overtime as int,
            hourly_rate as int,
        ));
        Ok(
            PaySummary {
                regular_minutes: paid.regular,
                overtime_minutes: paid.overtime,
                total_pay_120ths: (hourly_rate as u128) * (weight as u128),
            },
        )
    }
}

/// The summary of `regular` and `overtime` paid minutes at `rate` an hour,
/// or the refusal where no minute is paid.
pub open spec fn priced(regular: int, overtime: int, rate: u64) -> Result<PaySummary, PayError> {
    if regular + overtime <= 0 {
        Err(PayError::NoWorkableTime)
    } else {
        Ok(
            PaySummary {
                regular_minutes: regular as u32,
                overtime_minutes: overtime as u32,
                total_pay_120ths: pay_in_120ths(regular, overtime, rate as int) as u128,
            },
        )
    }
}

/// Takes the lunch break out of worked minutes: out of the regular minutes
/// as far as they go, and out of the overtime minutes for the rest.
pub fn deduct_lunch(worked: MinuteSplit) -> (paid: MinuteSplit)
    ensures
        paid.regular == regular_after_lunch(worked.regular as int, worked.overtime as int),
        paid.overtime == overtime_after_lunch(worked.regular as int, worked.overtime as int),
{
    if worked.regular >= LUNCH_MINUTES {
        MinuteSplit { regular: worked.regular - LUNCH_MINUTES, overtime: worked.overtime }
    } else {
        let uncovered: u32 = LUNCH_MINUTES - worked.regular;
        let overtime: u32 = if worked.overtime > uncovered {
            worked.overtime - uncovered
        } else {
            0
        };
        MinuteSplit { regular: 0, overtime }
    }
}

/// What [`calculate_pay_summary`] returns for the texts `start` and `end`
/// and the rate `rate`.
pub open spec fn pay_outcome(start: Seq<char>, end: Seq<char>, rate: u64) -> Result<
    PaySummary,
    PayError,
> {
    match (clock_minutes(start), clock_minutes(end)) {
        (Some(s), Some(e)) => {
            let first = s as int;
            let last = rolled_end(s, e) as int;
            priced(
                regular_after_lunch(regular_between(first, last), overtime_between(first, last)),
                overtime_after_lunch(regular_between(first, last), overtime_between(first, last)),
                rate,
            )
        },
        _ => Err(PayError::InvalidTimeFormat),
    }
}

/// Paid time and pay of the shift from `start` to `end`, two clock times
/// written `HH:MM`, at `base_rate` an hour.
///
/// A shift whose end is not after its start ends on the next day. Time
/// before 15:30 of a day is regular, time from 15:30 on is overtime and
/// earns one and a half times the rate. Thirty minutes of lunch are unpaid.
///
/// Refuses with [`PayError::InvalidTimeFormat`] where either text is no clock
/// time, and with [`PayError::NoWorkableTime`] where the shift is no longer
/// than the lunch break. [`PayError::ZeroOrNegativeDuration`] is never
/// returned.
pub fn calculate_pay_summary(start: &str, end: &str, base_rate: u64) -> (summary: Result<
    PaySummary,
    PayError,
>)
    ensures
        summary == pay_outcome(start@, end@, base_rate),
        summary matches Ok(p) ==> p.wf(),
{
    let start_time: TimeOfDay = match parse_hhmm(start) {
        Some(time) => time,
        None => {
            return Err(PayError::InvalidTimeFormat);
        },
    };
    let end_time: TimeOfDay = match parse_hhmm(end) {
        Some(time) => time,
        None => {
            return Err(PayError::InvalidTimeFormat);
        },
    };
    let interval: ShiftInterval = match ShiftInterval::normalize(start_time, end_time) {
        Ok(interval) => interval,
        Err(error) => {
            return Err(error);
        },
    };
    let worked = segment_minutes(interval.start(), interval.end());
    let paid = deduct_lunch(worked);
    PaySummary::from_minutes(paid, base_rate)
}

/// The lunch break takes its length out of the worked minutes, or all of
/// them where they are fewer, and leaves neither count below zero.
pub proof fn lemma_lunch_takes_its_length(regular: int, overtime: int)
    requires
        0 <= regular,
        0 <= overtime,
    ensures
        regular_after_lunch(regular, overtime) + overtime_after_lunch(regular, overtime) == regular
            + overtime - lunch_taken(regular + overtime),
        0 <= regular_after_lunch(regular, overtime) <= regular,
        0 <= overtime_after_lunch(regular, overtime) <= overtime,
        overtime_after_lunch(regular, overtime) < overtime ==> regular_after_lunch(
            regular,
            overtime,
        ) == 0,
{
}

/// A pay in 120ths is the pay that the hours earn: a 60th of the rate for
/// each regular minute and one and a half 60ths for each overtime minute.
pub proof fn lemma_pay_is_rate_times_hours(regular: int, overtime: int, rate: int)
    ensures
        2 * 60 * pay_in_120ths(regular, overtime, rate) == PAY_DENOMINATOR * (2 * (regular * rate)
            + 3 * (overtime * rate)),
{
    assert(2 * 60 * (rate * (2 * regular + 3 * overtime)) == 120 * (2 * (regular * rate) + 3 * (
        overtime * rate))) by (nonlinear_arith);
}

/// A clock time lies within its day.
pub proof fn lemma_clock_minutes_within_day(text: Seq<char>)
    ensures
        clock_minutes(text) matches Some(m) ==> m < 1440,
{
}

/// Length in minutes of the shift between the clock times that the texts
/// `start` and `end` write.
pub open spec fn shift_length(start: Seq<char>, end: Seq<char>) -> int
    recommends
        clock_minutes(start).is_some(),
        clock_minutes(end).is_some(),
{
    rolled_end(clock_minutes(start).unwrap(), clock_minutes(end).unwrap()) - clock_minutes(
        start,
    ).unwrap()
}

/// Two clock times always give a shift of 1 to 1440 minutes, and its outcome
/// turns on its length alone: a shift of up to 30 minutes is refused for
/// want of workable time; a longer one has a summary, whose paid minutes are
/// the length less 30 and whose pay is that of its minutes, with nothing
/// lost to the width of an integer.
pub proof fn lemma_outcome_of_clock_times(start: Seq<char>, end: Seq<char>, rate: u64)
    requires
        clock_minutes(start).is_some(),
        clock_minutes(end).is_some(),
    ensures
        0 < shift_length(start, end) <= 1440,
        shift_length(start, end) <= 30 ==> pay_outcome(start, end, rate) == Err::<
            PaySummary,
            PayError,
        >(PayError::NoWorkableTime),
        shift_length(start, end) > 30 ==> pay_outcome(start, end, rate).is_ok(),
        pay_outcome(start, end, rate) matches Ok(p) ==> {
            &&& p.wf()
            &&& p.regular_minutes + p.overtime_minutes == shift_length(start, end) - 30
            &&& p.total_pay_120ths == rate * (2 * p.regular_minutes + 3 * p.overtime_minutes)
        },
{
    let first = clock_minutes(start).unwrap() as int;
    let last = first + shift_length(start, end);
    lemma_split_covers_interval(first, last);
    let regular = regular_after_lunch(regular_between(first, last), overtime_between(first, last));
    let overtime = overtime_after_lunch(
        regular_between(first, last),
        overtime_between(first, last),
    );
    assert(0 <= rate * (2 * regular + 3 * overtime) <= u128::MAX) by (nonlinear_arith)
        requires
            0 <= regular <= 1440,
            0 <= overtime <= 1440,
            0 <= rate <= u64::MAX,
    ;
}

/// The outcome is one of three: a summary, a refusal of the text, or a
/// refusal for want of workable time. The text is refused exactly where one
/// of the two is no clock time.
pub proof fn lemma_outcome_kinds(start: Seq<char>, end: Seq<char>, rate: u64)
    ensures
        pay_outcome(start, end, rate) != Err::<PaySummary, PayError>(
            PayError::ZeroOrNegativeDuration,
        ),
        pay_outcome(start, end, rate) == Err::<PaySummary, PayError>(PayError::InvalidTimeFormat)
            <==> clock_minutes(start).is_none() || clock_minutes(end).is_none(),
{
}

/// A shift that starts and ends on one day, ends by 15:30 and lasts more
/// than 30 minutes is paid as regular time throughout: for its length less
/// the lunch break, with no overtime.
pub proof fn lemma_shift_before_cutoff_is_regular(start: Seq<char>, end: Seq<char>, rate: u64)
    requires
        clock_minutes(start).is_some(),
        clock_minutes(end).is_some(),
        clock_minutes(start).unwrap() < clock_minutes(end).unwrap() <= 930,
        clock_minutes(end).unwrap() - clock_minutes(start).unwrap() > 30,
    ensures
        pay_outcome(start, end, rate) matches Ok(p) && p.overtime_minutes == 0 && p.regular_minutes
            == clock_minutes(end).unwrap() - clock_minutes(start).unwrap() - 30,
{
    let s = clock_minutes(start).unwrap() as int;
    let e = clock_minutes(end).unwrap() as int;
    lemma_stretch_before_cutoff(s, e);
}

/// The same texts and the same rate have the same outcome: nothing but its
/// arguments enters the computation.
pub proof fn lemma_outcome_is_repeatable(
    start: Seq<char>,
    end: Seq<char>,
    rate: u64,
    again_start: Seq<char>,
    again_end: Seq<char>,
    again_rate: u64,
)
    requires
        start == again_start,
        end == again_end,
        rate == again_rate,
    ensures
        pay_outcome(start, end, rate) == pay_outcome(again_start, again_end, again_rate),
{
}

/// For a shift that has a summary, a higher rate leaves the paid minutes as
/// they are and makes the pay strictly higher.
pub proof fn lemma_pay_grows_with_rate(start: Seq<char>, end: Seq<char>, low: u64, high: u64)
    requires
        low < high,
        pay_outcome(start, end, low).is_ok(),
    ensures
        pay_outcome(start, end, high).is_ok(),
        pay_outcome(start, end, high).unwrap().regular_minutes == pay_outcome(
            start,
            end,
            low,
        ).unwrap().regular_minutes,
        pay_outcome(start, end, high).unwrap().overtime_minutes == pay_outcome(
            start,
            end,
            low,
        ).unwrap().overtime_minutes,
        pay_outcome(start, end, high).unwrap().total_pay_120ths > pay_outcome(
            start,
            end,
            low,
        ).unwrap().total_pay_120ths,
{
    lemma_outcome_of_clock_times(start, end, low);
    lemma_outcome_of_clock_times(start, end, high);
    let paid = pay_outcome(start, end, low).unwrap();
    let weight = 2 * paid.regular_minutes + 3 * paid.overtime_minutes;
    assert(low * weight < high * weight) by (nonlinear_arith)
        requires
            0 <= low < high,
            weight > 0,
    ;
}

} // verus!
