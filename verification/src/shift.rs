//! Shifts on the minute axis and their split into regular and overtime time.

use crate::clock::TimeOfDay;
use crate::error::PayError;
use vstd::prelude::*;

verus! {

/// Minutes in one calendar day.
pub const MINUTES_PER_DAY: u32 = 1440;

/// Minute of the day (15:30) from which worked time counts as overtime.
pub const OVERTIME_START: u32 = 930;

/// Minute on which a shift ends that starts at minute `start` of a day and
/// ends at minute `end` of a day: an end that is not after the start falls
/// on the next day.
pub open spec fn rolled_end(start: nat, end: nat) -> nat {
    if end <= start {
        end + MINUTES_PER_DAY as nat
    } else {
        end
    }
}

/// A shift as a stretch of minutes counted from the midnight before its
/// start. It starts within the first day and lasts between one minute and a
/// whole day, so it ends after at most one midnight.
#[derive(Clone, Copy, Debug, PartialEq, Eq, Structural)]
pub struct ShiftInterval {
    start: u32,
    end: u32,
}

impl ShiftInterval {
    #[verifier::type_invariant]
    spec fn ends_after_start(self) -> bool {
        self.start < 1440 && self.start < self.end <= self.start + 1440
    }

    /// Minute on which the shift starts.
    pub closed spec fn spec_start(&self) -> u32 {
        self.start
    }

    /// Minute on which the shift ends; the shift does not include it.
    pub closed spec fn spec_end(&self) -> u32 {
        self.end
    }

    /// Minute on which the shift starts, in `0..1440`.
    #[verifier::when_used_as_spec(spec_start)]
    pub fn start(&self) -> (m: u32)
        ensures
            m == self.spec_start(),
            m < 1440,
    {
        proof {
            use_type_invariant(self);
        }
        self.start
    }

    /// Minute on which the shift ends, after the start and at most a day
    /// after it.
    #[verifier::when_used_as_spec(spec_end)]
    pub fn end(&self) -> (m: u32)
        ensures
            m == self.spec_end(),
            self.spec_start() < m <= self.spec_start() + 1440,
    {
        proof {
            use_type_invariant(self);
        }
        self.end
    }

    /// Length of the shift in minutes, in `1..=1440`.
    pub fn duration(&self) -> (d: u32)
        ensures
            d == self.spec_end() - self.spec_start(),
            0 < d <= 1440,
    {
        proof {
            use_type_invariant(self);
        }
        self.end - self.start
    }

    /// Lays a shift from `start` to `end` on the minute axis.
    ///
    /// An end that is not after the start is taken to fall on the next day,
    /// so a shift whose two times are equal lasts a whole day. A shift that
    /// even then would not end after its start is refused; between two times
    /// of day there is none, and the result is always `Ok`.
    pub fn normalize(start: TimeOfDay, end: TimeOfDay) -> (interval: Result<
        ShiftInterval,
        PayError,
    >)
        ensures
            interval matches Ok(iv) && iv.spec_start() == start@ && iv.spec_end() == rolled_end(
                start@,
                end@,
            ),
    {
        let start_minute: u32 = start.minute_of_day();
        let mut end_minute: u32 = end.minute_of_day();
        if end_minute <= start_minute {
            end_minute = end_minute + MINUTES_PER_DAY;
        }
        if end_minute <= start_minute {
            return Err(PayError::ZeroOrNegativeDuration);
        }
        Ok(ShiftInterval { start: start_minute, end: end_minute })
    }
}

/// Whether the minute that begins `m` minutes after a midnight lies before
/// that day's overtime cutoff.
pub open spec fn is_regular_minute(m: int) -> bool {
    m % (MINUTES_PER_DAY as int) < OVERTIME_START
}

/// Number of regular minutes among the minutes `start, start + 1, .., end - 1`.
pub open spec fn regular_between(start: int, end: int) -> int
    decreases end - start,
{
    if end <= start {
        0
    } else {
        regular_between(start, end - 1) + if is_regular_minute(end - 1) {
            1int
        } else {
            0int
        }
    }
}

/// Number of overtime minutes among the minutes `start, start + 1, .., end - 1`.
pub open spec fn overtime_between(start: int, end: int) -> int
    decreases end - start,
{
    if end <= start {
        0
    } else {
        overtime_between(start, end - 1) + if is_regular_minute(end - 1) {
            0int
        } else {
            1int
        }
    }
}

/// Worked minutes on either side of the overtime cutoff.
#[derive(Clone, Copy, Debug, PartialEq, Eq, Structural)]
pub struct MinuteSplit {
    pub regular: u32,
    pub overtime: u32,
}

/// Every minute of an interval is either regular or overtime.
pub proof fn lemma_split_covers_interval(start: int, end: int)
    requires
        start <= end,
    ensures
        regular_between(start, end) + overtime_between(start, end) == end - start,
        0 <= regular_between(start, end),
        0 <= overtime_between(start, end),
    decreases end - start,
{
    if start < end {
        lemma_split_covers_interval(start, end - 1);
    }
}

/// Counting over `[start, end)` is counting over `[start, mid)` and then
/// over `[mid, end)`.
pub proof fn lemma_split_is_additive(start: int, mid: int, end: int)
    requires
        start <= mid <= end,
    ensures
        regular_between(start, end) == regular_between(start, mid) + regular_between(mid, end),
        overtime_between(start, end) == overtime_between(start, mid) + overtime_between(
            mid,
            end,
        ),
    decreases end - mid,
{
    if mid < end {
        lemma_split_is_additive(start, mid, end - 1);
    }
}

/// Number of regular minutes among the first `t` minutes after a midnight:
/// 930 for each whole day, and of the day begun what lies before its cutoff.
pub open spec fn regular_before(t: int) -> int {
    (t / 1440) * 930 + if t % 1440 < 930 {
        t % 1440
    } else {
        930
    }
}

/// The regular minutes of an interval that starts at or after the first
/// midnight are those before its end less those before its start, however
/// many midnights it spans.
pub proof fn lemma_regular_between_closed_form(start: int, end: int)
    requires
        0 <= start <= end,
    ensures
        regular_between(start, end) == regular_before(end) - regular_before(start),
        overtime_between(start, end) == (end - start) - (regular_before(end) - regular_before(
            start,
        )),
    decreases end - start,
{
    if start < end {
        lemma_regular_between_closed_form(start, end - 1);
        lemma_split_covers_interval(start, end);
        lemma_split_covers_interval(start, end - 1);
    }
}

/// A stretch that stays before the cutoff of one day is regular throughout.
pub proof fn lemma_stretch_before_cutoff(from: int, to: int)
    requires
        0 <= from <= to,
        to - from <= 930 - from % 1440,
    ensures
        regular_between(from, to) == to - from,
        overtime_between(from, to) == 0,
    decreases to - from,
{
    if from < to {
        lemma_stretch_before_cutoff(from, to - 1);
        assert((to - 1) % 1440 == from % 1440 + (to - 1 - from)) by {
            lemma_same_day_offset(from, to - 1 - from);
        }
    }
}

/// A stretch that begins at or after the cutoff and ends by midnight is
/// overtime throughout.
pub proof fn lemma_stretch_after_cutoff(from: int, to: int)
    requires
        0 <= from <= to,
        930 <= from % 1440,
        to - from <= 1440 - from % 1440,
    ensures
        regular_between(from, to) == 0,
        overtime_between(from, to) == to - from,
    decreases to - from,
{
    if from < to {
        lemma_stretch_after_cutoff(from, to - 1);
        assert((to - 1) % 1440 == from % 1440 + (to - 1 - from)) by {
            lemma_same_day_offset(from, to - 1 - from);
        }
    }
}

/// Moving forward without reaching midnight adds to the minute of the day.
proof fn lemma_same_day_offset(from: int, step: int)
    requires
        0 <= from,
        0 <= step,
        from % 1440 + step < 1440,
    ensures
        (from + step) % 1440 == from % 1440 + step,
{
}

/// Splits the minutes of `[start, end)` at each day's overtime cutoff.
///
/// The walk goes from `start` to `end` one stretch at a time: up to the
/// cutoff of the current day while before it, up to the next midnight
/// afterwards. An interval with `end <= start` holds no minute.
pub fn segment_minutes(start: u32, end: u32) -> (split: MinuteSplit)
    ensures
        split.regular == regular_between(start as int, end as int),
        split.overtime == overtime_between(start as int, end as int),
        start <= end ==> split.regular + split.overtime == end - start,
{
    proof {
        if start <= end {
            lemma_split_covers_interval(start as int, end as int);
        }
    }
    let mut regular: u32 = 0;
    let mut overtime: u32 = 0;
    let mut cursor: u32 = start;
    while cursor < end
        invariant
            start <= cursor,
            cursor <= end || cursor == start,
            regular == regular_between(start as int, cursor as int),
            overtime == overtime_between(start as int, cursor as int),
        decreases end - cursor,
    {
        let minute_of_day: u32 = cursor % MINUTES_PER_DAY;
        let left: u32 = end - cursor;
        proof {
            lemma_split_covers_interval(start as int, cursor as int);
        }
        if minute_of_day < OVERTIME_START {
            let to_cutoff: u32 = OVERTIME_START - minute_of_day;
            let step: u32 = if left < to_cutoff { left } else { to_cutoff };
            proof {
                lemma_stretch_before_cutoff(cursor as int, cursor + step);
                lemma_split_is_additive(start as int, cursor as int, cursor + step);
            }
            regular = regular + step;
            cursor = cursor + step;
        } else {
            let to_midnight: u32 = MINUTES_PER_DAY - minute_of_day;
            let step: u32 = if left < to_midnight { left } else { to_midnight };
            proof {
                lemma_stretch_after_cutoff(cursor as int, cursor + step);
                lemma_split_is_additive(start as int, cursor as int, cursor + step);
            }
            overtime = overtime + step;
            cursor = cursor + step;
        }
    }
    MinuteSplit { regular, overtime }
}

} // verus!
