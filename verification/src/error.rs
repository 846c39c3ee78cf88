//! Why a shift has no pay summary.

use vstd::prelude::*;

verus! {

/// The ways in which the pay of a shift cannot be computed.
#[derive(Clone, Copy, Debug, PartialEq, Eq, Structural)]
pub enum PayError {
    /// A time is not written `HH:MM`, or names no time of day.
    InvalidTimeFormat,
    /// The shift does not end after it starts, even when its end is taken
    /// to fall on the next day.
    ZeroOrNegativeDuration,
    /// The lunch break takes up the whole shift.
    NoWorkableTime,
}

} // verus!
