//! Shift pay for an hourly worker.
//!
//! Two clock times bound a shift. The times are read ([`clock`]), the shift
//! is laid on the minute axis and split at each day's overtime cutoff
//! ([`shift`]), and the lunch break is taken out and the rest priced
//! ([`pay`]). Beside that stand the months of the calendar on which shifts
//! are shown ([`calendar`]) and the lines of text in which they are stored
//! ([`records`]).

pub mod calendar;
pub mod clock;
pub mod error;
pub mod pay;
pub mod records;
pub mod shift;
pub mod text;
