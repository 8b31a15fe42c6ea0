//! A fixed-point time-duration library with picosecond resolution.
//!
//! The central type is [`duration::Duration`], a normalized pair of whole
//! seconds and sub-second picoseconds. It offers lossless construction from
//! nine time units, floor projection back to each unit, a total order, and
//! checked addition, subtraction and scalar multiplication that keep the
//! representation normalized and signal overflow and underflow instead of
//! wrapping.

pub mod constants;
pub mod duration;
pub mod units;

pub use crate::constants::{
    MICROS_PER_SEC, MILLIS_PER_SEC, NANOS_PER_SEC, PICOS_PER_MICRO, PICOS_PER_MILLI,
    PICOS_PER_NANO, PICOS_PER_SEC, SECS_PER_DAY, SECS_PER_HOUR, SECS_PER_MINUTE, SECS_PER_WEEK,
};
pub use crate::duration::{calc_picos_secs, Duration, DurationError};
pub use crate::units::{PreciseTime, RelativeTime, TimeInt, Unit};
