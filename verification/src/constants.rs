//! Fixed conversion factors between the supported time units.
//!
//! Weeks, days, hours and minutes are exact multiples of seconds: no calendar
//! or daylight-saving adjustment is ever applied, so a week is always exactly
//! 604800 seconds. This is a deliberate fixed-length definition.

use vstd::prelude::*;

verus! {

/// Seconds in one minute.
pub const SECS_PER_MINUTE: u64 = 60;

/// Seconds in one hour.
pub const SECS_PER_HOUR: u64 = 3600;

/// Seconds in one fixed-length day.
pub const SECS_PER_DAY: u64 = 86400;

/// Seconds in one fixed-length week.
pub const SECS_PER_WEEK: u64 = 604800;

/// Milliseconds in one second.
pub const MILLIS_PER_SEC: u64 = 1_000;

/// Microseconds in one second.
pub const MICROS_PER_SEC: u64 = 1_000_000;

/// Nanoseconds in one second.
pub const NANOS_PER_SEC: u64 = 1_000_000_000;

/// Picoseconds in one second; the exclusive bound on a normalized
/// sub-second component.
pub const PICOS_PER_SEC: u64 = 1_000_000_000_000;

/// Picoseconds in one millisecond.
pub const PICOS_PER_MILLI: u64 = 1_000_000_000;

/// Picoseconds in one microsecond.
pub const PICOS_PER_MICRO: u64 = 1_000_000;

/// Picoseconds in one nanosecond.
pub const PICOS_PER_NANO: u64 = 1_000;

} // verus!
