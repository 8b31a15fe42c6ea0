//! Tagged unit magnitudes that feed the duration type.

use vstd::prelude::*;
use crate::duration::Duration;

verus! {

/// The unsigned magnitude carried by every unit tag and by both fields of a
/// duration.
pub type TimeInt = u64;

/// Time units with a fixed length in seconds, convertible to a duration
/// without reference to any calendar.
#[derive(Debug, Clone, Copy, PartialEq, Eq, Structural)]
pub enum PreciseTime {
    Picoseconds(TimeInt),
    Nanoseconds(TimeInt),
    Microseconds(TimeInt),
    Milliseconds(TimeInt),
    Seconds(TimeInt),
    Minutes(TimeInt),
    Hours(TimeInt),
    Days(TimeInt),
    Weeks(TimeInt),
}

/// Time units whose length in seconds depends on an anchor date and a
/// calendar. A calendar-aware collaborator must resolve these before they can
/// become a duration; this crate defines no conversion for them.
#[derive(Debug, Clone, Copy, PartialEq, Eq, Structural)]
pub enum RelativeTime {
    Months(TimeInt),
    Quartals(TimeInt),
    Halfs(TimeInt),
    Years(TimeInt),
    Centuries(TimeInt),
    Millenniums(TimeInt),
}

/// Any of the time quantities this crate knows about.
#[derive(Debug, Clone, Copy, PartialEq, Eq, Structural)]
pub enum Unit {
    PreciseTime(PreciseTime),
    RelativeTime(RelativeTime),
    Duration(Duration),
}

} // verus!
