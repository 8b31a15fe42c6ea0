//! The duration value type: a normalized pair of whole seconds and
//! sub-second picoseconds, with unit conversion, ordering and checked
//! arithmetic.

use vstd::prelude::*;
use vstd::arithmetic::div_mod::{
    lemma_div_denominator, lemma_div_is_ordered, lemma_fundamental_div_mod,
    lemma_fundamental_div_mod_converse, lemma_mod_pos_bound,
};
use vstd::arithmetic::mul::lemma_mul_upper_bound;
use vstd::std_specs::cmp::PartialOrdSpec;
use core::cmp::Ordering;
use crate::units::PreciseTime;
use crate::constants::{
    MICROS_PER_SEC, MILLIS_PER_SEC, NANOS_PER_SEC, PICOS_PER_MICRO, PICOS_PER_MILLI,
    PICOS_PER_NANO, PICOS_PER_SEC, SECS_PER_DAY, SECS_PER_HOUR, SECS_PER_MINUTE, SECS_PER_WEEK,
};

verus! {

/// A non-negative time duration with picosecond resolution, stored as whole
/// seconds plus a sub-second picosecond component.
///
/// Every value this crate hands out is normalized: `picos` lies strictly
/// below one second's worth of picoseconds ([`Duration::wf`]). Equality and
/// ordering go by the two fields alone, which the normalization makes
/// canonical: no two well-formed values denote the same quantity.
#[derive(Debug, Clone, Copy, PartialEq, Eq, Structural)]
pub struct Duration {
    /// Whole seconds.
    pub secs: u64,
    /// Sub-second picoseconds; kept below [`PICOS_PER_SEC`].
    pub picos: u64,
}

/// The failure outcomes of the fallible duration operations.
#[derive(Debug, Clone, Copy, PartialEq, Eq, Structural)]
pub enum DurationError {
    /// The seconds field of a sum or scaled product would exceed `u64::MAX`.
    Overflow,
    /// A subtraction's minuend is smaller than its subtrahend.
    Underflow,
    /// A directly supplied sub-second component is not below one second.
    InvalidComponent,
}

impl Duration {
    /// The normalization invariant: the sub-second component is below one
    /// second's worth of picoseconds.
    pub open spec fn wf(self) -> bool {
        self.picos < PICOS_PER_SEC
    }

    /// The mathematical model of a duration: its whole extent counted in
    /// picoseconds.
    pub open spec fn total_picos(self) -> int {
        self.secs * PICOS_PER_SEC + self.picos
    }

    /// The largest picosecond count a normalized duration can hold.
    pub open spec fn max_total() -> int {
        u64::MAX * PICOS_PER_SEC + (PICOS_PER_SEC - 1)
    }

    /// The unique normalized duration with the given picosecond count.
    pub open spec fn of_total(t: int) -> Duration {
        Duration {
            secs: (t / (PICOS_PER_SEC as int)) as u64,
            picos: (t % (PICOS_PER_SEC as int)) as u64,
        }
    }

    /// What checked addition returns: the normalized sum, or
    /// [`DurationError::Overflow`] where the sum's seconds would exceed
    /// `u64::MAX`.
    pub open spec fn spec_checked_add(a: Duration, b: Duration) -> Result<Duration, DurationError> {
        if a.total_picos() + b.total_picos() <= Duration::max_total() {
            Ok(Duration::of_total(a.total_picos() + b.total_picos()))
        } else {
            Err(DurationError::Overflow)
        }
    }

    /// What checked subtraction returns: the normalized difference, or
    /// [`DurationError::Underflow`] where the minuend is smaller than the
    /// subtrahend.
    pub open spec fn spec_checked_sub(a: Duration, b: Duration) -> Result<Duration, DurationError> {
        if b.total_picos() <= a.total_picos() {
            Ok(Duration::of_total(a.total_picos() - b.total_picos()))
        } else {
            Err(DurationError::Underflow)
        }
    }

    /// What checked scalar multiplication returns: the normalized product, or
    /// [`DurationError::Overflow`] where the product's seconds would exceed
    /// `u64::MAX`.
    pub open spec fn spec_checked_mul(a: Duration, k: u64) -> Result<Duration, DurationError> {
        if a.total_picos() * k <= Duration::max_total() {
            Ok(Duration::of_total(a.total_picos() * k))
        } else {
            Err(DurationError::Overflow)
        }
    }

    /// Builds a duration directly from its two fields. A sub-second component
    /// of a whole second or more breaks the normalization invariant and is
    /// rejected as [`DurationError::InvalidComponent`], never silently
    /// normalized: a caller supplying the pair directly is presumed to hold a
    /// canonical pair already.
    pub fn new(secs: u64, picos: u64) -> (r: Result<Duration, DurationError>)
        ensures
            picos < PICOS_PER_SEC ==> r == Ok::<Duration, DurationError>(
                Duration { secs, picos },
            ),
            picos >= PICOS_PER_SEC ==> r == Err::<Duration, DurationError>(
                DurationError::InvalidComponent,
            ),
            r matches Ok(d) ==> d.wf(),
    {
        if picos < PICOS_PER_SEC {
            Ok(Duration { secs, picos })
        } else {
            Err(DurationError::InvalidComponent)
        }
    }

    /// Creates a duration of `n` fixed-length weeks, each exactly
    /// [`SECS_PER_WEEK`] seconds, with no daylight-saving adjustment.
    pub fn from_weeks(n: u64) -> (r: Duration)
        requires
            n * SECS_PER_WEEK <= u64::MAX,
        ensures
            r.wf(),
            r.total_picos() == n * SECS_PER_WEEK * PICOS_PER_SEC,
    {
        Duration { secs: n * SECS_PER_WEEK, picos: 0 }
    }

    /// Creates a duration of `n` fixed-length days, each exactly
    /// [`SECS_PER_DAY`] seconds, with no daylight-saving adjustment.
    pub fn from_days(n: u64) -> (r: Duration)
        requires
            n * SECS_PER_DAY <= u64::MAX,
        ensures
            r.wf(),
            r.total_picos() == n * SECS_PER_DAY * PICOS_PER_SEC,
    {
        Duration { secs: n * SECS_PER_DAY, picos: 0 }
    }

    /// Creates a duration of `n` hours.
    pub fn from_hours(n: u64) -> (r: Duration)
        requires
            n * SECS_PER_HOUR <= u64::MAX,
        ensures
            r.wf(),
            r.total_picos() == n * SECS_PER_HOUR * PICOS_PER_SEC,
    {
        Duration { secs: n * SECS_PER_HOUR, picos: 0 }
    }

    /// Creates a duration of `n` minutes.
    pub fn from_minutes(n: u64) -> (r: Duration)
        requires
            n * SECS_PER_MINUTE <= u64::MAX,
        ensures
            r.wf(),
            r.total_picos() == n * SECS_PER_MINUTE * PICOS_PER_SEC,
    {
        Duration { secs: n * SECS_PER_MINUTE, picos: 0 }
    }

    /// Creates a duration of `n` seconds.
    pub fn from_secs(n: u64) -> (r: Duration)
        ensures
            r.wf(),
            r.total_picos() == n * PICOS_PER_SEC,
    {
        Duration { secs: n, picos: 0 }
    }

    /// Creates a duration of `n` milliseconds.
    pub fn from_millis(n: u64) -> (r: Duration)
        ensures
            r.wf(),
            r.total_picos() == n * PICOS_PER_MILLI,
    {
        let r = Duration { secs: n / MILLIS_PER_SEC, picos: (n % MILLIS_PER_SEC) * PICOS_PER_MILLI };
        proof {
            lemma_fundamental_div_mod(n as int, MILLIS_PER_SEC as int);
        }
        r
    }

    /// Creates a duration of `n` microseconds.
    pub fn from_micros(n: u64) -> (r: Duration)
        ensures
            r.wf(),
            r.total_picos() == n * PICOS_PER_MICRO,
    {
        let r = Duration { secs: n / MICROS_PER_SEC, picos: (n % MICROS_PER_SEC) * PICOS_PER_MICRO };
        proof {
            lemma_fundamental_div_mod(n as int, MICROS_PER_SEC as int);
        }
        r
    }

    /// Creates a duration of `n` nanoseconds.
    pub fn from_nanos(n: u64) -> (r: Duration)
        ensures
            r.wf(),
            r.total_picos() == n * PICOS_PER_NANO,
    {
        let r = Duration { secs: n / NANOS_PER_SEC, picos: (n % NANOS_PER_SEC) * PICOS_PER_NANO };
        proof {
            lemma_fundamental_div_mod(n as int, NANOS_PER_SEC as int);
        }
        r
    }

    /// Creates a duration of `n` picoseconds.
    pub fn from_picos(n: u64) -> (r: Duration)
        ensures
            r.wf(),
            r.total_picos() == n,
            r == Duration::of_total(n as int),
    {
        let r = Duration { secs: n / PICOS_PER_SEC, picos: n % PICOS_PER_SEC };
        proof {
            lemma_fundamental_div_mod(n as int, PICOS_PER_SEC as int);
        }
        r
    }

    /// The whole weeks this duration spans; the remainder below a week is
    /// dropped (floor division, fixed-length weeks).
    pub fn as_weeks(&self) -> (r: u64)
        requires
            self.wf(),
        ensures
            r == self.secs / SECS_PER_WEEK,
            r == self.total_picos() / (SECS_PER_WEEK * PICOS_PER_SEC),
    {
        proof {
            lemma_coarse_projection(*self, SECS_PER_WEEK);
        }
        self.secs / SECS_PER_WEEK
    }

    /// The whole fixed-length days this duration spans; the remainder below a
    /// day is dropped.
    pub fn as_days(&self) -> (r: u64)
        requires
            self.wf(),
        ensures
            r == self.secs / SECS_PER_DAY,
            r == self.total_picos() / (SECS_PER_DAY * PICOS_PER_SEC),
    {
        proof {
            lemma_coarse_projection(*self, SECS_PER_DAY);
        }
        self.secs / SECS_PER_DAY
    }

    /// The whole hours this duration spans; the remainder below an hour is
    /// dropped.
    pub fn as_hours(&self) -> (r: u64)
        requires
            self.wf(),
        ensures
            r == self.secs / SECS_PER_HOUR,
            r == self.total_picos() / (SECS_PER_HOUR * PICOS_PER_SEC),
    {
        proof {
            lemma_coarse_projection(*self, SECS_PER_HOUR);
        }
        self.secs / SECS_PER_HOUR
    }

    /// The whole minutes this duration spans; the remainder below a minute is
    /// dropped.
    pub fn as_minutes(&self) -> (r: u64)
        requires
            self.wf(),
        ensures
            r == self.secs / SECS_PER_MINUTE,
            r == self.total_picos() / (SECS_PER_MINUTE * PICOS_PER_SEC),
    {
        proof {
            lemma_coarse_projection(*self, SECS_PER_MINUTE);
        }
        self.secs / SECS_PER_MINUTE
    }

    /// The whole seconds this duration spans; the sub-second component is
    /// dropped.
    pub fn as_secs(&self) -> (r: u64)
        requires
            self.wf(),
        ensures
            r == self.secs,
            r == self.total_picos() / (PICOS_PER_SEC as int),
    {
        proof {
            lemma_fundamental_div_mod_converse(
                self.total_picos(),
                PICOS_PER_SEC as int,
                self.secs as int,
                self.picos as int,
            );
        }
        self.secs
    }

    /// The whole milliseconds this duration spans; the remainder below a
    /// millisecond is dropped.
    pub fn as_millis(&self) -> (r: u128)
        requires
            self.wf(),
        ensures
            r == self.total_picos() / (PICOS_PER_MILLI as int),
    {
        proof {
            lemma_fine_projection(*self, PICOS_PER_MILLI, MILLIS_PER_SEC);
        }
        (self.secs as u128) * (MILLIS_PER_SEC as u128)
            + ((self.picos / PICOS_PER_MILLI) as u128)
    }

    /// The whole microseconds this duration spans; the remainder below a
    /// microsecond is dropped.
    pub fn as_micros(&self) -> (r: u128)
        requires
            self.wf(),
        ensures
            r == self.total_picos() / (PICOS_PER_MICRO as int),
    {
        proof {
            lemma_fine_projection(*self, PICOS_PER_MICRO, MICROS_PER_SEC);
        }
        (self.secs as u128) * (MICROS_PER_SEC as u128)
            + ((self.picos / PICOS_PER_MICRO) as u128)
    }

    /// The whole nanoseconds this duration spans; the remainder below a
    /// nanosecond is dropped.
    pub fn as_nanos(&self) -> (r: u128)
        requires
            self.wf(),
        ensures
            r == self.total_picos() / (PICOS_PER_NANO as int),
    {
        proof {
            lemma_fine_projection(*self, PICOS_PER_NANO, NANOS_PER_SEC);
        }
        (self.secs as u128) * (NANOS_PER_SEC as u128)
            + ((self.picos / PICOS_PER_NANO) as u128)
    }

    /// The whole extent of this duration in picoseconds; exact and lossless.
    pub fn as_picos(&self) -> (r: u128)
        requires
            self.wf(),
        ensures
            r == self.total_picos(),
    {
        proof {
            assert(self.secs * PICOS_PER_SEC <= u64::MAX * PICOS_PER_SEC) by (nonlinear_arith)
                requires self.secs <= u64::MAX;
        }
        (self.secs as u128) * (PICOS_PER_SEC as u128) + (self.picos as u128)
    }

    /// Adds two durations. The sub-second components are summed and
    /// renormalized through [`calc_picos_secs`]; a seconds count beyond
    /// `u64::MAX` is signalled as [`DurationError::Overflow`], never wrapped.
    pub fn checked_add(self, other: Duration) -> (r: Result<Duration, DurationError>)
        requires
            self.wf(),
            other.wf(),
        ensures
            r == Duration::spec_checked_add(self, other),
            r matches Ok(d) ==> d.wf() && d.total_picos() == self.total_picos()
                + other.total_picos(),
            r is Ok <==> self.total_picos() + other.total_picos() <= Duration::max_total(),
            r is Err ==> r == Err::<Duration, DurationError>(DurationError::Overflow),
    {
        let sum_picos: u64 = self.picos + other.picos;
        let (rem, carry_wide) = calc_picos_secs(sum_picos as u128);
        let carry: u64 = carry_wide as u64;
        if other.secs <= u64::MAX - self.secs {
            let coarse: u64 = self.secs + other.secs;
            if carry <= u64::MAX - coarse {
                let d = Duration { secs: coarse + carry, picos: rem };
                proof {
                    lemma_canonical(d);
                }
                Ok(d)
            } else {
                Err(DurationError::Overflow)
            }
        } else {
            Err(DurationError::Overflow)
        }
    }

    /// Subtracts `other` from `self`, borrowing a whole second where the
    /// sub-second component alone is too small. A minuend smaller than the
    /// subtrahend is signalled as [`DurationError::Underflow`], never wrapped.
    pub fn checked_sub(self, other: Duration) -> (r: Result<Duration, DurationError>)
        requires
            self.wf(),
            other.wf(),
        ensures
            r == Duration::spec_checked_sub(self, other),
            r matches Ok(d) ==> d.wf() && d.total_picos() == self.total_picos()
                - other.total_picos(),
            r is Ok <==> other.total_picos() <= self.total_picos(),
            r is Err ==> r == Err::<Duration, DurationError>(DurationError::Underflow),
    {
        if self.secs > other.secs || (self.secs == other.secs && self.picos >= other.picos) {
            let d = if self.picos >= other.picos {
                Duration { secs: self.secs - other.secs, picos: self.picos - other.picos }
            } else {
                Duration {
                    secs: self.secs - other.secs - 1,
                    picos: self.picos + (PICOS_PER_SEC - other.picos),
                }
            };
            proof {
                lemma_canonical(d);
            }
            Ok(d)
        } else {
            Err(DurationError::Underflow)
        }
    }

    /// Scales a duration by a nonnegative integer. The scaled sub-second
    /// component is renormalized through [`calc_picos_secs`], carrying any
    /// number of whole seconds; a seconds count beyond `u64::MAX` is
    /// signalled as [`DurationError::Overflow`], never wrapped.
    pub fn checked_mul(self, k: u64) -> (r: Result<Duration, DurationError>)
        requires
            self.wf(),
        ensures
            r == Duration::spec_checked_mul(self, k),
            r matches Ok(d) ==> d.wf() && d.total_picos() == self.total_picos() * k,
            r is Ok <==> self.total_picos() * k <= Duration::max_total(),
            r is Err ==> r == Err::<Duration, DurationError>(DurationError::Overflow),
    {
        proof {
            lemma_mul_upper_bound(
                self.picos as int,
                PICOS_PER_SEC - 1,
                k as int,
                u64::MAX as int,
            );
            lemma_mul_upper_bound(self.secs as int, u64::MAX as int, k as int, u64::MAX as int);
            assert((self.secs * PICOS_PER_SEC + self.picos) * k == (self.secs * k)
                * PICOS_PER_SEC + self.picos * k) by (nonlinear_arith);
        }
        let raw: u128 = (self.picos as u128) * (k as u128);
        let (rem, carry) = calc_picos_secs(raw);
        let scaled: u128 = (self.secs as u128) * (k as u128);
        let secs_wide: u128 = scaled + carry;
        if secs_wide <= (u64::MAX as u128) {
            let d = Duration { secs: secs_wide as u64, picos: rem };
            proof {
                lemma_canonical(d);
            }
            Ok(d)
        } else {
            Err(DurationError::Overflow)
        }
    }

    /// Converts a precise unit magnitude to a duration by dispatching on its
    /// tag; every unit maps through its own constructor, so mixed-unit
    /// arithmetic has a single conversion path.
    pub fn from_precise(t: PreciseTime) -> (r: Duration)
        requires
            precise_fits(t),
        ensures
            r.wf(),
            r.total_picos() == precise_picos(t),
    {
        match t {
            PreciseTime::Picoseconds(n) => Duration::from_picos(n),
            PreciseTime::Nanoseconds(n) => Duration::from_nanos(n),
            PreciseTime::Microseconds(n) => Duration::from_micros(n),
            PreciseTime::Milliseconds(n) => Duration::from_millis(n),
            PreciseTime::Seconds(n) => Duration::from_secs(n),
            PreciseTime::Minutes(n) => Duration::from_minutes(n),
            PreciseTime::Hours(n) => Duration::from_hours(n),
            PreciseTime::Days(n) => Duration::from_days(n),
            PreciseTime::Weeks(n) => Duration::from_weeks(n),
        }
    }

    /// Adds a precise unit magnitude to this duration: the right-hand side is
    /// converted as in [`Duration::from_precise`], then added as a duration.
    pub fn checked_add_precise(self, t: PreciseTime) -> (r: Result<Duration, DurationError>)
        requires
            self.wf(),
            precise_fits(t),
        ensures
            r matches Ok(d) ==> d.wf() && d.total_picos() == self.total_picos()
                + precise_picos(t),
            r is Ok <==> self.total_picos() + precise_picos(t) <= Duration::max_total(),
            r is Err ==> r == Err::<Duration, DurationError>(DurationError::Overflow),
    {
        self.checked_add(Duration::from_precise(t))
    }

    /// Subtracts a precise unit magnitude from this duration: the right-hand
    /// side is converted as in [`Duration::from_precise`], then subtracted as
    /// a duration.
    pub fn checked_sub_precise(self, t: PreciseTime) -> (r: Result<Duration, DurationError>)
        requires
            self.wf(),
            precise_fits(t),
        ensures
            r matches Ok(d) ==> d.wf() && d.total_picos() == self.total_picos()
                - precise_picos(t),
            r is Ok <==> precise_picos(t) <= self.total_picos(),
            r is Err ==> r == Err::<Duration, DurationError>(DurationError::Underflow),
    {
        self.checked_sub(Duration::from_precise(t))
    }

    /// The duration a clock pair denotes: its whole seconds, with the
    /// nanosecond field scaled up exactly to picoseconds.
    pub open spec fn clock_import(secs: u64, subsec_nanos: u32) -> Duration {
        Duration { secs, picos: (subsec_nanos * PICOS_PER_NANO) as u64 }
    }

    /// Imports a host clock-duration pair of whole seconds and sub-second
    /// nanoseconds. The upscale from nanoseconds to picoseconds is exact and
    /// lossless.
    pub fn from_clock_parts(secs: u64, subsec_nanos: u32) -> (r: Duration)
        requires
            subsec_nanos < NANOS_PER_SEC,
        ensures
            r.wf(),
            r == Duration::clock_import(secs, subsec_nanos),
            r.total_picos() == secs * PICOS_PER_SEC + subsec_nanos * PICOS_PER_NANO,
    {
        Duration { secs, picos: (subsec_nanos as u64) * PICOS_PER_NANO }
    }

    /// Exports this duration as a clock-duration pair of whole seconds and
    /// sub-second nanoseconds. The sub-nanosecond remainder is dropped
    /// (floor to nanosecond resolution).
    pub fn to_clock_parts(&self) -> (r: (u64, u32))
        requires
            self.wf(),
        ensures
            r.0 == self.secs,
            r.1 == self.picos as int / (PICOS_PER_NANO as int),
            r.1 < NANOS_PER_SEC,
    {
        proof {
            lemma_div_is_ordered(self.picos as int, PICOS_PER_SEC - 1, PICOS_PER_NANO as int);
        }
        (self.secs, (self.picos / PICOS_PER_NANO) as u32)
    }
}

impl PartialOrd for Duration {
    /// The total order of durations: whole seconds first, then, on equal
    /// seconds, the sub-second picoseconds.
    fn partial_cmp(&self, other: &Self) -> (r: Option<Ordering>) {
        if self.secs < other.secs {
            Some(Ordering::Less)
        } else if self.secs > other.secs {
            Some(Ordering::Greater)
        } else if self.picos < other.picos {
            Some(Ordering::Less)
        } else if self.picos > other.picos {
            Some(Ordering::Greater)
        } else {
            Some(Ordering::Equal)
        }
    }
}

impl vstd::std_specs::cmp::PartialOrdSpecImpl for Duration {
    open spec fn obeys_partial_cmp_spec() -> bool {
        true
    }

    open spec fn partial_cmp_spec(&self, other: &Self) -> Option<Ordering> {
        if self.secs < other.secs {
            Some(Ordering::Less)
        } else if self.secs > other.secs {
            Some(Ordering::Greater)
        } else if self.picos < other.picos {
            Some(Ordering::Less)
        } else if self.picos > other.picos {
            Some(Ordering::Greater)
        } else {
            Some(Ordering::Equal)
        }
    }
}

/// The picosecond count a precise unit magnitude denotes.
pub open spec fn precise_picos(t: PreciseTime) -> int {
    match t {
        PreciseTime::Picoseconds(n) => n as int,
        PreciseTime::Nanoseconds(n) => n * PICOS_PER_NANO,
        PreciseTime::Microseconds(n) => n * PICOS_PER_MICRO,
        PreciseTime::Milliseconds(n) => n * PICOS_PER_MILLI,
        PreciseTime::Seconds(n) => n * PICOS_PER_SEC,
        PreciseTime::Minutes(n) => n * SECS_PER_MINUTE * PICOS_PER_SEC,
        PreciseTime::Hours(n) => n * SECS_PER_HOUR * PICOS_PER_SEC,
        PreciseTime::Days(n) => n * SECS_PER_DAY * PICOS_PER_SEC,
        PreciseTime::Weeks(n) => n * SECS_PER_WEEK * PICOS_PER_SEC,
    }
}

/// Whether a precise unit magnitude lies within the representable range.
/// Every fine magnitude (seconds and below) fits; a coarse one fits as long
/// as its whole-second count does not exceed `u64::MAX`.
pub open spec fn precise_fits(t: PreciseTime) -> bool {
    precise_picos(t) <= Duration::max_total()
}

/// Reduces a raw sub-second picosecond candidate, which an addition or a
/// scaled multiplication may have pushed to one second or beyond, back to a
/// normalized remainder plus a carry of whole seconds.
pub fn calc_picos_secs(picos: u128) -> (r: (u64, u128))
    ensures
        r.0 < PICOS_PER_SEC,
        r.0 == picos as int % (PICOS_PER_SEC as int),
        r.1 == picos as int / (PICOS_PER_SEC as int),
        picos == r.1 * PICOS_PER_SEC + r.0,
{
    let rem: u128 = picos % (PICOS_PER_SEC as u128);
    let secs: u128 = picos / (PICOS_PER_SEC as u128);
    proof {
        lemma_fundamental_div_mod(picos as int, PICOS_PER_SEC as int);
    }
    (rem as u64, secs)
}

/// A picosecond count in the representable range splits into a unique
/// normalized pair.
proof fn lemma_of_total(t: int)
    requires
        0 <= t <= Duration::max_total(),
    ensures
        Duration::of_total(t).wf(),
        Duration::of_total(t).total_picos() == t,
        Duration::of_total(t).secs == t / (PICOS_PER_SEC as int),
        Duration::of_total(t).picos == t % (PICOS_PER_SEC as int),
{
    lemma_fundamental_div_mod(t, PICOS_PER_SEC as int);
    lemma_mod_pos_bound(t, PICOS_PER_SEC as int);
}

/// Every normalized duration is the canonical pair of its own total: the
/// representation of a quantity is unique.
proof fn lemma_canonical(d: Duration)
    requires
        d.wf(),
    ensures
        d == Duration::of_total(d.total_picos()),
{
    lemma_fundamental_div_mod_converse(
        d.total_picos(),
        PICOS_PER_SEC as int,
        d.secs as int,
        d.picos as int,
    );
}

/// Two normalized durations spanning the same number of picoseconds are the
/// same value: the normalization invariant makes the representation
/// canonical.
pub proof fn lemma_canonical_unique(a: Duration, b: Duration)
    requires
        a.wf(),
        b.wf(),
        a.total_picos() == b.total_picos(),
    ensures
        a == b,
{
    lemma_canonical(a);
    lemma_canonical(b);
}

/// Round trip through picoseconds is exact: the duration built from `n`
/// picoseconds spans exactly `n` picoseconds, so projecting it back to
/// picoseconds returns `n`. Picoseconds is the one unit whose mapping is
/// lossless in both directions.
pub proof fn lemma_picos_round_trip(n: u64)
    ensures
        Duration::of_total(n as int).wf(),
        Duration::of_total(n as int).total_picos() == n,
{
    lemma_of_total(n as int);
}

/// Addition of durations is commutative: both operand orders give the same
/// outcome, overflow signalling included.
pub proof fn lemma_add_commutes(a: Duration, b: Duration)
    ensures
        Duration::spec_checked_add(a, b) == Duration::spec_checked_add(b, a),
{
}

/// Addition of durations is associative wherever no overflow occurs: with
/// the three totals within range, every intermediate sum succeeds and both
/// groupings agree.
pub proof fn lemma_add_associates(a: Duration, b: Duration, c: Duration)
    requires
        a.total_picos() + b.total_picos() + c.total_picos() <= Duration::max_total(),
    ensures
        Duration::spec_checked_add(a, b) is Ok,
        Duration::spec_checked_add(b, c) is Ok,
        Duration::spec_checked_add(Duration::spec_checked_add(a, b)->Ok_0, c)
            == Duration::spec_checked_add(a, Duration::spec_checked_add(b, c)->Ok_0),
{
    lemma_of_total(a.total_picos() + b.total_picos());
    lemma_of_total(b.total_picos() + c.total_picos());
}

/// For normalized durations the field-wise comparison behind `partial_cmp`
/// agrees with comparing whole picosecond totals: the order is total and
/// consistent with the arithmetic model.
pub proof fn lemma_order_agrees_with_total(a: Duration, b: Duration)
    requires
        a.wf(),
        b.wf(),
    ensures
        a.partial_cmp_spec(&b) == Some(Ordering::Less) <==> a.total_picos()
            < b.total_picos(),
        a.partial_cmp_spec(&b) == Some(Ordering::Equal) <==> a.total_picos()
            == b.total_picos(),
        a.partial_cmp_spec(&b) == Some(Ordering::Greater) <==> a.total_picos()
            > b.total_picos(),
{
}

/// Adding the same duration to both sides of a strict inequality preserves
/// it: where `a` is shorter than `b` and `b + c` does not overflow, both
/// sums succeed and `a + c` is shorter than `b + c`.
pub proof fn lemma_add_preserves_order(a: Duration, b: Duration, c: Duration)
    requires
        a.wf(),
        b.wf(),
        c.wf(),
        a.partial_cmp_spec(&b) == Some(Ordering::Less),
        b.total_picos() + c.total_picos() <= Duration::max_total(),
    ensures
        Duration::spec_checked_add(a, c) is Ok,
        Duration::spec_checked_add(b, c) is Ok,
        (Duration::spec_checked_add(a, c)->Ok_0).partial_cmp_spec(
            &(Duration::spec_checked_add(b, c)->Ok_0),
        ) == Some(Ordering::Less),
{
    lemma_order_agrees_with_total(a, b);
    lemma_of_total(a.total_picos() + c.total_picos());
    lemma_of_total(b.total_picos() + c.total_picos());
    lemma_order_agrees_with_total(
        Duration::of_total(a.total_picos() + c.total_picos()),
        Duration::of_total(b.total_picos() + c.total_picos()),
    );
}

/// Importing a clock pair and exporting it again returns the nanosecond
/// field unchanged: a single crossing of the nanosecond boundary in each
/// direction loses nothing.
pub proof fn lemma_clock_round_trip(secs: u64, subsec_nanos: u32)
    requires
        subsec_nanos < NANOS_PER_SEC,
    ensures
        Duration::clock_import(secs, subsec_nanos).wf(),
        Duration::clock_import(secs, subsec_nanos).secs == secs,
        Duration::clock_import(secs, subsec_nanos).picos as int / (PICOS_PER_NANO as int)
            == subsec_nanos,
{
    lemma_fundamental_div_mod_converse(
        subsec_nanos * PICOS_PER_NANO,
        PICOS_PER_NANO as int,
        subsec_nanos as int,
        0,
    );
}

/// A normalized duration's whole-second count divided by `f` seconds per
/// coarse unit equals its picosecond total divided by the picoseconds per
/// coarse unit.
proof fn lemma_coarse_projection(d: Duration, f: u64)
    requires
        d.wf(),
        0 < f,
    ensures
        d.secs as int / (f as int) == d.total_picos() / (f * PICOS_PER_SEC),
{
    lemma_fundamental_div_mod_converse(
        d.total_picos(),
        PICOS_PER_SEC as int,
        d.secs as int,
        d.picos as int,
    );
    lemma_div_denominator(d.total_picos(), PICOS_PER_SEC as int, f as int);
    assert((PICOS_PER_SEC as int) * (f as int) == f * PICOS_PER_SEC) by (nonlinear_arith);
}

/// Splitting a normalized duration at a fine unit of `scale` picoseconds,
/// with `per_sec` such units in a second, projects its picosecond total with
/// floor division.
proof fn lemma_fine_projection(d: Duration, scale: u64, per_sec: u64)
    requires
        d.wf(),
        0 < scale,
        scale * per_sec == PICOS_PER_SEC,
    ensures
        d.secs * per_sec + d.picos as int / (scale as int) == d.total_picos() / (scale as int),
        d.secs * per_sec <= u64::MAX * per_sec,
{
    let q = d.picos as int / (scale as int);
    let r = d.picos as int % (scale as int);
    lemma_fundamental_div_mod(d.picos as int, scale as int);
    lemma_mod_pos_bound(d.picos as int, scale as int);
    assert(d.secs * PICOS_PER_SEC + (scale as int) * q == (d.secs * per_sec + q) * (scale as int))
        by (nonlinear_arith)
        requires scale * per_sec == PICOS_PER_SEC;
    lemma_fundamental_div_mod_converse(
        d.total_picos(),
        scale as int,
        d.secs * per_sec + q,
        r,
    );
    assert(d.secs * per_sec <= u64::MAX * per_sec) by (nonlinear_arith)
        requires d.secs <= u64::MAX;
}

} // verus!
