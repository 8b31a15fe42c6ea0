use picodur::{Duration, DurationError, PreciseTime, PICOS_PER_SEC, SECS_PER_WEEK};

const PS: u64 = PICOS_PER_SEC;

#[test]
fn invariant_after_construction() {
    let samples = [
        Duration::from_picos(u64::MAX),
        Duration::from_nanos(u64::MAX),
        Duration::from_micros(u64::MAX),
        Duration::from_millis(u64::MAX),
        Duration::from_secs(u64::MAX),
        Duration::from_minutes(1_000_000),
        Duration::from_hours(1_000_000),
        Duration::from_days(1_000_000),
        Duration::from_weeks(1_000_000),
    ];
    for d in samples.iter() {
        assert!(d.picos < PS);
    }
}

#[test]
fn invariant_after_arithmetic() {
    let a = Duration::from_picos(PS - 1);
    let b = Duration::from_picos(PS - 1);
    let sum = a.checked_add(b).unwrap();
    assert!(sum.picos < PS);
    let diff = sum.checked_sub(Duration::from_nanos(999_999_999)).unwrap();
    assert!(diff.picos < PS);
    let prod = a.checked_mul(12_345).unwrap();
    assert!(prod.picos < PS);
}

#[test]
fn picos_round_trip_exact() {
    for &n in &[0u64, 1, 999, PS - 1, PS, PS + 1, 123_456_789_012_345, u64::MAX] {
        assert_eq!(Duration::from_picos(n).as_picos(), n as u128);
    }
}

#[test]
fn unit_equivalence() {
    assert_eq!(Duration::from_hours(1), Duration::from_minutes(60));
    assert_eq!(Duration::from_minutes(60), Duration::from_secs(3600));
    assert_eq!(Duration::from_hours(1), Duration::from_secs(3600));
}

#[test]
fn carry_correctness() {
    let a = Duration::from_picos(999_999_999_999);
    let b = Duration::from_picos(2);
    let sum = a.checked_add(b).unwrap();
    assert_eq!(sum.secs, 1);
    assert_eq!(sum.picos, 1);
}

#[test]
fn floor_projection() {
    let d = Duration::from_millis(1500);
    assert_eq!(d.as_secs(), 1);
    assert_eq!(d.as_millis(), 1500);
}

#[test]
fn addition_commutes() {
    let a = Duration::from_millis(1_234_567);
    let b = Duration::from_nanos(987_654_321_123);
    assert_eq!(a.checked_add(b), b.checked_add(a));
}

#[test]
fn addition_associates() {
    let a = Duration::from_picos(PS - 3);
    let b = Duration::from_picos(PS - 7);
    let c = Duration::from_micros(42);
    let left = a.checked_add(b).unwrap().checked_add(c).unwrap();
    let right = a.checked_add(b.checked_add(c).unwrap()).unwrap();
    assert_eq!(left, right);
}

#[test]
fn addition_preserves_order() {
    let a = Duration::from_millis(999);
    let b = Duration::from_secs(1);
    let c = Duration::from_picos(PS - 1);
    assert!(a < b);
    let ac = a.checked_add(c).unwrap();
    let bc = b.checked_add(c).unwrap();
    assert!(ac < bc);
}

#[test]
fn underflow_is_signalled() {
    let r = Duration::from_secs(1).checked_sub(Duration::from_secs(2));
    assert_eq!(r, Err(DurationError::Underflow));
}

#[test]
fn clock_round_trip() {
    for &(s, n) in &[(0u64, 0u32), (5, 123_456_789), (u64::MAX, 999_999_999)] {
        let d = Duration::from_clock_parts(s, n);
        assert_eq!(d.to_clock_parts(), (s, n));
    }
}

#[test]
fn clock_export_floors_sub_nanosecond() {
    let d = Duration::from_picos(1_999);
    assert_eq!(d.to_clock_parts(), (0, 1));
}

#[test]
fn new_accepts_canonical_pair() {
    let d = Duration::new(7, PS - 1).unwrap();
    assert_eq!(d.secs, 7);
    assert_eq!(d.picos, PS - 1);
}

#[test]
fn new_rejects_out_of_range_component() {
    assert_eq!(Duration::new(0, PS), Err(DurationError::InvalidComponent));
    assert_eq!(Duration::new(3, u64::MAX), Err(DurationError::InvalidComponent));
}

#[test]
fn addition_overflow_is_signalled() {
    let r = Duration::from_secs(u64::MAX).checked_add(Duration::from_secs(1));
    assert_eq!(r, Err(DurationError::Overflow));
    let carry = Duration::from_secs(u64::MAX)
        .checked_add(Duration::from_picos(2 * PS - 1));
    assert_eq!(carry, Err(DurationError::Overflow));
}

#[test]
fn multiplication_overflow_is_signalled() {
    let r = Duration::from_secs(2).checked_mul(u64::MAX);
    assert_eq!(r, Err(DurationError::Overflow));
}

#[test]
fn multiplication_scales_and_carries() {
    let d = Duration::from_millis(1500);
    assert_eq!(d.checked_mul(4), Ok(Duration::from_secs(6)));
    let half = Duration::from_picos(600_000_000_000);
    let five = half.checked_mul(5).unwrap();
    assert_eq!(five.secs, 3);
    assert_eq!(five.picos, 0);
    assert_eq!(d.checked_mul(0), Ok(Duration::from_secs(0)));
}

#[test]
fn subtraction_borrows_a_second() {
    let a = Duration::from_secs(2);
    let b = Duration::from_picos(1);
    let d = a.checked_sub(b).unwrap();
    assert_eq!(d.secs, 1);
    assert_eq!(d.picos, PS - 1);
}

#[test]
fn coarse_constructors_exact() {
    assert_eq!(Duration::from_weeks(1).as_secs(), 604_800);
    assert_eq!(Duration::from_days(2).as_secs(), 172_800);
    assert_eq!(Duration::from_hours(3).as_secs(), 10_800);
    assert_eq!(Duration::from_minutes(4).as_secs(), 240);
    assert_eq!(Duration::from_secs(5).as_secs(), 5);
    assert_eq!(SECS_PER_WEEK, 604_800);
}

#[test]
fn fine_constructors_exact() {
    assert_eq!(Duration::from_millis(1).as_picos(), 1_000_000_000);
    assert_eq!(Duration::from_micros(1).as_picos(), 1_000_000);
    assert_eq!(Duration::from_nanos(1).as_picos(), 1_000);
    assert_eq!(Duration::from_picos(1).as_picos(), 1);
}

#[test]
fn coarse_accessors_floor() {
    let d = Duration::from_secs(604_799);
    assert_eq!(d.as_weeks(), 0);
    assert_eq!(d.as_days(), 6);
    assert_eq!(d.as_hours(), 167);
    assert_eq!(d.as_minutes(), 10_079);
}

#[test]
fn fine_accessors_floor() {
    let d = Duration::from_picos(PS + 999_999_999);
    assert_eq!(d.as_millis(), 1_000);
    assert_eq!(d.as_micros(), 1_000_999);
    assert_eq!(d.as_nanos(), 1_000_999_999);
    assert_eq!(d.as_picos(), (PS + 999_999_999) as u128);
}

#[test]
fn as_picos_exact_at_maximum() {
    let d = Duration::new(u64::MAX, PS - 1).unwrap();
    let expected = u64::MAX as u128 * PS as u128 + (PS - 1) as u128;
    assert_eq!(d.as_picos(), expected);
}

#[test]
fn from_precise_every_variant() {
    assert_eq!(
        Duration::from_precise(PreciseTime::Picoseconds(7)),
        Duration::from_picos(7),
    );
    assert_eq!(
        Duration::from_precise(PreciseTime::Nanoseconds(7)),
        Duration::from_nanos(7),
    );
    assert_eq!(
        Duration::from_precise(PreciseTime::Microseconds(7)),
        Duration::from_micros(7),
    );
    assert_eq!(
        Duration::from_precise(PreciseTime::Milliseconds(7)),
        Duration::from_millis(7),
    );
    assert_eq!(
        Duration::from_precise(PreciseTime::Seconds(7)),
        Duration::from_secs(7),
    );
    assert_eq!(
        Duration::from_precise(PreciseTime::Minutes(7)),
        Duration::from_minutes(7),
    );
    assert_eq!(
        Duration::from_precise(PreciseTime::Hours(7)),
        Duration::from_hours(7),
    );
    assert_eq!(Duration::from_precise(PreciseTime::Days(7)), Duration::from_days(7));
    assert_eq!(
        Duration::from_precise(PreciseTime::Weeks(7)),
        Duration::from_weeks(7),
    );
}

#[test]
fn mixed_unit_arithmetic() {
    let d = Duration::from_secs(90);
    let sum = d.checked_add_precise(PreciseTime::Minutes(1)).unwrap();
    assert_eq!(sum, Duration::from_secs(150));
    let diff = d.checked_sub_precise(PreciseTime::Milliseconds(500)).unwrap();
    assert_eq!(diff, Duration::from_millis(89_500));
    let under = d.checked_sub_precise(PreciseTime::Hours(1));
    assert_eq!(under, Err(DurationError::Underflow));
}

#[test]
fn ordering_is_lexicographic_on_the_pair() {
    let a = Duration::from_secs(1);
    let b = Duration::new(1, 1).unwrap();
    let c = Duration::from_secs(2);
    assert!(a < b);
    assert!(b < c);
    assert!(a < c);
    assert!(a <= a && a >= a);
    assert!(!(a < a));
}

#[test]
fn normalization_helper_splits_carry() {
    assert_eq!(picodur::calc_picos_secs(2_500_000_000_000), (500_000_000_000, 2));
    assert_eq!(picodur::calc_picos_secs(0), (0, 0));
    assert_eq!(picodur::calc_picos_secs((PS - 1) as u128), (PS - 1, 0));
}
