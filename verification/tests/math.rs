use juno::math::{ceil_multiple, floor_multiple};
use juno::time::{DAY_MS, HOUR_MS, MIN_MS, WEEK_MS, YEAR_MS};

#[test]
fn test_ceil_multiple() {
    assert_eq!(ceil_multiple(1, 5), 5);
    assert_eq!(ceil_multiple(5, 5), 5);
    assert_eq!(ceil_multiple(6, 5), 10);
}

#[test]
fn test_floor_multiple() {
    assert_eq!(floor_multiple(1, 5), 0);
    assert_eq!(floor_multiple(5, 5), 5);
    assert_eq!(floor_multiple(6, 5), 5);
}

#[test]
fn ceil_multiple_of_zero_is_zero() {
    assert_eq!(ceil_multiple(0, 5), 0);
    assert_eq!(ceil_multiple(0, 1), 0);
}

#[test]
fn ceil_multiple_with_zero_step_is_zero() {
    assert_eq!(ceil_multiple(0, 0), 0);
    assert_eq!(ceil_multiple(17, 0), 0);
}

#[test]
fn ceil_multiple_is_exact_beyond_53_bits() {
    let value = (1u64 << 60) + 1;
    assert_eq!(ceil_multiple(value, 2), (1u64 << 60) + 2);
    assert_eq!(ceil_multiple(u64::MAX, 1), u64::MAX);
    assert_eq!(ceil_multiple(u64::MAX - 1, u64::MAX), u64::MAX);
}

#[test]
fn floor_multiple_is_exact_beyond_53_bits() {
    let value = (1u64 << 60) + 1;
    assert_eq!(floor_multiple(value, 2), 1u64 << 60);
    assert_eq!(floor_multiple(u64::MAX, u64::MAX), u64::MAX);
    assert_eq!(floor_multiple(u64::MAX - 1, u64::MAX), 0);
}

#[test]
fn floor_multiple_brackets_its_argument() {
    let intervals = [1u64, 7, MIN_MS, HOUR_MS, DAY_MS];
    let times = [0u64, 1, 59_999, 60_000, 60_001, 1_600_000_000_123, u64::MAX - DAY_MS];
    for interval in intervals {
        for t in times {
            let floor = floor_multiple(t, interval);
            assert_eq!(floor % interval, 0);
            assert!(floor <= t);
            assert!(t - floor < interval);
        }
    }
}

#[test]
fn ceil_multiple_brackets_its_argument() {
    let intervals = [1u64, 7, MIN_MS, HOUR_MS, DAY_MS];
    let times = [0u64, 1, 59_999, 60_000, 60_001, 1_600_000_000_123];
    for interval in intervals {
        for t in times {
            let ceil = ceil_multiple(t, interval);
            assert_eq!(ceil % interval, 0);
            assert!(t <= ceil);
            assert!(ceil - t < interval);
        }
    }
}

#[test]
fn floor_and_ceil_agree_on_multiples_only() {
    assert_eq!(floor_multiple(120_000, MIN_MS), ceil_multiple(120_000, MIN_MS));
    assert_eq!(ceil_multiple(120_001, MIN_MS) - floor_multiple(120_001, MIN_MS), MIN_MS);
}

#[test]
fn time_units() {
    assert_eq!(MIN_MS, 60_000);
    assert_eq!(HOUR_MS, 60 * MIN_MS);
    assert_eq!(DAY_MS, 24 * HOUR_MS);
    assert_eq!(WEEK_MS, 7 * DAY_MS);
    assert_eq!(YEAR_MS, 365 * DAY_MS);
}
