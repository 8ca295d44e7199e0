use ulp_step::eq_with_tolerance::EqWithTolerance;
use ulp_step::StepError;

// The comparisons work in fixed point: one unit here is a millionth, so
// `10 * SCALE` stands for ten and `SCALE / 2` for one half.
const SCALE: i64 = 1_000_000;

#[test]
fn within_tolerance_positive() {
    assert!((10 * SCALE).eq_with_tolerance(9_500_001, SCALE / 2).unwrap());
    assert!((10 * SCALE).eq_with_tolerance(10_499_990, SCALE / 2).unwrap());
}

#[test]
fn within_tolerance_negative() {
    assert!((-10 * SCALE)
        .eq_with_tolerance(-9_500_001, SCALE / 2)
        .unwrap());
    assert!((-10 * SCALE)
        .eq_with_tolerance(-10_499_990, SCALE / 2)
        .unwrap());
}

#[test]
fn outside_tolerance_positive() {
    assert!(!(10 * SCALE).eq_with_tolerance(9_500_000, SCALE / 2).unwrap());
    assert!(!(10 * SCALE)
        .eq_with_tolerance(10_500_000, SCALE / 2)
        .unwrap());
}

#[test]
fn outside_tolerance_negative() {
    assert!(!(-10 * SCALE)
        .eq_with_tolerance(-9_500_000, SCALE / 2)
        .unwrap());
    assert!(!(-10 * SCALE)
        .eq_with_tolerance(-10_500_000, SCALE / 2)
        .unwrap());
}

#[test]
fn tolerance_must_not_be_negative() {
    assert_eq!(
        10i64.eq_with_tolerance(10, -1).err(),
        Some(StepError::InvalidArgument)
    );
    assert_eq!(
        (-3i32).eq_with_tolerance(4, -2).err(),
        Some(StepError::InvalidArgument)
    );
}

#[test]
fn tolerance_comparison_is_symmetric() {
    let pairs: [(i64, i64, i64); 4] = [(10, 12, 3), (12, 10, 1), (-4, 4, 9), (7, 7, 0)];
    for (a, b, t) in pairs {
        assert_eq!(
            a.eq_with_tolerance(b, t).unwrap(),
            b.eq_with_tolerance(a, t).unwrap()
        );
    }
}

#[test]
fn tolerance_on_unsigned_values() {
    assert!(5u32.eq_with_tolerance(7, 3).unwrap());
    assert!(!5u32.eq_with_tolerance(8, 3).unwrap());
    assert!(!5u32.eq_with_tolerance(5, 0).unwrap());
}
