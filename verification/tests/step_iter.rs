use ulp_step::step_iter::{IntoIterStep, StepIterator};
use ulp_step::StepError;

fn collect_i32(mut it: StepIterator<i32>) -> Vec<i32> {
    let mut values = Vec::new();
    while let Some(v) = it.next() {
        values.push(v);
    }
    values
}

#[test]
fn it_works() {
    let steps = collect_i32((0i32..100).into_iter_step(10).unwrap());
    assert_eq!(steps, vec![0, 10, 20, 30, 40, 50, 60, 70, 80, 90]);
}

#[test]
fn step_must_be_strictly_positive() {
    assert_eq!(
        (0i32..100).into_iter_step(0).err(),
        Some(StepError::InvalidArgument)
    );
    assert_eq!(
        (0i32..100).into_iter_step(-10).err(),
        Some(StepError::InvalidArgument)
    );
    assert_eq!(
        (0u8..100).into_iter_step(0).err(),
        Some(StepError::InvalidArgument)
    );
}

#[test]
fn walks_every_integer_width() {
    let mut it = (0u8..250).into_iter_step(100).unwrap();
    assert_eq!(it.next(), Some(0));
    assert_eq!(it.next(), Some(100));
    assert_eq!(it.next(), Some(200));
    assert_eq!(it.next(), None);

    let mut it = (-5i128..6).into_iter_step(4).unwrap();
    assert_eq!(it.next(), Some(-5));
    assert_eq!(it.next(), Some(-1));
    assert_eq!(it.next(), Some(3));
    assert_eq!(it.next(), None);

    let mut it = (u128::MAX - 10..u128::MAX).into_iter_step(7).unwrap();
    assert_eq!(it.next(), Some(u128::MAX - 10));
    assert_eq!(it.next(), Some(u128::MAX - 3));
    assert_eq!(it.next(), None);

    let mut it = (i64::MAX - 3..i64::MAX).into_iter_step(2).unwrap();
    assert_eq!(it.next(), Some(i64::MAX - 3));
    assert_eq!(it.next(), Some(i64::MAX - 1));
    assert_eq!(it.next(), None);
}

#[test]
fn ends_where_the_value_would_overflow() {
    let mut it = (100i8..127).into_iter_step(20).unwrap();
    assert_eq!(it.next(), Some(100));
    assert_eq!(it.next(), Some(120));
    assert_eq!(it.next(), None);
    assert_eq!(it.next(), None);
}
