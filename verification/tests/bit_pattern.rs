use ulp_step::step_float::StepFloat;
use ulp_step::StepError;

#[test]
fn increments_zero() {
    let sf = StepFloat::new(0f32.to_bits());
    let sf = sf.increment().unwrap();
    let value = sf.bits;
    assert_eq!(1, value);
    let sf = sf.increment().unwrap();
    let value = sf.bits;
    assert_eq!(2, value);
}

#[test]
fn increments_one() {
    let sf = StepFloat::new(1f32.to_bits());
    let one = sf.bits;
    assert_eq!(one, 0b00111111_10000000_00000000_00000000);
    let sf = sf.increment().unwrap();
    let value = sf.bits;
    assert_eq!(value, one + 1);
}

#[test]
fn test_incr_decr_noboundary() {
    let initial = StepFloat::new(0.1f32.to_bits());
    let incr = initial.increment().unwrap();
    let original = incr.decrement().unwrap();
    assert_eq!(initial, original);
}

#[test]
fn test_incr_decr_boundary() {
    let pattern: u32 = 0b0_00001111_11111111111111111111111;
    let initial = StepFloat::new(pattern);
    let original = initial.clone().increment().unwrap().decrement().unwrap();
    assert_eq!(initial, original);
}

#[test]
fn float_loop() {
    let end = StepFloat::new(200001f32.to_bits());
    let mut step = StepFloat::new(200000f32.to_bits());
    while step != end {
        println!("{:x}", step.bits);
        step = step.increment().unwrap();
    }
}

#[test]
fn incr_decr_many_times_is_noop() {
    let initial = StepFloat::new(1f32.to_bits());
    let mut sf = initial;
    for _ in 0..1000 {
        sf = sf.increment().unwrap();
    }
    for _ in 0..1000 {
        sf = sf.decrement().unwrap();
    }
    assert_eq!(sf, initial);
}

#[test]
fn increment_overflows_at_the_top() {
    let top = StepFloat::new(0x7FFF_FFFF);
    assert_eq!(top.increment(), Err(StepError::Overflow));
    let negative_top = StepFloat::new(0xFFFF_FFFF);
    assert_eq!(negative_top.increment(), Err(StepError::Overflow));
}

#[test]
fn decrement_overflows_at_zero() {
    let zero = StepFloat::new(0);
    assert_eq!(zero.decrement(), Err(StepError::Overflow));
    let negative_zero = StepFloat::new(0x8000_0000);
    assert_eq!(negative_zero.decrement(), Err(StepError::Overflow));
}

#[test]
fn ulp_walk_is_exact_where_arithmetic_drifts() {
    // Around twenty million a single-precision float moves in steps of two,
    // so the interval holds exactly one representable value.
    let start = StepFloat::new(20_000_000f32.to_bits());
    let end = StepFloat::new(20_000_002f32.to_bits());
    assert_eq!(StepFloat::steps_between(&start, &end), Some(1));
    let next = start.increment().unwrap();
    assert!(start.bits < next.bits);
    assert_eq!(next, end);
}

#[test]
fn steps_between_counts_representable_values() {
    let start = StepFloat::new(200000f32.to_bits());
    let end = StepFloat::new(200001f32.to_bits());
    assert_eq!(StepFloat::steps_between(&start, &end), Some(64));
    assert_eq!(StepFloat::steps_between(&end, &start), None);
}

#[test]
fn forward_and_backward_checked() {
    let origin = StepFloat::new(0);
    let five = origin.forward_checked(5).unwrap();
    assert_eq!(five.bits, 5);
    assert_eq!(five.backward_checked(5).unwrap(), origin);
    assert_eq!(five.backward_checked(6), None);
    let near_top = StepFloat::new(0x7FFF_FFFE);
    assert_eq!(near_top.forward_checked(1).unwrap().bits, 0x7FFF_FFFF);
    assert_eq!(near_top.forward_checked(2), None);
}
