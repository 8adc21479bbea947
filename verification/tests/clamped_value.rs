//! The clamped value: assignment pulls into the interval.

use tile_grid::clamped_value::ClampedValue;

#[test]
fn assign_clamps_into_the_interval() {
    let mut v = ClampedValue::new(5, 0, 10);
    assert_eq!(v.value(), 5);

    v.assign(7);
    assert_eq!(v.value(), 7);

    v.assign(-3);
    assert_eq!(v.value(), 0);

    v.assign(42);
    assert_eq!(v.value(), 10);

    v.assign(10);
    assert_eq!(v.value(), 10);
}

#[test]
fn construction_keeps_the_initial_value_as_given() {
    let v = ClampedValue::new(99, 0, 10);
    assert_eq!(v.value(), 99);

    let mut w = ClampedValue::new(99, 0, 10);
    w.assign(99);
    assert_eq!(w.value(), 10);
}
