use naviz::color::Color;
use naviz::interpolator::{Constant, Cubic, Endpoint, InterpolationFunction, Linear, Triangle, FRACTION_ONE};
use naviz::position::{Diagonal, Position};
use naviz::timeline::{Keyframe, Timeline};

#[test]
fn keyframes_stay_in_time_order() {
    let mut t: Timeline<i64, Linear> = Timeline::new(0);
    t.add(30, 0, 3);
    t.add(10, 0, 1);
    t.add(20, 0, 2);
    t.add(10, 5, 4);
    let times: Vec<i64> = t.keyframes().iter().map(|k| k.time).collect();
    assert_eq!(times, vec![10, 10, 20, 30]);
    // equal times keep the order of insertion
    let values: Vec<i64> = t.keyframes().iter().map(|k| k.value).collect();
    assert_eq!(values, vec![1, 4, 2, 3]);
}

#[test]
fn default_before_first_keyframe() {
    let mut t: Timeline<i64, Linear> = Timeline::new(7);
    assert_eq!(t.get(-1000), 7);
    t.add(100, 10, 50);
    for time in [-5, 0, 50, 99] {
        assert_eq!(t.get(time), 7);
    }
    assert_eq!(t.default(), 7);
}

#[test]
fn triangle_loops_back_to_default() {
    let mut t: Timeline<i64, Triangle> = Timeline::new(10);
    t.add(100, 20, 50);
    assert_eq!(t.get(100), 10);
    assert_eq!(t.get(105), 30);
    assert_eq!(t.get(110), 50);
    assert_eq!(t.get(120), 10);
    assert_eq!(t.get(500), 10);
}

#[test]
fn triangle_second_pulse_starts_from_default() {
    let mut t: Timeline<i64, Triangle> = Timeline::new(10);
    t.add(0, 10, 50);
    t.add(20, 10, 90);
    assert_eq!(t.get(20), 10);
    assert_eq!(t.get(25), 90);
}

#[test]
fn cubic_eases_monotonically() {
    let mut t: Timeline<i64, Cubic> = Timeline::new(0);
    t.add(0, 100, 1000);
    assert_eq!(t.get(0), 0);
    assert_eq!(t.get(25), 62);
    assert_eq!(t.get(50), 500);
    assert_eq!(t.get(100), 1000);
    let mut previous = t.get(0);
    for time in 1..=100 {
        let value = t.get(time);
        assert!(value >= previous);
        previous = value;
    }
}

#[test]
fn linear_holds_previous_target() {
    let mut t: Timeline<i64, Linear> = Timeline::new(0);
    t.add(0, 10, 100);
    t.add(20, 10, 200);
    assert_eq!(t.get(5), 50);
    assert_eq!(t.get(15), 100);
    assert_eq!(t.get(25), 150);
}

#[test]
fn zero_duration_is_instant() {
    let mut t: Timeline<bool, Constant> = Timeline::new(false);
    t.add(5, 0, true);
    assert!(!t.get(4));
    assert!(t.get(5));
    let mut s: Timeline<i64, Linear> = Timeline::new(0);
    s.add(5, 0, 9);
    assert_eq!(s.get(5), 9);
}

#[test]
fn endpoint_selects_value() {
    assert_eq!(Endpoint::FROM.get(1, 2), 1);
    assert_eq!(Endpoint::TO.get(1, 2), 2);
    assert_eq!(FRACTION_ONE, 1 << 20);
}

#[test]
fn add_all_keeps_order_of_equal_times() {
    let mut t: Timeline<i64, Linear> = Timeline::new(0);
    t.add(10, 0, 1);
    t.add_all(vec![Keyframe::new(5, 0, 2), Keyframe::new(10, 0, 3), Keyframe::new(0, 0, 4)]);
    let values: Vec<i64> = t.keyframes().iter().map(|k| k.value()).collect();
    assert_eq!(values, vec![4, 2, 1, 3]);
    assert_eq!(t.get(10), 3);
}

#[test]
fn diagonal_moves_along_the_line() {
    let from = Position { x: 0, y: 0 };
    let to = Position { x: 30, y: -40 };
    let half = <Diagonal<Linear> as InterpolationFunction<Position>>::interpolate(FRACTION_ONE / 2, from, to);
    assert_eq!(half, Position { x: 15, y: -20 });
    let end = <Diagonal<Cubic> as InterpolationFunction<Position>>::interpolate(FRACTION_ONE, from, to);
    assert_eq!(end, to);
    let start = <Diagonal<Cubic> as InterpolationFunction<Position>>::interpolate(0, from, to);
    assert_eq!(start, from);
    let same = <Diagonal<Linear> as InterpolationFunction<Position>>::interpolate(7, to, to);
    assert_eq!(same, to);
}

#[test]
fn color_channels_saturate() {
    let sum = Color([200, 10, 0, 255]).saturating_add(Color([100, 20, 0, 1]));
    assert_eq!(sum, Color([255, 30, 0, 255]));
}
