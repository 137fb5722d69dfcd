use naviz::interpolator::{InterpolationFunction, FRACTION_ONE};
use naviz::jerk::{
    icbrt, ComponentWise, ConstantJerk, ConstantJerkFixedAverageVelocity,
    ConstantJerkFixedMaxVelocity, DurationCalculable,
};
use naviz::position::{Diagonal, Position};
use naviz::timeline::Timeline;

#[test]
fn constant_jerk_curve() {
    let mut t: Timeline<i64, ConstantJerk> = Timeline::new(0);
    t.add(0, 100, 1000);
    assert_eq!(t.get(0), 0);
    assert_eq!(t.get(25), 156);
    assert_eq!(t.get(50), 500);
    assert_eq!(t.get(100), 1000);
    let back = <ConstantJerkFixedMaxVelocity as InterpolationFunction<i64>>::interpolate(
        FRACTION_ONE / 2,
        1000,
        0,
    );
    assert_eq!(back, 500);
}

#[test]
fn constant_jerk_durations() {
    assert_eq!(ConstantJerk::new(12).duration(8), 2);
    assert_eq!(ConstantJerk::new(12).duration(26), 3);
    assert_eq!(ConstantJerk::new(12).duration(27), 3);
    assert_eq!(ConstantJerkFixedMaxVelocity::new(3).duration(10), 5);
    assert_eq!(ConstantJerkFixedAverageVelocity::new(4).duration(10), 3);
    assert_eq!(ConstantJerkFixedAverageVelocity::new(100).duration(1), 1);
    assert_eq!(ConstantJerkFixedMaxVelocity::new(100).duration(1), 1);
    assert_eq!(ConstantJerk::new(1000).duration(1), 1);
    assert_eq!(icbrt(26), 2);
    assert_eq!(icbrt(27), 3);
}

#[test]
fn lifted_moves_in_the_plane() {
    let origin = Position { x: 0, y: 0 };
    let diagonal = Diagonal(ConstantJerkFixedAverageVelocity::new(5));
    assert_eq!(diagonal.duration(origin, Position { x: 30, y: 40 }), 10);
    let per_axis = ComponentWise(ConstantJerkFixedAverageVelocity::new(1));
    let target = Position { x: 10, y: 5 };
    assert_eq!(per_axis.duration(origin, target), 10);
    assert_eq!(per_axis.interpolate(FRACTION_ONE / 2, origin, target), Position { x: 5, y: 5 });
    assert_eq!(per_axis.interpolate(FRACTION_ONE, origin, target), target);
    assert_eq!(per_axis.interpolate(0, origin, target), origin);
}
