use euler_curves::integrate::create_dataset;
use euler_curves::integrate::euler_step;
use euler_curves::point::Point;
use euler_curves::policy::EndCondition;
use euler_curves::scalar::Scalar;

fn s(value: f64) -> Scalar {
    Scalar::from_bits(value.to_bits())
}

fn f(scalar: Scalar) -> f64 {
    f64::from_bits(scalar.to_bits())
}

fn pt(x: f64, y: f64) -> Point {
    Point { x: s(x), y: s(y) }
}

fn sum(a: Scalar, b: Scalar) -> Scalar {
    s(f(a) + f(b))
}

fn product(a: Scalar, b: Scalar) -> Scalar {
    s(f(a) * f(b))
}

fn flat(_x: Scalar, _y: Scalar) -> Scalar {
    s(0.0)
}

fn unit_slope(_x: Scalar, _y: Scalar) -> Scalar {
    s(1.0)
}

fn own_value(_x: Scalar, y: Scalar) -> Scalar {
    y
}

fn cube_root_plus_x(x: Scalar, y: Scalar) -> Scalar {
    s(f(y).cbrt() + f(x))
}

fn rule(max_x: Option<f64>, max_abs_y: Option<f64>) -> EndCondition {
    EndCondition { max_x: max_x.map(s), max_abs_y: max_abs_y.map(s), max_points: usize::MAX }
}

fn coordinates(points: &[Point]) -> Vec<(f64, f64)> {
    points.iter().map(|p| (f(p.x), f(p.y))).collect()
}

#[test]
fn constant_solution_runs_to_the_bound_on_x() {
    let points = create_dataset(pt(0.0, 5.0), s(1.0), rule(Some(3.0), None), &flat, &sum, &product);
    assert_eq!(coordinates(&points), vec![(0.0, 5.0), (1.0, 5.0), (2.0, 5.0), (3.0, 5.0)]);
}

#[test]
fn unit_slope_with_half_steps() {
    let points =
        create_dataset(pt(0.0, 0.0), s(0.5), rule(Some(1.0), None), &unit_slope, &sum, &product);
    assert_eq!(coordinates(&points), vec![(0.0, 0.0), (0.5, 0.5), (1.0, 1.0)]);
}

#[test]
fn bound_on_y_leaves_out_the_point_that_crosses_it() {
    let points =
        create_dataset(pt(0.0, 1.0), s(1.0), rule(None, Some(50.0)), &own_value, &sum, &product);
    assert_eq!(
        coordinates(&points),
        vec![(0.0, 1.0), (1.0, 2.0), (2.0, 4.0), (3.0, 8.0), (4.0, 16.0), (5.0, 32.0)]
    );
    let last = *points.last().unwrap();
    assert!(f(last.y).abs() <= 50.0);
    let next = euler_step(last, s(1.0), &own_value, &sum, &product);
    assert_eq!((f(next.x), f(next.y)), (6.0, 64.0));
    assert!(rule(None, Some(50.0)).has_reached(&next));
}

#[test]
fn bound_on_y_counts_the_absolute_value() {
    let falling = |_x: Scalar, y: Scalar| y;
    let points =
        create_dataset(pt(0.0, -1.0), s(1.0), rule(None, Some(50.0)), &falling, &sum, &product);
    assert_eq!(f(points.last().unwrap().y), -32.0);
    assert_eq!(points.len(), 6);
}

#[test]
fn start_beyond_a_bound_gives_an_empty_trajectory() {
    let beyond_x =
        create_dataset(pt(4.0, 0.0), s(1.0), rule(Some(3.0), None), &flat, &sum, &product);
    assert!(beyond_x.is_empty());
    let beyond_y =
        create_dataset(pt(0.0, -51.0), s(1.0), rule(Some(3.0), Some(50.0)), &flat, &sum, &product);
    assert!(beyond_y.is_empty());
}

#[test]
fn start_on_a_bound_is_recorded() {
    let points = create_dataset(pt(3.0, 50.0), s(1.0), rule(Some(3.0), Some(50.0)), &flat, &sum, &product);
    assert_eq!(coordinates(&points), vec![(3.0, 50.0)]);
}

#[test]
fn degenerate_start_gives_an_empty_trajectory() {
    for start in [
        pt(f64::NAN, 0.0),
        pt(0.0, f64::NAN),
        pt(f64::INFINITY, 0.0),
        pt(0.0, f64::NEG_INFINITY),
    ] {
        let points = create_dataset(start, s(1.0), rule(None, None), &flat, &sum, &product);
        assert!(points.is_empty());
    }
}

#[test]
fn overflow_ends_an_unbounded_trajectory() {
    let points =
        create_dataset(pt(0.0, 1.0e308), s(1.0), rule(None, None), &own_value, &sum, &product);
    assert_eq!(coordinates(&points), vec![(0.0, 1.0e308)]);
}

#[test]
fn nan_slope_ends_a_trajectory() {
    let broken = |_x: Scalar, _y: Scalar| s(f64::NAN);
    let points = create_dataset(pt(0.0, 1.0), s(1.0), rule(Some(10.0), None), &broken, &sum, &product);
    assert_eq!(coordinates(&points), vec![(0.0, 1.0)]);
}

#[test]
fn cap_on_points_ends_a_trajectory() {
    let capped = EndCondition { max_x: None, max_abs_y: None, max_points: 7 };
    let points = create_dataset(pt(0.0, 5.0), s(1.0), capped, &flat, &sum, &product);
    assert_eq!(points.len(), 7);
    assert_eq!(f(points[6].x), 6.0);
    let none = EndCondition { max_x: None, max_abs_y: None, max_points: 0 };
    assert!(create_dataset(pt(0.0, 5.0), s(1.0), none, &flat, &sum, &product).is_empty());
}

#[test]
fn stalled_abscissa_is_stopped_by_the_cap() {
    let capped = EndCondition { max_x: Some(s(2.0e300)), max_abs_y: None, max_points: 5 };
    let points = create_dataset(pt(1.0e300, 0.0), s(1.0), capped, &flat, &sum, &product);
    assert_eq!(points.len(), 5);
    assert!(points.iter().all(|p| f(p.x) == 1.0e300));
}

#[test]
fn every_recorded_point_is_admitted() {
    let end = rule(Some(150.0), Some(150.0));
    let points = create_dataset(pt(0.0, 10.0), s(0.001), end, &cube_root_plus_x, &sum, &product);
    assert!(!points.is_empty());
    for p in &points {
        assert!(!end.has_reached(p));
        assert!(end.accepts(p));
        assert!(f(p.x).is_finite() && f(p.y).is_finite());
        assert!(f(p.x) <= 150.0 && f(p.y).abs() <= 150.0);
    }
    let next = euler_step(*points.last().unwrap(), s(0.001), &cube_root_plus_x, &sum, &product);
    assert!(!end.accepts(&next));
}

#[test]
fn abscissae_advance_by_the_step() {
    let end = rule(Some(20.0), None);
    let points = create_dataset(pt(-3.0, 1.0), s(0.25), end, &cube_root_plus_x, &sum, &product);
    assert_eq!(points.len(), 93);
    for pair in points.windows(2) {
        assert_eq!(f(pair[1].x), f(pair[0].x) + 0.25);
        assert!(pair[1].x.gt(pair[0].x));
        assert_eq!(f(pair[1].y), f(pair[0].y) + (f(pair[0].y).cbrt() + f(pair[0].x)) * 0.25);
    }
}

#[test]
fn two_runs_give_the_same_bits() {
    let end = rule(Some(150.0), Some(150.0));
    let first = create_dataset(pt(0.0, 20.0), s(0.001), end, &cube_root_plus_x, &sum, &product);
    let second = create_dataset(pt(0.0, 20.0), s(0.001), end, &cube_root_plus_x, &sum, &product);
    assert_eq!(first, second);
    assert!(first.len() > 1000);
}

#[test]
fn one_step_applies_the_slope_at_the_old_point() {
    let next = euler_step(pt(2.0, 8.0), s(0.5), &cube_root_plus_x, &sum, &product);
    assert_eq!((f(next.x), f(next.y)), (2.5, 10.0));
}

#[test]
fn negative_step_runs_until_the_cap() {
    let capped = EndCondition { max_x: Some(s(3.0)), max_abs_y: None, max_points: 4 };
    let points = create_dataset(pt(0.0, 0.0), s(-1.0), capped, &unit_slope, &sum, &product);
    assert_eq!(coordinates(&points), vec![(0.0, 0.0), (-1.0, -1.0), (-2.0, -2.0), (-3.0, -3.0)]);
}

#[test]
fn overflow_of_the_abscissa_ends_a_trajectory() {
    let points =
        create_dataset(pt(f64::MAX, 0.0), s(1.0e300), rule(None, None), &flat, &sum, &product);
    assert_eq!(coordinates(&points), vec![(f64::MAX, 0.0)]);
}

#[test]
fn rising_trajectory_is_no_longer_than_the_values_below_its_bound() {
    let start = 1.0f64;
    let bound = f64::from_bits(start.to_bits() + 40);
    let step = f64::from_bits(start.to_bits() + 1) - start;
    let points =
        create_dataset(pt(start, 0.0), s(step), rule(Some(bound), None), &flat, &sum, &product);
    assert_eq!(points.len(), 41);
    assert!(points.len() as u64 <= bound.to_bits() - start.to_bits() + 1);
    for pair in points.windows(2) {
        assert!(pair[1].x.gt(pair[0].x));
        assert_eq!(pair[1].x.to_bits(), pair[0].x.to_bits() + 1);
    }
}
