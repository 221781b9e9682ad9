use graphics::geometry::{Point, Rectangle, Vector};
use graphics::transformation::Transformation;

#[test]
fn identity_leaves_point_vector_scalar_rectangle_unchanged() {
    let t = Transformation::identity();

    let p = Point::new(17, -4);
    assert_eq!(t.transform_point(p), p);

    let v = Vector::new(-3, 9);
    assert_eq!(t.transform_vector(v), v);

    assert_eq!(t.transform_scalar(25), 25);

    let r = Rectangle { x: 10, y: 20, width: 30, height: 40 };
    assert_eq!(t.transform_rectangle(&r), r);
}

#[test]
fn translated_then_scaled_matches_direct_composition() {
    let base = Transformation::translate(3, 4);
    let chained = base.translated(10, 20).scaled(2, 5);

    let combined = Transformation::scale(2, 5)
        .compose(&Transformation::translate(10, 20));
    let direct = combined.compose(&base);

    assert_eq!(chained, direct);
}

#[test]
fn composition_is_not_commutative() {
    let t = Transformation::translate(5, 5);
    let s = Transformation::scale(2, 2);
    assert_ne!(t.compose(&s), s.compose(&t));
}

#[test]
fn translate_then_inverse_translate_restores_rectangle() {
    let r = Rectangle { x: -7, y: 12, width: 40, height: 9 };
    let forward = Transformation::identity().translated(13, -6);
    let backward = forward.translated(-13, 6);
    let shifted = forward.transform_rectangle(&r);
    assert_ne!(shifted, r);
    assert_eq!(backward.transform_rectangle(&r), r);

    let inverse = Transformation::translate(-13, 6);
    assert_eq!(inverse.transform_rectangle(&shifted), r);
}

#[test]
fn scaled_transform_moves_and_stretches_points() {
    let t = Transformation::identity().translated(5, 5).scaled(2, 2);
    // scale is composed on the left: p ↦ 2·(p + (5, 5))
    assert_eq!(t.transform_point(Point::new(1, 1)), Point::new(12, 12));
    assert_eq!(t.transform_scalar(10), 20);
    assert_eq!(t.transform_vector(Vector::new(3, 4)), Vector::new(6, 8));
}

#[test]
fn transform_scalar_reports_x_axis_factor() {
    let t = Transformation::scale(3, 7);
    assert_eq!(t.transform_scalar(2), 6);
}
