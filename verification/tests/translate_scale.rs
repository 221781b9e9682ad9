use graphics::geometry::{Point, Rectangle, Vector};
use graphics::transformation::TranslateScale;

#[test]
fn translate_scale_identity_is_neutral() {
    let t = TranslateScale::identity();
    let p = Point::new(8, -2);
    assert_eq!(t.transform_point(p), p);
    assert_eq!(t.transform_scalar(14), 14);
    let r = Rectangle { x: 1, y: 2, width: 3, height: 4 };
    assert_eq!(t.transform_rectangle(&r), r);
}

#[test]
fn translate_scale_composes_like_the_full_transform() {
    let t = TranslateScale::identity()
        .translated(Vector::new(5, 5))
        .scaled(2);
    // scale is composed on the left: p ↦ 2·(p + (5, 5))
    assert_eq!(t.transform_point(Point::new(1, 1)), Point::new(12, 12));
    assert_eq!(t.transform_scalar(10), 20);
    assert_eq!(
        t.transform_rectangle(&Rectangle { x: 0, y: 0, width: 7, height: 8 }),
        Rectangle { x: 10, y: 10, width: 14, height: 16 }
    );
}

#[test]
fn translate_scale_round_trip_restores_rectangle() {
    let r = Rectangle { x: 4, y: -9, width: 11, height: 6 };
    let forward = TranslateScale::identity().translated(Vector::new(20, 30));
    let backward = forward.translated(Vector::new(-20, -30));
    assert_eq!(backward.transform_rectangle(&r), r);
}
