//! Integer geometry: points, vectors, sizes, axis-aligned rectangles and
//! colors, together with their mathematical models.
//!
//! All coordinates are logical pixels held in `i64`. Values whose magnitude
//! stays within [`COORD_LIMIT`] are "well placed": every sum or difference of
//! two well-placed coordinates fits in an `i64`, which keeps rectangle
//! intersection free of overflow.

use vstd::prelude::*;

verus! {

/// Largest magnitude a clip-rectangle coordinate may have.
pub const COORD_LIMIT: i64 = 0x1000_0000_0000_0000;

/// Holds when a mathematical value fits in an `i64`.
pub open spec fn in_i64(v: int) -> bool {
    i64::MIN <= v <= i64::MAX
}

/// Holds when a coordinate is small enough to take part in rectangle
/// intersection without overflow.
pub open spec fn coord_ok(v: int) -> bool {
    -(COORD_LIMIT as int) <= v <= COORD_LIMIT as int
}

/// A 2D point.
#[derive(Clone, Copy, Debug, PartialEq, Eq, Structural)]
pub struct Point {
    pub x: i64,
    pub y: i64,
}

impl Point {
    pub fn new(x: i64, y: i64) -> (r: Point)
        ensures
            r.x == x,
            r.y == y,
    {
        Point { x, y }
    }
}

/// A 2D displacement.
#[derive(Clone, Copy, Debug, PartialEq, Eq, Structural)]
pub struct Vector {
    pub x: i64,
    pub y: i64,
}

impl Vector {
    pub fn new(x: i64, y: i64) -> (r: Vector)
        ensures
            r.x == x,
            r.y == y,
    {
        Vector { x, y }
    }
}

/// The extent of a rectangular region.
#[derive(Clone, Copy, Debug, PartialEq, Eq, Structural)]
pub struct Size {
    pub width: i64,
    pub height: i64,
}

impl Size {
    pub fn new(width: i64, height: i64) -> (r: Size)
        ensures
            r.width == width,
            r.height == height,
    {
        Size { width, height }
    }

    /// The largest representable extent, standing in for an unbounded one.
    pub fn unbounded() -> (r: Size)
        ensures
            r.width == COORD_LIMIT,
            r.height == COORD_LIMIT,
    {
        Size { width: COORD_LIMIT, height: COORD_LIMIT }
    }
}

/// The mathematical value of a rectangle: exact integer coordinates.
#[verifier::ext_equal]
pub ghost struct RectModel {
    pub x: int,
    pub y: int,
    pub width: int,
    pub height: int,
}

/// Holds when every field of the model fits in an `i64`.
pub open spec fn rect_in_i64(r: RectModel) -> bool {
    in_i64(r.x) && in_i64(r.y) && in_i64(r.width) && in_i64(r.height)
}

/// Holds when every field of the model is within [`COORD_LIMIT`].
pub open spec fn rect_ok(r: RectModel) -> bool {
    coord_ok(r.x) && coord_ok(r.y) && coord_ok(r.width) && coord_ok(r.height)
}

/// The intersection of two rectangles, `None` when it has no area.
pub open spec fn rect_inter(a: RectModel, b: RectModel) -> Option<RectModel> {
    let x = if a.x > b.x { a.x } else { b.x };
    let y = if a.y > b.y { a.y } else { b.y };
    let a_right = a.x + a.width;
    let b_right = b.x + b.width;
    let right = if a_right < b_right { a_right } else { b_right };
    let a_bottom = a.y + a.height;
    let b_bottom = b.y + b.height;
    let bottom = if a_bottom < b_bottom { a_bottom } else { b_bottom };
    if x < right && y < bottom {
        Some(RectModel { x, y, width: right - x, height: bottom - y })
    } else {
        None
    }
}

/// The intersection of two well-placed rectangles is well placed.
pub proof fn lemma_rect_inter_ok(a: RectModel, b: RectModel)
    requires
        rect_ok(a),
        rect_ok(b),
    ensures
        rect_inter(a, b) matches Some(c) ==> rect_ok(c),
{
}

/// An axis-aligned rectangle, held by its top-left corner and extent.
#[derive(Clone, Copy, Debug, PartialEq, Eq, Structural)]
pub struct Rectangle {
    pub x: i64,
    pub y: i64,
    pub width: i64,
    pub height: i64,
}

impl View for Rectangle {
    type V = RectModel;

    open spec fn view(&self) -> RectModel {
        RectModel { x: self.x as int, y: self.y as int, width: self.width as int, height: self.height as int }
    }
}

/// The model of an executable optional rectangle.
pub open spec fn opt_rect_view(o: Option<Rectangle>) -> Option<RectModel> {
    match o {
        Some(r) => Some(r@),
        None => None,
    }
}

impl Rectangle {
    /// A rectangle from its top-left corner and extent.
    pub fn new(top_left: Point, size: Size) -> (r: Rectangle)
        ensures
            r@ == (RectModel { x: top_left.x as int, y: top_left.y as int, width: size.width as int, height: size.height as int }),
    {
        Rectangle { x: top_left.x, y: top_left.y, width: size.width, height: size.height }
    }

    /// A rectangle of the given extent with its top-left corner at the origin.
    pub fn with_size(size: Size) -> (r: Rectangle)
        ensures
            r@ == (RectModel { x: 0, y: 0, width: size.width as int, height: size.height as int }),
    {
        Rectangle { x: 0, y: 0, width: size.width, height: size.height }
    }

    /// The overlapping region of `self` and `other`, `None` when they share
    /// no area.
    pub fn intersection(&self, other: &Rectangle) -> (r: Option<Rectangle>)
        requires
            rect_ok(self@),
            rect_ok(other@),
        ensures
            opt_rect_view(r) == rect_inter(self@, other@),
    {
        let x = if self.x > other.x { self.x } else { other.x };
        let y = if self.y > other.y { self.y } else { other.y };
        let self_right = self.x + self.width;
        let other_right = other.x + other.width;
        let right = if self_right < other_right { self_right } else { other_right };
        let self_bottom = self.y + self.height;
        let other_bottom = other.y + other.height;
        let bottom = if self_bottom < other_bottom { self_bottom } else { other_bottom };
        if x < right && y < bottom {
            Some(Rectangle { x, y, width: right - x, height: bottom - y })
        } else {
            None
        }
    }
}

/// A color with 8-bit gamma-encoded components; conversion to a linear color
/// space is the concern of the floating-point boundary outside this core.
#[derive(Clone, Copy, Debug, PartialEq, Eq, Structural)]
pub struct Color {
    pub r: u8,
    pub g: u8,
    pub b: u8,
    pub a: u8,
}

impl Color {
    pub fn new(r: u8, g: u8, b: u8, a: u8) -> (c: Color)
        ensures
            c == (Color { r, g, b, a }),
    {
        Color { r, g, b, a }
    }
}

} // verus!
