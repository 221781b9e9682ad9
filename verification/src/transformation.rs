//! Affine 2D transformations over integer coordinates.
//!
//! A transformation combines an axis-aligned scale with a translation; this
//! is exactly the family of transforms the layer builder composes while it
//! walks a primitive tree. Each value is modelled by an [`Affine`] map over
//! unbounded integers, and every executable operation is proved to agree
//! with that model whenever its result fits in an `i64`.

use vstd::prelude::*;
use crate::geometry::{Point, Vector, Rectangle, RectModel, in_i64};

verus! {

/// The mathematical value of a transformation: `p ↦ (sx·p.x + tx, sy·p.y + ty)`.
#[verifier::ext_equal]
pub ghost struct Affine {
    pub sx: int,
    pub sy: int,
    pub tx: int,
    pub ty: int,
}

/// The neutral element under composition.
pub open spec fn affine_identity() -> Affine {
    Affine { sx: 1, sy: 1, tx: 0, ty: 0 }
}

/// A pure translation.
pub open spec fn affine_translate(dx: int, dy: int) -> Affine {
    Affine { sx: 1, sy: 1, tx: dx, ty: dy }
}

/// A pure axis-aligned scale.
pub open spec fn affine_scale(sx: int, sy: int) -> Affine {
    Affine { sx, sy, tx: 0, ty: 0 }
}

/// The composition `a ∘ b`: first apply `b`, then `a`. Not commutative.
pub open spec fn affine_compose(a: Affine, b: Affine) -> Affine {
    Affine {
        sx: a.sx * b.sx,
        sy: a.sy * b.sy,
        tx: a.sx * b.tx + a.tx,
        ty: a.sy * b.ty + a.ty,
    }
}

/// The x-coordinate of a transformed point.
pub open spec fn apply_x(a: Affine, x: int) -> int {
    a.sx * x + a.tx
}

/// The y-coordinate of a transformed point.
pub open spec fn apply_y(a: Affine, y: int) -> int {
    a.sy * y + a.ty
}

/// A transformed rectangle: both corners are transformed independently and
/// the result is read back as an axis-aligned rectangle. Exact for the
/// translate/scale family represented here.
pub open spec fn rect_apply(a: Affine, r: RectModel) -> RectModel {
    RectModel {
        x: apply_x(a, r.x),
        y: apply_y(a, r.y),
        width: a.sx * r.width,
        height: a.sy * r.height,
    }
}

/// Holds when transforming the point `(x, y)` stays within `i64` at every
/// intermediate step.
pub open spec fn point_apply_fits(a: Affine, x: int, y: int) -> bool {
    &&& in_i64(a.sx * x)
    &&& in_i64(a.sx * x + a.tx)
    &&& in_i64(a.sy * y)
    &&& in_i64(a.sy * y + a.ty)
}

/// Holds when transforming the rectangle `r` stays within `i64` at every
/// intermediate step.
pub open spec fn rect_apply_fits(a: Affine, r: RectModel) -> bool {
    &&& point_apply_fits(a, r.x, r.y)
    &&& in_i64(a.sx * r.width)
    &&& in_i64(a.sy * r.height)
}

/// An affine 2D transformation: an axis-aligned scale followed by a
/// translation. Values are immutable; every operation returns a new one.
#[derive(Clone, Copy, Debug, PartialEq, Eq, Structural)]
pub struct Transformation {
    pub sx: i64,
    pub sy: i64,
    pub tx: i64,
    pub ty: i64,
}

impl View for Transformation {
    type V = Affine;

    open spec fn view(&self) -> Affine {
        Affine { sx: self.sx as int, sy: self.sy as int, tx: self.tx as int, ty: self.ty as int }
    }
}

impl Transformation {
    /// The identity transformation.
    pub fn identity() -> (r: Transformation)
        ensures
            r@ == affine_identity(),
    {
        Transformation { sx: 1, sy: 1, tx: 0, ty: 0 }
    }

    /// A pure translation.
    pub fn translate(x: i64, y: i64) -> (r: Transformation)
        ensures
            r@ == affine_translate(x as int, y as int),
    {
        Transformation { sx: 1, sy: 1, tx: x, ty: y }
    }

    /// A pure axis-aligned scale.
    pub fn scale(x: i64, y: i64) -> (r: Transformation)
        ensures
            r@ == affine_scale(x as int, y as int),
    {
        Transformation { sx: x, sy: y, tx: 0, ty: 0 }
    }

    /// This transformation with a translation applied on top of it, in the
    /// space the accumulated transform maps into.
    pub fn translated(&self, x: i64, y: i64) -> (r: Transformation)
        requires
            in_i64(self@.tx + x),
            in_i64(self@.ty + y),
        ensures
            r@ == affine_compose(affine_translate(x as int, y as int), self@),
    {
        Transformation { sx: self.sx, sy: self.sy, tx: self.tx + x, ty: self.ty + y }
    }

    /// This transformation with a scale applied on top of it.
    pub fn scaled(&self, x: i64, y: i64) -> (r: Transformation)
        requires
            in_i64(x * self@.sx),
            in_i64(y * self@.sy),
            in_i64(x * self@.tx),
            in_i64(y * self@.ty),
        ensures
            r@ == affine_compose(affine_scale(x as int, y as int), self@),
    {
        Transformation { sx: x * self.sx, sy: y * self.sy, tx: x * self.tx, ty: y * self.ty }
    }

    /// The composition `self ∘ rhs`: first apply `rhs`, then `self`.
    pub fn compose(&self, rhs: &Transformation) -> (r: Transformation)
        requires
            in_i64(self@.sx * rhs@.sx),
            in_i64(self@.sy * rhs@.sy),
            in_i64(self@.sx * rhs@.tx),
            in_i64(self@.sx * rhs@.tx + self@.tx),
            in_i64(self@.sy * rhs@.ty),
            in_i64(self@.sy * rhs@.ty + self@.ty),
        ensures
            r@ == affine_compose(self@, rhs@),
    {
        Transformation {
            sx: self.sx * rhs.sx,
            sy: self.sy * rhs.sy,
            tx: self.sx * rhs.tx + self.tx,
            ty: self.sy * rhs.ty + self.ty,
        }
    }

    /// Applies the full transformation to a point.
    pub fn transform_point(&self, point: Point) -> (r: Point)
        requires
            point_apply_fits(self@, point.x as int, point.y as int),
        ensures
            r.x == apply_x(self@, point.x as int),
            r.y == apply_y(self@, point.y as int),
    {
        Point { x: self.sx * point.x + self.tx, y: self.sy * point.y + self.ty }
    }

    /// Applies only the linear part to a vector: directions are not
    /// translated.
    pub fn transform_vector(&self, vector: Vector) -> (r: Vector)
        requires
            in_i64(self@.sx * vector.x),
            in_i64(self@.sy * vector.y),
        ensures
            r.x == self@.sx * vector.x,
            r.y == self@.sy * vector.y,
    {
        Vector { x: self.sx * vector.x, y: self.sy * vector.y }
    }

    /// Applies the transformation to the vector `(s, 0)` and keeps its
    /// x-component: the scale a magnitude such as a border width picks up.
    /// Exact under axis-uniform scale; under a non-uniform scale it reports
    /// the x-axis factor, a deliberate approximation.
    pub fn transform_scalar(&self, s: i64) -> (r: i64)
        requires
            in_i64(self@.sx * s),
        ensures
            r == self@.sx * s,
    {
        self.sx * s
    }

    /// Transforms the two corners of a rectangle independently and rebuilds
    /// an axis-aligned rectangle from them. Exact for the translate/scale
    /// family represented here; not meaningful under rotation, which this
    /// type cannot represent.
    pub fn transform_rectangle(&self, rectangle: &Rectangle) -> (out: Rectangle)
        requires
            rect_apply_fits(self@, rectangle@),
        ensures
            out@ == rect_apply(self@, rectangle@),
    {
        Rectangle {
            x: self.sx * rectangle.x + self.tx,
            y: self.sy * rectangle.y + self.ty,
            width: self.sx * rectangle.width,
            height: self.sy * rectangle.height,
        }
    }
}

/// A transformation restricted to translation and uniform scaling. It is
/// modelled by the same [`Affine`] maps, with both axes sharing one scale
/// factor, so its `transform_scalar` is exact rather than an x-axis
/// approximation.
#[derive(Clone, Copy, Debug, PartialEq, Eq, Structural)]
pub struct TranslateScale {
    pub translation: Vector,
    pub scale: i64,
}

impl View for TranslateScale {
    type V = Affine;

    open spec fn view(&self) -> Affine {
        Affine {
            sx: self.scale as int,
            sy: self.scale as int,
            tx: self.translation.x as int,
            ty: self.translation.y as int,
        }
    }
}

impl TranslateScale {
    /// The identity transformation.
    pub fn identity() -> (r: TranslateScale)
        ensures
            r@ == affine_identity(),
    {
        TranslateScale { translation: Vector { x: 0, y: 0 }, scale: 1 }
    }

    /// This transformation with a translation applied on top of it.
    pub fn translated(&self, translation: Vector) -> (r: TranslateScale)
        requires
            in_i64(self@.tx + translation.x),
            in_i64(self@.ty + translation.y),
        ensures
            r@ == affine_compose(
                affine_translate(translation.x as int, translation.y as int),
                self@,
            ),
    {
        TranslateScale {
            translation: Vector {
                x: self.translation.x + translation.x,
                y: self.translation.y + translation.y,
            },
            scale: self.scale,
        }
    }

    /// This transformation with a further uniform scale applied on top of
    /// it.
    pub fn scaled(&self, scale: i64) -> (r: TranslateScale)
        requires
            in_i64(scale * self@.sx),
            in_i64(scale * self@.tx),
            in_i64(scale * self@.ty),
        ensures
            r@ == affine_compose(affine_scale(scale as int, scale as int), self@),
    {
        TranslateScale {
            translation: Vector { x: scale * self.translation.x, y: scale * self.translation.y },
            scale: scale * self.scale,
        }
    }

    /// Applies the scaling and translation of this transformation to a
    /// point.
    pub fn transform_point(&self, point: Point) -> (r: Point)
        requires
            point_apply_fits(self@, point.x as int, point.y as int),
        ensures
            r.x == apply_x(self@, point.x as int),
            r.y == apply_y(self@, point.y as int),
    {
        Point {
            x: self.scale * point.x + self.translation.x,
            y: self.scale * point.y + self.translation.y,
        }
    }

    /// Applies the scaling of this transformation to a scalar; translation
    /// is ignored. Exact, since the scale is uniform by construction.
    pub fn transform_scalar(&self, s: i64) -> (r: i64)
        requires
            in_i64(self@.sx * s),
        ensures
            r == self@.sx * s,
    {
        self.scale * s
    }

    /// Applies the scaling and translation of this transformation to a
    /// rectangle.
    pub fn transform_rectangle(&self, rectangle: &Rectangle) -> (out: Rectangle)
        requires
            rect_apply_fits(self@, rectangle@),
        ensures
            out@ == rect_apply(self@, rectangle@),
    {
        let top_left = self.transform_point(Point { x: rectangle.x, y: rectangle.y });
        Rectangle {
            x: top_left.x,
            y: top_left.y,
            width: self.scale * rectangle.width,
            height: self.scale * rectangle.height,
        }
    }
}

/// The identity transform leaves every point, vector, scalar and rectangle
/// unchanged.
pub proof fn lemma_identity_transform(p: Point, v: Vector, s: int, r: RectModel)
    ensures
        apply_x(affine_identity(), p.x as int) == p.x as int,
        apply_y(affine_identity(), p.y as int) == p.y as int,
        affine_identity().sx * v.x == v.x as int,
        affine_identity().sy * v.y == v.y as int,
        affine_identity().sx * s == s,
        rect_apply(affine_identity(), r) == r,
{
    assert(rect_apply(affine_identity(), r) =~= r);
}

/// The identity is neutral under composition, on either side.
pub proof fn lemma_identity_neutral(a: Affine)
    ensures
        affine_compose(affine_identity(), a) == a,
        affine_compose(a, affine_identity()) == a,
{
    assert(affine_compose(affine_identity(), a) =~= a);
    assert(affine_compose(a, affine_identity()) =~= a);
}

/// Composition of transformations is associative.
pub proof fn lemma_compose_assoc(a: Affine, b: Affine, c: Affine)
    ensures
        affine_compose(affine_compose(a, b), c) == affine_compose(a, affine_compose(b, c)),
{
    assert((a.sx * b.sx) * c.sx == a.sx * (b.sx * c.sx)) by (nonlinear_arith);
    assert((a.sy * b.sy) * c.sy == a.sy * (b.sy * c.sy)) by (nonlinear_arith);
    assert((a.sx * b.sx) * c.tx + (a.sx * b.tx + a.tx) == a.sx * (b.sx * c.tx + b.tx) + a.tx)
        by (nonlinear_arith);
    assert((a.sy * b.sy) * c.ty + (a.sy * b.ty + a.ty) == a.sy * (b.sy * c.ty + b.ty) + a.ty)
        by (nonlinear_arith);
    assert(affine_compose(affine_compose(a, b), c) =~= affine_compose(a, affine_compose(b, c)));
}

/// Chaining `translated` and then `scaled` onto a transform builds the same
/// map as composing with the equivalent combined transform directly.
pub proof fn lemma_translated_scaled(a: Affine, dx: int, dy: int, fx: int, fy: int)
    ensures
        affine_compose(affine_scale(fx, fy), affine_compose(affine_translate(dx, dy), a))
            == affine_compose(affine_compose(affine_scale(fx, fy), affine_translate(dx, dy)), a),
{
    lemma_compose_assoc(affine_scale(fx, fy), affine_translate(dx, dy), a);
}

/// Transforming a rectangle by a translation and then by its inverse gives
/// the original rectangle back, whether the two are applied one after the
/// other or first composed into one transform.
pub proof fn lemma_translate_roundtrip(dx: int, dy: int, r: RectModel)
    ensures
        rect_apply(affine_translate(-dx, -dy), rect_apply(affine_translate(dx, dy), r)) == r,
        rect_apply(affine_compose(affine_translate(-dx, -dy), affine_translate(dx, dy)), r) == r,
{
    assert(rect_apply(affine_translate(-dx, -dy), rect_apply(affine_translate(dx, dy), r)) =~= r);
    assert(rect_apply(affine_compose(affine_translate(-dx, -dy), affine_translate(dx, dy)), r)
        =~= r);
}

} // verus!
