//! The input tree of drawing primitives.
//!
//! A primitive is either an atomic drawing instruction (text, quad, mesh,
//! image) or a structural wrapper (group, clip, transform, cache) around
//! further primitives. The tree is built elsewhere and consumed read-only by
//! the layer builder.

use vstd::prelude::*;
use crate::geometry::{Rectangle, Vector, Size, Color, coord_ok, rect_ok, in_i64};
use crate::transformation::{
    Affine, affine_compose, affine_translate, affine_scale, rect_apply, rect_apply_fits,
};

verus! {

/// How a quad is filled.
#[derive(Clone, Copy, Debug, PartialEq, Eq, Structural)]
pub enum Background {
    Color(Color),
}

/// The font of a text run. Resolving a font to glyphs happens outside this
/// core; the builder only carries the choice through.
#[derive(Clone, Copy, Debug, PartialEq, Eq, Structural)]
pub enum Font {
    Default,
}

/// Horizontal anchoring of a text run relative to its bounds.
#[derive(Clone, Copy, Debug, PartialEq, Eq, Structural)]
pub enum Horizontal {
    Left,
    Center,
    Right,
}

/// Vertical anchoring of a text run relative to its bounds.
#[derive(Clone, Copy, Debug, PartialEq, Eq, Structural)]
pub enum Vertical {
    Top,
    Center,
    Bottom,
}

/// How a mesh is shaded: a solid color, or a gradient resolved elsewhere
/// through its handle.
#[derive(Clone, Copy, Debug, PartialEq, Eq, Structural)]
pub enum MeshStyle {
    Solid(Color),
    Gradient(u64),
}

/// A drawing primitive. Handles (`buffers`, `handle`) identify resources —
/// vertex buffers, raster or vector images — that live outside this core and
/// are cheap to copy.
#[derive(Debug, PartialEq)]
pub enum Primitive {
    /// Draws nothing.
    Empty,
    /// A sequence of primitives drawn in order.
    Group { primitives: Vec<Primitive> },
    /// A run of text.
    Text {
        content: String,
        bounds: Rectangle,
        size: i64,
        color: Color,
        font: Font,
        horizontal_alignment: Horizontal,
        vertical_alignment: Vertical,
    },
    /// A filled rectangle with an optional rounded border.
    Quad {
        bounds: Rectangle,
        background: Background,
        border_radius: i64,
        border_width: i64,
        border_color: Color,
    },
    /// A triangle mesh anchored at the origin of its local space.
    Mesh2D { buffers: u64, size: Size, style: MeshStyle },
    /// Restricts drawing of `content` to `bounds`.
    Clip { bounds: Rectangle, content: Box<Primitive> },
    /// Draws `content` shifted by `translation`.
    Translate { translation: Vector, content: Box<Primitive> },
    /// Draws `content` scaled uniformly by `scale`.
    Scale { scale: i64, content: Box<Primitive> },
    /// A subtree whose construction is memoized elsewhere; drawn as-is.
    Cached { cache: Box<Primitive> },
    /// A raster image drawn into `bounds`.
    Image { handle: u64, bounds: Rectangle },
    /// A vector image drawn into `bounds`.
    Svg { handle: u64, bounds: Rectangle },
}

/// Holds when flattening `p` under the accumulated transform `a` stays
/// within machine integers at every step: every transformed coordinate fits
/// in an `i64`, every clip rectangle is well placed, and every transform
/// composed deeper in the tree fits as well.
pub open spec fn prim_fits(a: Affine, p: Primitive) -> bool
    decreases p,
{
    match p {
        Primitive::Empty => true,
        Primitive::Group { primitives } => group_fits(a, primitives@),
        Primitive::Text { bounds, size, .. } => {
            &&& rect_apply_fits(a, bounds@)
            &&& in_i64(a.sx * size)
        },
        Primitive::Quad { bounds, border_radius, border_width, .. } => {
            &&& rect_apply_fits(a, bounds@)
            &&& in_i64(a.sx * border_radius)
            &&& in_i64(a.sx * border_width)
        },
        Primitive::Mesh2D { size, .. } => {
            &&& coord_ok(a.tx)
            &&& coord_ok(a.ty)
            &&& coord_ok(size.width as int)
            &&& coord_ok(size.height as int)
        },
        Primitive::Clip { bounds, content } => {
            &&& rect_apply_fits(a, bounds@)
            &&& rect_ok(rect_apply(a, bounds@))
            &&& prim_fits(a, *content)
        },
        Primitive::Translate { translation, content } => {
            &&& in_i64(a.tx + translation.x)
            &&& in_i64(a.ty + translation.y)
            &&& prim_fits(
                affine_compose(affine_translate(translation.x as int, translation.y as int), a),
                *content,
            )
        },
        Primitive::Scale { scale, content } => {
            &&& in_i64(scale * a.sx)
            &&& in_i64(scale * a.sy)
            &&& in_i64(scale * a.tx)
            &&& in_i64(scale * a.ty)
            &&& prim_fits(affine_compose(affine_scale(scale as int, scale as int), a), *content)
        },
        Primitive::Cached { cache } => prim_fits(a, *cache),
        Primitive::Image { bounds, .. } => rect_apply_fits(a, bounds@),
        Primitive::Svg { bounds, .. } => rect_apply_fits(a, bounds@),
    }
}

/// [`prim_fits`] for each primitive of a sequence in turn.
pub open spec fn group_fits(a: Affine, ps: Seq<Primitive>) -> bool
    decreases ps,
{
    ps.len() == 0 || (prim_fits(a, ps[0]) && group_fits(a, ps.drop_first()))
}

/// A sequence fits exactly when each of its primitives fits.
pub proof fn lemma_group_fits_index(a: Affine, ps: Seq<Primitive>)
    ensures
        group_fits(a, ps) <==> (forall|i: int| 0 <= i < ps.len() ==> prim_fits(a, #[trigger] ps[i])),
    decreases ps.len(),
{
    if ps.len() > 0 {
        lemma_group_fits_index(a, ps.drop_first());
        assert(forall|i: int| 0 <= i < ps.drop_first().len()
            ==> #[trigger] ps.drop_first()[i] == ps[i + 1]);
        if group_fits(a, ps) {
            assert forall|i: int| 0 <= i < ps.len() implies prim_fits(a, #[trigger] ps[i]) by {
                if i > 0 {
                    assert(prim_fits(a, ps.drop_first()[i - 1]));
                }
            }
        }
        if forall|i: int| 0 <= i < ps.len() ==> prim_fits(a, #[trigger] ps[i]) {
            assert(prim_fits(a, ps[0]));
            assert(group_fits(a, ps.drop_first()));
        }
    }
}

} // verus!
