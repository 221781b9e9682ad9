//! Flattens a tree of drawing primitives into an ordered list of layers.
//!
//! A layer is a batch of draw records that share one clip rectangle. Layer 0
//! covers the whole viewport; every `Clip` primitive whose region is visible
//! appends one further layer, in pre-order. Records are appended to their
//! layer fully transformed: a layer never needs further coordinate work.

use vstd::prelude::*;
use crate::geometry::{
    Point, Size, Rectangle, RectModel, Color, COORD_LIMIT, rect_ok, rect_inter, in_i64,
    lemma_rect_inter_ok,
};
use crate::primitive::{
    Primitive, Background, Font, Horizontal, Vertical, MeshStyle, prim_fits, group_fits,
    lemma_group_fits_index,
};
use crate::transformation::{
    Transformation, Affine, affine_identity, affine_translate, affine_scale, affine_compose,
    rect_apply,
};

verus! {

/// A quad ready to draw: geometry in device coordinates, scale applied to
/// its border metrics.
#[derive(Clone, Copy, Debug, PartialEq, Eq, Structural)]
pub struct Quad {
    pub position: Point,
    pub size: Size,
    pub color: Color,
    pub border_radius: i64,
    pub border_width: i64,
    pub border_color: Color,
}

/// A text run ready to draw, its bounds and size already transformed.
#[derive(Clone, Debug, PartialEq)]
pub struct Text {
    pub content: String,
    pub bounds: Rectangle,
    pub color: Color,
    pub size: i64,
    pub font: Font,
    pub horizontal_alignment: Horizontal,
    pub vertical_alignment: Vertical,
}

/// A mesh ready to draw: its origin placed in device coordinates, its
/// geometry left to the renderer, clipped to `clip_bounds`.
#[derive(Clone, Copy, Debug, PartialEq, Eq, Structural)]
pub struct Mesh {
    pub origin: Point,
    pub buffers: u64,
    pub clip_bounds: Rectangle,
    pub style: MeshStyle,
}

/// An image ready to draw into `bounds`; the handle identifies the resource
/// elsewhere.
#[derive(Clone, Copy, Debug, PartialEq, Eq, Structural)]
pub enum Image {
    Raster { handle: u64, bounds: Rectangle },
    Vector { handle: u64, bounds: Rectangle },
}

/// The drawable area, by its logical extent.
#[derive(Clone, Copy, Debug, PartialEq, Eq, Structural)]
pub struct Viewport {
    pub width: i64,
    pub height: i64,
}

impl Viewport {
    /// The logical extent of the drawable area.
    pub fn logical_size(&self) -> (r: Size)
        ensures
            r.width == self.width,
            r.height == self.height,
    {
        Size { width: self.width, height: self.height }
    }
}

/// Holds when the viewport's extent is non-negative and well placed.
pub open spec fn viewport_ok(v: Viewport) -> bool {
    &&& 0 <= v.width <= COORD_LIMIT
    &&& 0 <= v.height <= COORD_LIMIT
}

/// The clip rectangle covering a whole viewport.
pub open spec fn viewport_rect(v: Viewport) -> RectModel {
    RectModel { x: 0, y: 0, width: v.width as int, height: v.height as int }
}

/// A group of draw records that share one clip rectangle.
#[derive(Debug)]
pub struct Layer {
    /// The clipping bounds of the layer, in device coordinates.
    pub bounds: Rectangle,
    /// The quads of the layer, in visitation order.
    pub quads: Vec<Quad>,
    /// The meshes of the layer, in visitation order.
    pub meshes: Vec<Mesh>,
    /// The text runs of the layer, in visitation order.
    pub text: Vec<Text>,
    /// The images of the layer, in visitation order.
    pub images: Vec<Image>,
}

/// The mathematical value of a layer.
#[verifier::ext_equal]
pub ghost struct LayerModel {
    pub bounds: RectModel,
    pub quads: Seq<Quad>,
    pub meshes: Seq<Mesh>,
    pub text: Seq<Text>,
    pub images: Seq<Image>,
}

impl View for Layer {
    type V = LayerModel;

    open spec fn view(&self) -> LayerModel {
        LayerModel {
            bounds: self.bounds@,
            quads: self.quads@,
            meshes: self.meshes@,
            text: self.text@,
            images: self.images@,
        }
    }
}

/// A layer with the given bounds and no records yet.
pub open spec fn empty_layer(bounds: RectModel) -> LayerModel {
    LayerModel {
        bounds,
        quads: Seq::empty(),
        meshes: Seq::empty(),
        text: Seq::empty(),
        images: Seq::empty(),
    }
}

/// The models of a list of layers.
pub open spec fn layer_views(ls: Seq<Layer>) -> Seq<LayerModel> {
    Seq::new(ls.len(), |i: int| ls[i]@)
}

/// Holds when every layer's clip rectangle is well placed.
pub open spec fn layers_ok(ls: Seq<LayerModel>) -> bool {
    forall|i: int| 0 <= i < ls.len() ==> rect_ok(#[trigger] ls[i].bounds)
}

/// The executable rectangle whose value is `m`; exact when `m` fits.
pub open spec fn rect_of(m: RectModel) -> Rectangle {
    Rectangle { x: m.x as i64, y: m.y as i64, width: m.width as i64, height: m.height as i64 }
}

/// `l` with one more text run.
pub open spec fn with_text(l: LayerModel, t: Text) -> LayerModel {
    LayerModel { bounds: l.bounds, quads: l.quads, meshes: l.meshes, text: l.text.push(t), images: l.images }
}

/// `l` with one more quad.
pub open spec fn with_quad(l: LayerModel, q: Quad) -> LayerModel {
    LayerModel { bounds: l.bounds, quads: l.quads.push(q), meshes: l.meshes, text: l.text, images: l.images }
}

/// `l` with one more mesh.
pub open spec fn with_mesh(l: LayerModel, m: Mesh) -> LayerModel {
    LayerModel { bounds: l.bounds, quads: l.quads, meshes: l.meshes.push(m), text: l.text, images: l.images }
}

/// `l` with one more image.
pub open spec fn with_image(l: LayerModel, i: Image) -> LayerModel {
    LayerModel { bounds: l.bounds, quads: l.quads, meshes: l.meshes, text: l.text, images: l.images.push(i) }
}

/// The text record a `Text` primitive contributes under the transform `a`.
pub open spec fn text_record(
    a: Affine,
    content: String,
    bounds: RectModel,
    size: i64,
    color: Color,
    font: Font,
    horizontal_alignment: Horizontal,
    vertical_alignment: Vertical,
) -> Text {
    Text {
        content,
        bounds: rect_of(rect_apply(a, bounds)),
        color,
        size: (a.sx * size) as i64,
        font,
        horizontal_alignment,
        vertical_alignment,
    }
}

/// The quad record a `Quad` primitive contributes under the transform `a`.
pub open spec fn quad_record(
    a: Affine,
    bounds: RectModel,
    background: Background,
    border_radius: i64,
    border_width: i64,
    border_color: Color,
) -> Quad {
    let t = rect_apply(a, bounds);
    Quad {
        position: Point { x: t.x as i64, y: t.y as i64 },
        size: Size { width: t.width as i64, height: t.height as i64 },
        color: match background {
            Background::Color(c) => c,
        },
        border_radius: (a.sx * border_radius) as i64,
        border_width: (a.sx * border_width) as i64,
        border_color,
    }
}

/// Where a mesh of the given extent lands under the transform `a`: only its
/// origin is transformed, its geometry is handled downstream.
pub open spec fn mesh_bounds(a: Affine, size: Size) -> RectModel {
    RectModel { x: a.tx, y: a.ty, width: size.width as int, height: size.height as int }
}

/// The mesh record a `Mesh2D` primitive contributes, clipped to `clip`.
pub open spec fn mesh_record(a: Affine, buffers: u64, clip: RectModel, style: MeshStyle) -> Mesh {
    Mesh {
        origin: Point { x: a.tx as i64, y: a.ty as i64 },
        buffers,
        clip_bounds: rect_of(clip),
        style,
    }
}

/// The layer list after distributing the primitive `p` under the transform
/// `a` into the layer at index `cur`.
///
/// This is the specification of the whole flattening pass: text, quads and
/// images go to the current layer unconditionally, a mesh only where it
/// overlaps the layer's clip rectangle, and a visible `Clip` appends a new
/// layer — whose bounds are the intersection of its transformed bounds with
/// the current layer's — and routes its subtree there. A `Clip` whose region
/// has no visible area prunes its whole subtree.
pub open spec fn process_spec(ls: Seq<LayerModel>, a: Affine, p: Primitive, cur: int) -> Seq<
    LayerModel,
>
    decreases p,
{
    match p {
        Primitive::Empty => ls,
        Primitive::Group { primitives } => process_seq_spec(ls, a, primitives@, cur),
        Primitive::Text {
            content,
            bounds,
            size,
            color,
            font,
            horizontal_alignment,
            vertical_alignment,
        } => ls.update(
            cur,
            with_text(
                ls[cur],
                text_record(
                    a,
                    content,
                    bounds@,
                    size,
                    color,
                    font,
                    horizontal_alignment,
                    vertical_alignment,
                ),
            ),
        ),
        Primitive::Quad { bounds, background, border_radius, border_width, border_color } => ls
            .update(
            cur,
            with_quad(
                ls[cur],
                quad_record(a, bounds@, background, border_radius, border_width, border_color),
            ),
        ),
        Primitive::Mesh2D { buffers, size, style } => match rect_inter(
            ls[cur].bounds,
            mesh_bounds(a, size),
        ) {
            Some(clip) => ls.update(cur, with_mesh(ls[cur], mesh_record(a, buffers, clip, style))),
            None => ls,
        },
        Primitive::Clip { bounds, content } => match rect_inter(
            ls[cur].bounds,
            rect_apply(a, bounds@),
        ) {
            Some(clip) => process_spec(ls.push(empty_layer(clip)), a, *content, ls.len() as int),
            None => ls,
        },
        Primitive::Translate { translation, content } => process_spec(
            ls,
            affine_compose(affine_translate(translation.x as int, translation.y as int), a),
            *content,
            cur,
        ),
        Primitive::Scale { scale, content } => process_spec(
            ls,
            affine_compose(affine_scale(scale as int, scale as int), a),
            *content,
            cur,
        ),
        Primitive::Cached { cache } => process_spec(ls, a, *cache, cur),
        Primitive::Image { handle, bounds } => ls.update(
            cur,
            with_image(ls[cur], Image::Raster { handle, bounds: rect_of(rect_apply(a, bounds@)) }),
        ),
        Primitive::Svg { handle, bounds } => ls.update(
            cur,
            with_image(ls[cur], Image::Vector { handle, bounds: rect_of(rect_apply(a, bounds@)) }),
        ),
    }
}

/// [`process_spec`] over each primitive of a sequence in order.
pub open spec fn process_seq_spec(
    ls: Seq<LayerModel>,
    a: Affine,
    ps: Seq<Primitive>,
    cur: int,
) -> Seq<LayerModel>
    decreases ps,
{
    if ps.len() == 0 {
        ls
    } else {
        process_seq_spec(process_spec(ls, a, ps[0], cur), a, ps.drop_first(), cur)
    }
}

/// The layer list `generate` owes: the root layer covering the viewport,
/// then everything the top-level primitives contribute under the identity
/// transform.
pub open spec fn generate_spec(ps: Seq<Primitive>, viewport: Viewport) -> Seq<LayerModel> {
    process_seq_spec(seq![empty_layer(viewport_rect(viewport))], affine_identity(), ps, 0)
}

/// The darker, one-pixel-offset copy of an overlay line.
pub open spec fn overlay_shadow(content: String, i: int) -> Text {
    Text {
        content,
        bounds: Rectangle {
            x: 10,
            y: (10 + 25 * i) as i64,
            width: COORD_LIMIT,
            height: COORD_LIMIT,
        },
        color: Color { r: 0, g: 0, b: 0, a: 255 },
        size: 20,
        font: Font::Default,
        horizontal_alignment: Horizontal::Left,
        vertical_alignment: Vertical::Top,
    }
}

/// The foreground copy of an overlay line.
pub open spec fn overlay_front(content: String, i: int) -> Text {
    Text {
        content,
        bounds: Rectangle {
            x: 11,
            y: (11 + 25 * i) as i64,
            width: COORD_LIMIT,
            height: COORD_LIMIT,
        },
        color: Color { r: 230, g: 230, b: 230, a: 255 },
        size: 20,
        font: Font::Default,
        horizontal_alignment: Horizontal::Left,
        vertical_alignment: Vertical::Top,
    }
}

/// Appending one more primitive to a sequence distributes it after the
/// rest.
pub proof fn lemma_process_seq_snoc(
    ls: Seq<LayerModel>,
    a: Affine,
    ps: Seq<Primitive>,
    x: Primitive,
    cur: int,
)
    ensures
        process_seq_spec(ls, a, ps.push(x), cur) == process_spec(
            process_seq_spec(ls, a, ps, cur),
            a,
            x,
            cur,
        ),
    decreases ps,
{
    let psx = ps.push(x);
    if ps.len() == 0 {
        assert(psx[0] == x);
        assert(psx.drop_first() =~= Seq::<Primitive>::empty());
        let mid = process_spec(ls, a, x, cur);
        assert(process_seq_spec(mid, a, psx.drop_first(), cur) == mid);
        assert(process_seq_spec(ls, a, ps, cur) == ls);
    } else {
        assert(psx[0] == ps[0]);
        assert(psx.drop_first() =~= ps.drop_first().push(x));
        let mid = process_spec(ls, a, ps[0], cur);
        lemma_process_seq_snoc(mid, a, ps.drop_first(), x, cur);
        assert(process_seq_spec(ls, a, psx, cur) == process_seq_spec(mid, a, psx.drop_first(), cur));
        assert(process_seq_spec(ls, a, ps, cur) == process_seq_spec(mid, a, ps.drop_first(), cur));
    }
}

/// Distributing a primitive never removes a layer and never changes the
/// clip rectangle of a layer that already exists; every clip rectangle
/// stays well placed.
pub proof fn lemma_process_frame(ls: Seq<LayerModel>, a: Affine, p: Primitive, cur: int)
    requires
        0 <= cur < ls.len(),
        layers_ok(ls),
        prim_fits(a, p),
    ensures
        process_spec(ls, a, p, cur).len() >= ls.len(),
        forall|i: int|
            0 <= i < ls.len() ==> process_spec(ls, a, p, cur)[i].bounds == ls[i].bounds,
        layers_ok(process_spec(ls, a, p, cur)),
    decreases p,
{
    match p {
        Primitive::Empty => {}
        Primitive::Group { primitives } => {
            lemma_process_seq_frame(ls, a, primitives@, cur);
        }
        Primitive::Text { .. } => {}
        Primitive::Quad { .. } => {}
        Primitive::Mesh2D { .. } => {}
        Primitive::Clip { bounds, content } => {
            let tb = rect_apply(a, bounds@);
            match rect_inter(ls[cur].bounds, tb) {
                Some(clip) => {
                    lemma_rect_inter_ok(ls[cur].bounds, tb);
                    let ls2 = ls.push(empty_layer(clip));
                    assert(layers_ok(ls2)) by {
                        assert(forall|i: int|
                            0 <= i < ls.len() ==> ls2[i].bounds == #[trigger] ls[i].bounds);
                        assert(ls2[ls.len() as int].bounds == clip);
                    }
                    lemma_process_frame(ls2, a, *content, ls.len() as int);
                    let res = process_spec(ls2, a, *content, ls.len() as int);
                    assert forall|i: int| 0 <= i < ls.len() implies res[i].bounds == ls[i]
                        .bounds by {
                        assert(res[i].bounds == ls2[i].bounds);
                        assert(ls2[i].bounds == ls[i].bounds);
                    }
                }
                None => {}
            }
        }
        Primitive::Translate { translation, content } => {
            lemma_process_frame(
                ls,
                affine_compose(affine_translate(translation.x as int, translation.y as int), a),
                *content,
                cur,
            );
        }
        Primitive::Scale { scale, content } => {
            lemma_process_frame(
                ls,
                affine_compose(affine_scale(scale as int, scale as int), a),
                *content,
                cur,
            );
        }
        Primitive::Cached { cache } => {
            lemma_process_frame(ls, a, *cache, cur);
        }
        Primitive::Image { .. } => {}
        Primitive::Svg { .. } => {}
    }
}

/// [`lemma_process_frame`] for a whole sequence of primitives.
pub proof fn lemma_process_seq_frame(ls: Seq<LayerModel>, a: Affine, ps: Seq<Primitive>, cur: int)
    requires
        0 <= cur < ls.len(),
        layers_ok(ls),
        group_fits(a, ps),
    ensures
        process_seq_spec(ls, a, ps, cur).len() >= ls.len(),
        forall|i: int|
            0 <= i < ls.len() ==> process_seq_spec(ls, a, ps, cur)[i].bounds == ls[i].bounds,
        layers_ok(process_seq_spec(ls, a, ps, cur)),
    decreases ps,
{
    if ps.len() > 0 {
        lemma_process_frame(ls, a, ps[0], cur);
        let mid = process_spec(ls, a, ps[0], cur);
        lemma_process_seq_frame(mid, a, ps.drop_first(), cur);
        assert(forall|i: int|
            0 <= i < ls.len() ==> process_seq_spec(mid, a, ps.drop_first(), cur)[i].bounds
                == #[trigger] ls[i].bounds);
    }
}

/// Flattening an empty list of primitives yields exactly one layer: the
/// root, covering the whole viewport, with every record sequence empty.
pub proof fn lemma_generate_empty(viewport: Viewport)
    ensures
        generate_spec(Seq::empty(), viewport).len() == 1,
        generate_spec(Seq::empty(), viewport)[0] == empty_layer(viewport_rect(viewport)),
{
}

/// A `Clip` whose transformed bounds share no area with the current
/// layer's clip rectangle contributes nothing: no layer is appended and its
/// whole subtree is skipped.
pub proof fn lemma_invisible_clip(
    ls: Seq<LayerModel>,
    a: Affine,
    bounds: Rectangle,
    content: Box<Primitive>,
    cur: int,
)
    requires
        rect_inter(ls[cur].bounds, rect_apply(a, bounds@)) is None,
    ensures
        process_spec(ls, a, Primitive::Clip { bounds, content }, cur) == ls,
{
}

/// A `Clip` whose transformed bounds share area with the current layer's
/// clip rectangle appends a new layer, at the index right after the layers
/// that already exist, whose bounds are exactly that intersection; the
/// layers that already exist keep their bounds.
pub proof fn lemma_visible_clip(
    ls: Seq<LayerModel>,
    a: Affine,
    bounds: Rectangle,
    content: Primitive,
    cur: int,
)
    requires
        0 <= cur < ls.len(),
        layers_ok(ls),
        prim_fits(a, Primitive::Clip { bounds, content: Box::new(content) }),
        rect_inter(ls[cur].bounds, rect_apply(a, bounds@)) is Some,
    ensures
        ({
            let r = process_spec(ls, a, Primitive::Clip { bounds, content: Box::new(content) }, cur);
            let cb = rect_inter(ls[cur].bounds, rect_apply(a, bounds@))->Some_0;
            &&& r.len() >= ls.len() + 1
            &&& r[ls.len() as int].bounds == cb
            &&& forall|i: int| 0 <= i < ls.len() ==> r[i].bounds == ls[i].bounds
        }),
{
    let p = Primitive::Clip { bounds, content: Box::new(content) };
    let cb = rect_inter(ls[cur].bounds, rect_apply(a, bounds@))->Some_0;
    let ls1 = ls.push(empty_layer(cb));
    assert(process_spec(ls, a, p, cur) == process_spec(ls1, a, content, ls.len() as int));
    lemma_rect_inter_ok(ls[cur].bounds, rect_apply(a, bounds@));
    assert(layers_ok(ls1)) by {
        assert(forall|i: int| 0 <= i < ls.len() ==> ls1[i].bounds == #[trigger] ls[i].bounds);
        assert(ls1[ls.len() as int].bounds == cb);
    }
    assert(prim_fits(a, content));
    lemma_process_frame(ls1, a, content, ls.len() as int);
    let r = process_spec(ls1, a, content, ls.len() as int);
    assert(r[ls.len() as int].bounds == ls1[ls.len() as int].bounds);
    assert forall|i: int| 0 <= i < ls.len() implies r[i].bounds == ls[i].bounds by {
        assert(r[i].bounds == ls1[i].bounds);
        assert(ls1[i].bounds == ls[i].bounds);
    }
}

/// A `Clip` wrapped directly around another `Clip`.
pub open spec fn nested_clip(outer: Rectangle, inner: Rectangle, content: Primitive) -> Primitive {
    Primitive::Clip {
        bounds: outer,
        content: Box::new(Primitive::Clip { bounds: inner, content: Box::new(content) }),
    }
}

/// A visible `Clip` nested directly inside a visible `Clip` appends exactly
/// two new layers, in creation (pre-order) sequence: first the outer one,
/// whose bounds intersect the enclosing layer's clip rectangle with the
/// outer clip's device bounds, then the inner one, whose bounds further
/// intersect the outer layer's bounds with the inner clip's device bounds.
pub proof fn lemma_nested_clips(
    ls: Seq<LayerModel>,
    a: Affine,
    outer: Rectangle,
    inner: Rectangle,
    content: Primitive,
    cur: int,
)
    requires
        0 <= cur < ls.len(),
        layers_ok(ls),
        prim_fits(a, nested_clip(outer, inner, content)),
        rect_inter(ls[cur].bounds, rect_apply(a, outer@)) is Some,
        rect_inter(
            rect_inter(ls[cur].bounds, rect_apply(a, outer@))->Some_0,
            rect_apply(a, inner@),
        ) is Some,
    ensures
        ({
            let r = process_spec(ls, a, nested_clip(outer, inner, content), cur);
            let cb1 = rect_inter(ls[cur].bounds, rect_apply(a, outer@))->Some_0;
            let cb2 = rect_inter(cb1, rect_apply(a, inner@))->Some_0;
            &&& r.len() >= ls.len() + 2
            &&& r[ls.len() as int].bounds == cb1
            &&& r[ls.len() as int + 1].bounds == cb2
        }),
{
    let p2 = Primitive::Clip { bounds: inner, content: Box::new(content) };
    let p1 = nested_clip(outer, inner, content);
    let cb1 = rect_inter(ls[cur].bounds, rect_apply(a, outer@))->Some_0;
    let cb2 = rect_inter(cb1, rect_apply(a, inner@))->Some_0;
    assert(prim_fits(a, p2));
    assert(rect_ok(rect_apply(a, inner@)));
    assert(prim_fits(a, content));
    let ls1 = ls.push(empty_layer(cb1));
    assert(process_spec(ls, a, p1, cur) == process_spec(ls1, a, p2, ls.len() as int));
    lemma_rect_inter_ok(ls[cur].bounds, rect_apply(a, outer@));
    assert(layers_ok(ls1)) by {
        assert(forall|i: int| 0 <= i < ls.len() ==> ls1[i].bounds == #[trigger] ls[i].bounds);
        assert(ls1[ls.len() as int].bounds == cb1);
    }
    assert(ls1[ls.len() as int].bounds == cb1);
    let ls2 = ls1.push(empty_layer(cb2));
    assert(process_spec(ls1, a, p2, ls.len() as int) == process_spec(
        ls2,
        a,
        content,
        ls1.len() as int,
    ));
    lemma_rect_inter_ok(cb1, rect_apply(a, inner@));
    assert(layers_ok(ls2)) by {
        assert(forall|i: int| 0 <= i < ls1.len() ==> ls2[i].bounds == #[trigger] ls1[i].bounds);
        assert(ls2[ls1.len() as int].bounds == cb2);
    }
    lemma_process_frame(ls2, a, content, ls1.len() as int);
    assert(process_spec(ls2, a, content, ls1.len() as int)[ls.len() as int].bounds == ls2[ls.len()
        as int].bounds);
    assert(process_spec(ls2, a, content, ls1.len() as int)[ls.len() as int + 1].bounds == ls2[ls
        .len() as int + 1].bounds);
}

impl Layer {
    /// A new layer with the given clipping bounds and no records.
    pub fn new(bounds: Rectangle) -> (r: Layer)
        ensures
            r@ == empty_layer(bounds@),
    {
        Layer {
            bounds,
            quads: Vec::new(),
            meshes: Vec::new(),
            text: Vec::new(),
            images: Vec::new(),
        }
    }

    /// A single layer of diagnostic text lines covering the whole viewport:
    /// each line becomes a shadow copy and, on top of it, a foreground copy
    /// offset by one pixel.
    pub fn overlay(lines: &Vec<String>, viewport: &Viewport) -> (r: Layer)
        requires
            in_i64(11 + 25 * (lines@.len() as int)),
        ensures
            r@.bounds == viewport_rect(*viewport),
            r@.quads.len() == 0,
            r@.meshes.len() == 0,
            r@.images.len() == 0,
            r@.text.len() == 2 * lines@.len(),
            forall|i: int|
                0 <= i < lines@.len() ==> r@.text[2 * i] == overlay_shadow(#[trigger] lines@[i], i)
                    && r@.text[2 * i + 1] == overlay_front(lines@[i], i),
    {
        let mut overlay = Layer::new(Rectangle::with_size(viewport.logical_size()));
        let mut i: usize = 0;
        while i < lines.len()
            invariant
                i <= lines@.len(),
                in_i64(11 + 25 * (lines@.len() as int)),
                overlay@.bounds == viewport_rect(*viewport),
                overlay@.quads.len() == 0,
                overlay@.meshes.len() == 0,
                overlay@.images.len() == 0,
                overlay@.text.len() == 2 * i,
                forall|j: int|
                    0 <= j < i ==> overlay@.text[2 * j] == overlay_shadow(
                        #[trigger] lines@[j],
                        j,
                    ) && overlay@.text[2 * j + 1] == overlay_front(lines@[j], j),
            decreases lines@.len() - i,
        {
            let front_y: i64 = 11 + 25 * (i as i64);
            let shadow = Text {
                content: lines[i].clone(),
                bounds: Rectangle { x: 10, y: front_y - 1, width: COORD_LIMIT, height: COORD_LIMIT },
                color: Color { r: 0, g: 0, b: 0, a: 255 },
                size: 20,
                font: Font::Default,
                horizontal_alignment: Horizontal::Left,
                vertical_alignment: Vertical::Top,
            };
            let front = Text {
                content: lines[i].clone(),
                bounds: Rectangle { x: 11, y: front_y, width: COORD_LIMIT, height: COORD_LIMIT },
                color: Color { r: 230, g: 230, b: 230, a: 255 },
                size: 20,
                font: Font::Default,
                horizontal_alignment: Horizontal::Left,
                vertical_alignment: Vertical::Top,
            };
            overlay.text.push(shadow);
            overlay.text.push(front);
            i = i + 1;
        }
        overlay
    }

    /// Distributes the given primitives and generates the list of layers
    /// their contents belong to: the root layer covering the viewport
    /// first, then one layer per visible `Clip`, in pre-order.
    #[verifier::loop_isolation(false)]
    pub fn generate(primitives: &Vec<Primitive>, viewport: &Viewport) -> (r: Vec<Layer>)
        requires
            viewport_ok(*viewport),
            group_fits(affine_identity(), primitives@),
        ensures
            layer_views(r@) == generate_spec(primitives@, *viewport),
    {
        let first_layer = Layer::new(Rectangle::with_size(viewport.logical_size()));
        let mut layers: Vec<Layer> = Vec::new();
        layers.push(first_layer);
        let ghost init = layer_views(layers@);
        proof {
            assert(init =~~= seq![empty_layer(viewport_rect(*viewport))]);
            lemma_group_fits_index(affine_identity(), primitives@);
            assert(layers_ok(init));
        }
        let transformation = Transformation::identity();
        let mut i: usize = 0;
        while i < primitives.len()
            invariant
                i <= primitives@.len(),
                0 < layers@.len(),
                layers_ok(layer_views(layers@)),
                transformation@ == affine_identity(),
                init == seq![empty_layer(viewport_rect(*viewport))],
                forall|k: int|
                    0 <= k < primitives@.len() ==> prim_fits(
                        affine_identity(),
                        #[trigger] primitives@[k],
                    ),
                layer_views(layers@) == process_seq_spec(
                    init,
                    affine_identity(),
                    primitives@.subrange(0, i as int),
                    0,
                ),
            decreases primitives@.len() - i,
        {
            let ghost prev = layer_views(layers@);
            Self::process_primitive(&mut layers, transformation, &primitives[i], 0);
            proof {
                lemma_process_frame(prev, affine_identity(), primitives@[i as int], 0);
                lemma_process_seq_snoc(
                    init,
                    affine_identity(),
                    primitives@.subrange(0, i as int),
                    primitives@[i as int],
                    0,
                );
                assert(primitives@.subrange(0, i as int).push(primitives@[i as int]) =~= primitives@
                    .subrange(0, i as int + 1));
            }
            i = i + 1;
        }
        proof {
            assert(primitives@.subrange(0, primitives@.len() as int) =~= primitives@);
        }
        layers
    }

    /// Distributes one primitive into the layer at `current_layer`,
    /// appending new layers for the visible `Clip` regions of its subtree.
    #[verifier::loop_isolation(false)]
    fn process_primitive(
        layers: &mut Vec<Layer>,
        transformation: Transformation,
        primitive: &Primitive,
        current_layer: usize,
    )
        requires
            current_layer < old(layers)@.len(),
            layers_ok(layer_views(old(layers)@)),
            prim_fits(transformation@, *primitive),
        ensures
            layer_views(final(layers)@) == process_spec(
                layer_views(old(layers)@),
                transformation@,
                *primitive,
                current_layer as int,
            ),
        decreases *primitive,
    {
        let ghost ls0 = layer_views(layers@);
        let ghost a = transformation@;
        let ghost cur = current_layer as int;
        match primitive {
            Primitive::Empty => {}
            Primitive::Group { primitives } => {
                proof {
                    lemma_group_fits_index(a, primitives@);
                }
                let n = primitives.len();
                let mut idx: usize = 0;
                while idx < n
                    invariant
                        idx <= n,
                        n == primitives@.len(),
                        cur == current_layer as int,
                        current_layer < layers@.len(),
                        layers_ok(layer_views(layers@)),
                        forall|k: int|
                            0 <= k < primitives@.len() ==> prim_fits(a, #[trigger] primitives@[k]),
                        layer_views(layers@) == process_seq_spec(
                            ls0,
                            a,
                            primitives@.subrange(0, idx as int),
                            cur,
                        ),
                    decreases n - idx,
                {
                    let ghost prev = layer_views(layers@);
                    proof {
                        assert(decreases_to!(*primitive => (*primitives)@));
                        assert(decreases_to!((*primitives)@ => (*primitives)@[idx as int]));
                    }
                    Self::process_primitive(layers, transformation, &primitives[idx], current_layer);
                    proof {
                        lemma_process_frame(prev, a, primitives@[idx as int], cur);
                        lemma_process_seq_snoc(
                            ls0,
                            a,
                            primitives@.subrange(0, idx as int),
                            primitives@[idx as int],
                            cur,
                        );
                        assert(primitives@.subrange(0, idx as int).push(primitives@[idx as int])
                            =~= primitives@.subrange(0, idx as int + 1));
                    }
                    idx = idx + 1;
                }
                proof {
                    assert(primitives@.subrange(0, n as int) =~= primitives@);
                }
            }
            Primitive::Text {
                content,
                bounds,
                size,
                color,
                font,
                horizontal_alignment,
                vertical_alignment,
            } => {
                let record = Text {
                    content: content.clone(),
                    bounds: transformation.transform_rectangle(bounds),
                    color: *color,
                    size: transformation.transform_scalar(*size),
                    font: *font,
                    horizontal_alignment: *horizontal_alignment,
                    vertical_alignment: *vertical_alignment,
                };
                proof {
                    assert(record == text_record(
                        a,
                        *content,
                        bounds@,
                        *size,
                        *color,
                        *font,
                        *horizontal_alignment,
                        *vertical_alignment,
                    ));
                }
                let layer = &mut layers[current_layer];
                layer.text.push(record);
                proof {
                    assert(layer_views(layers@) =~~= ls0.update(
                        cur,
                        with_text(ls0[cur], record),
                    ));
                }
            }
            Primitive::Quad { bounds, background, border_radius, border_width, border_color } => {
                let new_bounds = transformation.transform_rectangle(bounds);
                let record = Quad {
                    position: Point { x: new_bounds.x, y: new_bounds.y },
                    size: Size { width: new_bounds.width, height: new_bounds.height },
                    color: match background {
                        Background::Color(c) => *c,
                    },
                    border_radius: transformation.transform_scalar(*border_radius),
                    border_width: transformation.transform_scalar(*border_width),
                    border_color: *border_color,
                };
                proof {
                    assert(record == quad_record(
                        a,
                        bounds@,
                        *background,
                        *border_radius,
                        *border_width,
                        *border_color,
                    ));
                }
                let layer = &mut layers[current_layer];
                layer.quads.push(record);
                proof {
                    assert(layer_views(layers@) =~~= ls0.update(
                        cur,
                        with_quad(ls0[cur], record),
                    ));
                }
            }
            Primitive::Mesh2D { buffers, size, style } => {
                let origin = transformation.transform_point(Point::new(0, 0));
                let bounds_r = Rectangle::new(origin, *size);
                proof {
                    assert(bounds_r@ =~= mesh_bounds(a, *size));
                    assert(rect_ok(ls0[cur].bounds));
                }
                let lb = layers[current_layer].bounds;
                match lb.intersection(&bounds_r) {
                    Some(clip_bounds) => {
                        let record = Mesh {
                            origin,
                            buffers: *buffers,
                            clip_bounds,
                            style: *style,
                        };
                        proof {
                            lemma_rect_inter_ok(ls0[cur].bounds, mesh_bounds(a, *size));
                            assert(record == mesh_record(a, *buffers, clip_bounds@, *style));
                        }
                        let layer = &mut layers[current_layer];
                        layer.meshes.push(record);
                        proof {
                            assert(layer_views(layers@) =~~= ls0.update(
                                cur,
                                with_mesh(ls0[cur], record),
                            ));
                        }
                    }
                    None => {}
                }
            }
            Primitive::Clip { bounds, content } => {
                let transformed = transformation.transform_rectangle(bounds);
                proof {
                    assert(rect_ok(ls0[cur].bounds));
                }
                let lb = layers[current_layer].bounds;
                match lb.intersection(&transformed) {
                    Some(clip_bounds) => {
                        let clip_layer = Layer::new(clip_bounds);
                        layers.push(clip_layer);
                        let idx = layers.len() - 1;
                        let ghost ls1 = ls0.push(empty_layer(clip_bounds@));
                        proof {
                            lemma_rect_inter_ok(ls0[cur].bounds, rect_apply(a, bounds@));
                            assert(layer_views(layers@) =~~= ls1);
                            assert(layers_ok(ls1)) by {
                                assert(forall|i: int|
                                    0 <= i < ls0.len() ==> ls1[i].bounds == #[trigger] ls0[i]
                                        .bounds);
                                assert(ls1[ls0.len() as int].bounds == clip_bounds@);
                            }
                        }
                        Self::process_primitive(layers, transformation, &**content, idx);
                    }
                    None => {}
                }
            }
            Primitive::Translate { translation, content } => {
                let next = transformation.translated(translation.x, translation.y);
                Self::process_primitive(layers, next, &**content, current_layer);
            }
            Primitive::Scale { scale, content } => {
                let next = transformation.scaled(*scale, *scale);
                Self::process_primitive(layers, next, &**content, current_layer);
            }
            Primitive::Cached { cache } => {
                Self::process_primitive(layers, transformation, &**cache, current_layer);
            }
            Primitive::Image { handle, bounds } => {
                let record = Image::Raster {
                    handle: *handle,
                    bounds: transformation.transform_rectangle(bounds),
                };
                proof {
                    assert(record == (Image::Raster {
                        handle: *handle,
                        bounds: rect_of(rect_apply(a, bounds@)),
                    }));
                }
                let layer = &mut layers[current_layer];
                layer.images.push(record);
                proof {
                    assert(layer_views(layers@) =~~= ls0.update(
                        cur,
                        with_image(ls0[cur], record),
                    ));
                }
            }
            Primitive::Svg { handle, bounds } => {
                let record = Image::Vector {
                    handle: *handle,
                    bounds: transformation.transform_rectangle(bounds),
                };
                proof {
                    assert(record == (Image::Vector {
                        handle: *handle,
                        bounds: rect_of(rect_apply(a, bounds@)),
                    }));
                }
                let layer = &mut layers[current_layer];
                layer.images.push(record);
                proof {
                    assert(layer_views(layers@) =~~= ls0.update(
                        cur,
                        with_image(ls0[cur], record),
                    ));
                }
            }
        }
    }
}

} // verus!
