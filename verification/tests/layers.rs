use graphics::geometry::{Color, Rectangle, Size, Vector};
use graphics::layer::{Image, Layer, Viewport};
use graphics::primitive::{Background, Font, Horizontal, MeshStyle, Primitive, Vertical};

fn viewport() -> Viewport {
    Viewport { width: 300, height: 300 }
}

fn plain_quad(x: i64, y: i64, width: i64, height: i64) -> Primitive {
    Primitive::Quad {
        bounds: Rectangle { x, y, width, height },
        background: Background::Color(Color::new(255, 0, 0, 255)),
        border_radius: 4,
        border_width: 2,
        border_color: Color::new(0, 0, 255, 255),
    }
}

#[test]
fn empty_input_yields_single_empty_root_layer() {
    let layers = Layer::generate(&vec![], &viewport());
    assert_eq!(layers.len(), 1);
    let root = &layers[0];
    assert_eq!(root.bounds, Rectangle { x: 0, y: 0, width: 300, height: 300 });
    assert!(root.quads.is_empty());
    assert!(root.meshes.is_empty());
    assert!(root.text.is_empty());
    assert!(root.images.is_empty());
}

#[test]
fn translated_quad_moves_position_and_keeps_size() {
    let tree = vec![Primitive::Translate {
        translation: Vector::new(5, 5),
        content: Box::new(plain_quad(10, 10, 50, 50)),
    }];
    let layers = Layer::generate(&tree, &viewport());
    assert_eq!(layers.len(), 1);
    assert_eq!(layers[0].quads.len(), 1);
    let quad = &layers[0].quads[0];
    assert_eq!((quad.position.x, quad.position.y), (15, 15));
    assert_eq!((quad.size.width, quad.size.height), (50, 50));
    assert_eq!(quad.color, Color::new(255, 0, 0, 255));
    assert_eq!(quad.border_radius, 4);
    assert_eq!(quad.border_width, 2);
}

#[test]
fn quad_outside_clip_is_kept_for_the_renderer_scissor() {
    // The quad lies entirely outside the clip's own bounds, but quads do not
    // self-cull: the record must still land in the clip's layer, and the
    // renderer's scissor rectangle does the cutting.
    let tree = vec![Primitive::Clip {
        bounds: Rectangle { x: 0, y: 0, width: 100, height: 100 },
        content: Box::new(plain_quad(200, 200, 10, 10)),
    }];
    let layers = Layer::generate(&tree, &viewport());
    assert_eq!(layers.len(), 2);
    assert_eq!(layers[1].bounds, Rectangle { x: 0, y: 0, width: 100, height: 100 });
    assert_eq!(layers[0].quads.len(), 0);
    assert_eq!(layers[1].quads.len(), 1);
    let quad = &layers[1].quads[0];
    assert_eq!((quad.position.x, quad.position.y), (200, 200));
    assert_eq!((quad.size.width, quad.size.height), (10, 10));
}

#[test]
fn clip_outside_viewport_prunes_whole_subtree() {
    let tree = vec![Primitive::Clip {
        bounds: Rectangle { x: 500, y: 500, width: 10, height: 10 },
        content: Box::new(plain_quad(0, 0, 5, 5)),
    }];
    let layers = Layer::generate(&tree, &viewport());
    assert_eq!(layers.len(), 1);
    assert!(layers[0].quads.is_empty());
}

#[test]
fn nested_clips_create_two_layers_in_preorder_with_chained_intersections() {
    let tree = vec![Primitive::Clip {
        bounds: Rectangle { x: 0, y: 0, width: 100, height: 100 },
        content: Box::new(Primitive::Clip {
            bounds: Rectangle { x: 50, y: 50, width: 100, height: 100 },
            content: Box::new(plain_quad(60, 60, 5, 5)),
        }),
    }];
    let layers = Layer::generate(&tree, &viewport());
    assert_eq!(layers.len(), 3);
    assert_eq!(layers[1].bounds, Rectangle { x: 0, y: 0, width: 100, height: 100 });
    // inner bounds: outer clip ∩ inner clip ∩ viewport
    assert_eq!(layers[2].bounds, Rectangle { x: 50, y: 50, width: 50, height: 50 });
    assert_eq!(layers[2].quads.len(), 1);
}

#[test]
fn group_preserves_order_within_a_layer() {
    let tree = vec![Primitive::Group {
        primitives: vec![plain_quad(0, 0, 1, 1), plain_quad(2, 2, 3, 3)],
    }];
    let layers = Layer::generate(&tree, &viewport());
    assert_eq!(layers[0].quads.len(), 2);
    assert_eq!(layers[0].quads[0].position.x, 0);
    assert_eq!(layers[0].quads[1].position.x, 2);
}

#[test]
fn scale_applies_to_position_size_and_border_metrics() {
    let tree = vec![Primitive::Scale {
        scale: 2,
        content: Box::new(plain_quad(10, 10, 50, 50)),
    }];
    let layers = Layer::generate(&tree, &viewport());
    let quad = &layers[0].quads[0];
    assert_eq!((quad.position.x, quad.position.y), (20, 20));
    assert_eq!((quad.size.width, quad.size.height), (100, 100));
    assert_eq!(quad.border_radius, 8);
    assert_eq!(quad.border_width, 4);
}

#[test]
fn cached_subtree_is_processed_transparently() {
    let tree = vec![Primitive::Cached { cache: Box::new(plain_quad(1, 2, 3, 4)) }];
    let layers = Layer::generate(&tree, &viewport());
    assert_eq!(layers[0].quads.len(), 1);
    assert_eq!(layers[0].quads[0].position.y, 2);
}

#[test]
fn empty_primitive_contributes_nothing() {
    let layers = Layer::generate(&vec![Primitive::Empty], &viewport());
    assert_eq!(layers.len(), 1);
    assert!(layers[0].quads.is_empty());
    assert!(layers[0].text.is_empty());
}

#[test]
fn text_is_transformed_and_appended_to_current_layer() {
    let tree = vec![Primitive::Translate {
        translation: Vector::new(100, 0),
        content: Box::new(Primitive::Text {
            content: String::from("hello"),
            bounds: Rectangle { x: 1, y: 2, width: 30, height: 10 },
            size: 16,
            color: Color::new(9, 9, 9, 255),
            font: Font::Default,
            horizontal_alignment: Horizontal::Left,
            vertical_alignment: Vertical::Top,
        }),
    }];
    let layers = Layer::generate(&tree, &viewport());
    assert_eq!(layers[0].text.len(), 1);
    let text = &layers[0].text[0];
    assert_eq!(text.content, "hello");
    assert_eq!(text.bounds, Rectangle { x: 101, y: 2, width: 30, height: 10 });
    assert_eq!(text.size, 16);
}

#[test]
fn visible_mesh_keeps_origin_and_clipped_bounds() {
    let tree = vec![Primitive::Translate {
        translation: Vector::new(250, 250),
        content: Box::new(Primitive::Mesh2D {
            buffers: 7,
            size: Size::new(100, 100),
            style: MeshStyle::Solid(Color::new(0, 255, 0, 255)),
        }),
    }];
    let layers = Layer::generate(&tree, &viewport());
    assert_eq!(layers[0].meshes.len(), 1);
    let mesh = &layers[0].meshes[0];
    assert_eq!((mesh.origin.x, mesh.origin.y), (250, 250));
    assert_eq!(mesh.buffers, 7);
    // clipped to the root layer
    assert_eq!(mesh.clip_bounds, Rectangle { x: 250, y: 250, width: 50, height: 50 });
}

#[test]
fn mesh_outside_its_layer_is_dropped() {
    let tree = vec![Primitive::Translate {
        translation: Vector::new(400, 400),
        content: Box::new(Primitive::Mesh2D {
            buffers: 7,
            size: Size::new(10, 10),
            style: MeshStyle::Gradient(3),
        }),
    }];
    let layers = Layer::generate(&tree, &viewport());
    assert!(layers[0].meshes.is_empty());
}

#[test]
fn images_and_svgs_become_raster_and_vector_records() {
    let tree = vec![
        Primitive::Image { handle: 11, bounds: Rectangle { x: 0, y: 0, width: 10, height: 10 } },
        Primitive::Svg { handle: 12, bounds: Rectangle { x: 5, y: 5, width: 10, height: 10 } },
    ];
    let layers = Layer::generate(&tree, &viewport());
    assert_eq!(layers[0].images.len(), 2);
    assert_eq!(
        layers[0].images[0],
        Image::Raster { handle: 11, bounds: Rectangle { x: 0, y: 0, width: 10, height: 10 } }
    );
    assert_eq!(
        layers[0].images[1],
        Image::Vector { handle: 12, bounds: Rectangle { x: 5, y: 5, width: 10, height: 10 } }
    );
}

#[test]
fn new_layer_starts_empty() {
    let bounds = Rectangle { x: 1, y: 2, width: 3, height: 4 };
    let layer = Layer::new(bounds);
    assert_eq!(layer.bounds, bounds);
    assert!(layer.quads.is_empty());
    assert!(layer.meshes.is_empty());
    assert!(layer.text.is_empty());
    assert!(layer.images.is_empty());
}
