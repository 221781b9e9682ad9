use graphics::geometry::COORD_LIMIT;
use graphics::layer::{Layer, Viewport};

#[test]
fn overlay_emits_shadow_and_foreground_per_line() {
    let lines = vec![String::from("fps: 60")];
    let layer = Layer::overlay(&lines, &Viewport { width: 300, height: 300 });

    assert_eq!(layer.text.len(), 2);
    let shadow = &layer.text[0];
    let front = &layer.text[1];

    // Both records carry the same line, size, font and alignment; they
    // differ only in color and a (-1, -1) offset of the shadow.
    assert_eq!(shadow.content, "fps: 60");
    assert_eq!(front.content, "fps: 60");
    assert_eq!(shadow.size, front.size);
    assert_eq!(shadow.font, front.font);
    assert_eq!(shadow.horizontal_alignment, front.horizontal_alignment);
    assert_eq!(shadow.vertical_alignment, front.vertical_alignment);
    assert_eq!(shadow.bounds.x, front.bounds.x - 1);
    assert_eq!(shadow.bounds.y, front.bounds.y - 1);
    assert_eq!(shadow.bounds.width, front.bounds.width);
    assert_eq!(shadow.bounds.height, front.bounds.height);
    assert_ne!(shadow.color, front.color);
}

#[test]
fn overlay_places_each_line_on_its_own_row() {
    let lines = vec![String::from("a"), String::from("b"), String::from("c")];
    let layer = Layer::overlay(&lines, &Viewport { width: 640, height: 480 });

    assert_eq!(layer.text.len(), 6);
    for (i, line) in lines.iter().enumerate() {
        let front = &layer.text[2 * i + 1];
        assert_eq!(&front.content, line);
        assert_eq!(front.bounds.x, 11);
        assert_eq!(front.bounds.y, 11 + 25 * i as i64);
        assert_eq!(front.bounds.width, COORD_LIMIT);
        assert_eq!(front.size, 20);
    }
}

#[test]
fn overlay_of_no_lines_is_empty_but_covers_viewport() {
    let layer = Layer::overlay(&vec![], &Viewport { width: 120, height: 90 });
    assert!(layer.text.is_empty());
    assert!(layer.quads.is_empty());
    assert_eq!(layer.bounds.width, 120);
    assert_eq!(layer.bounds.height, 90);
}
