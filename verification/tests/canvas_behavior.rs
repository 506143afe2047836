use launchy::Array2d;
use launchy::{
    Canvas, CanvasLayout, CanvasMessage, Color, LayoutError, MockCanvas, Pad, PaddingCanvas,
    Rotation, COLOR_UNIT,
};

#[test]
fn canvas_round_trip_through_flush() {
    let mut canvas = MockCanvas::new(9, 9);
    let pad = Pad { x: 5, y: 5 };
    let red = Color::red();
    assert_eq!(canvas.get(pad), Some(Color::black()));
    canvas.set(pad, red).unwrap();
    // the write is only pending until the flush
    assert_eq!(canvas.get(pad), Some(Color::black()));
    assert_eq!(canvas.get_pending(pad), Some(red));
    canvas.flush().unwrap();
    assert_eq!(canvas.get(pad), Some(red));
    // the pending state is untouched by the flush
    assert_eq!(canvas.get_pending(pad), Some(red));
    canvas.flush().unwrap();
    assert_eq!(canvas.get(pad), Some(red));
}

#[test]
fn out_of_bounds_pads_are_rejected() {
    let mut canvas = MockCanvas::new(4, 4);
    assert_eq!(canvas.get(Pad { x: -1, y: 0 }), None);
    assert_eq!(canvas.get(Pad { x: 4, y: 0 }), None);
    assert_eq!(canvas.set(Pad { x: 0, y: 9 }, Color::red()), None);
    assert!(!canvas.is_valid(Pad { x: 4, y: 4 }));
    assert!(canvas.is_valid(Pad { x: 3, y: 3 }));
}

#[test]
fn toggle_flips_between_color_and_black() {
    let mut canvas = MockCanvas::new(3, 3);
    let pad = Pad { x: 1, y: 1 };
    let white = Color::white();
    canvas.toggle(pad, white).unwrap();
    assert_eq!(canvas.get_pending(pad), Some(white));
    canvas.toggle(pad, white).unwrap();
    assert_eq!(canvas.get_pending(pad), Some(Color::black()));
    canvas.toggle(pad, white).unwrap();
    assert_eq!(canvas.get_pending(pad), Some(white));
}

#[test]
fn clear_blacks_out_every_cell() {
    let mut canvas = MockCanvas::new(3, 2);
    canvas.set(Pad { x: 2, y: 1 }, Color::cyan()).unwrap();
    canvas.clear();
    for y in 0..2 {
        for x in 0..3 {
            assert_eq!(canvas.get_pending(Pad { x, y }), Some(Color::black()));
        }
    }
}

#[test]
fn iteration_covers_exactly_the_valid_set() {
    // a 9 by 9 device whose top-right cell does not exist
    let output = launchy::s::Output::new();
    let canvas = launchy::s::Canvas::new(output).unwrap();
    let mut iter = canvas.iter();
    let mut pads = Vec::new();
    while let Some(pad) = iter.next() {
        pads.push(pad);
    }
    assert_eq!(pads.len(), 80);
    assert!(!pads.contains(&Pad { x: 8, y: 0 }));
    for pad in &pads {
        assert!(canvas.is_valid(*pad));
    }
    // iterating twice yields the identical ordered sequence
    let mut iter2 = canvas.iter();
    let mut pads2 = Vec::new();
    while let Some(pad) = iter2.next() {
        pads2.push(pad);
    }
    assert_eq!(pads, pads2);
}

#[test]
fn layout_overlap_is_rejected_at_add_time() {
    let mut layout: CanvasLayout<MockCanvas> = CanvasLayout::new();
    layout
        .add(0, 0, Rotation::Upright, MockCanvas::new(4, 4))
        .unwrap();
    // a second canvas landing on the same global cells is refused
    let result = layout.add(3, 3, Rotation::Upright, MockCanvas::new(4, 4));
    match result {
        Err(LayoutError::Overlap { x, y }) => {
            assert!(x == 3 && y == 3);
        },
        other => panic!("expected an overlap rejection, got {:?}", other.is_ok()),
    }
    // a disjoint placement is accepted
    layout
        .add(4, 0, Rotation::Upright, MockCanvas::new(4, 4))
        .unwrap();
}

#[test]
fn layout_rejects_unrepresentable_placements() {
    // a left rotation at the origin would send cells to negative
    // coordinates
    let mut layout: CanvasLayout<MockCanvas> = CanvasLayout::new();
    let result = layout.add(0, 0, Rotation::Left, MockCanvas::new(2, 2));
    assert!(matches!(result, Err(LayoutError::OutOfRange)));
    // with a sufficient offset the same rotation fits
    layout.add(4, 0, Rotation::Left, MockCanvas::new(2, 2)).unwrap();
}

#[test]
fn layout_writes_reach_the_right_cells() {
    let mut layout: CanvasLayout<MockCanvas> = CanvasLayout::new();
    layout
        .add(0, 0, Rotation::Upright, MockCanvas::new(2, 2))
        .unwrap();
    layout
        .add(2, 0, Rotation::Upright, MockCanvas::new(2, 2))
        .unwrap();
    assert_eq!(layout.bounding_box(), (4, 2));
    assert!(layout.is_valid(Pad { x: 3, y: 1 }));
    assert!(!layout.is_valid(Pad { x: 4, y: 0 }));
    let white = Color::white();
    layout.set(Pad { x: 2, y: 1 }, white).unwrap();
    assert_eq!(layout.get_pending(Pad { x: 2, y: 1 }), Some(white));
    layout.flush().unwrap();
    assert_eq!(layout.get(Pad { x: 2, y: 1 }), Some(white));
}

#[test]
fn rotation_translation_round_trips() {
    let rotations = [
        Rotation::Upright,
        Rotation::Left,
        Rotation::Right,
        Rotation::UpsideDown,
    ];
    for rotation in rotations {
        for x in -3i32..4 {
            for y in -3i32..4 {
                let (gx, gy) = rotation.translate(x, y);
                let (bx, by) = rotation.inverse().translate(gx, gy);
                assert_eq!((bx, by), (x, y));
            }
        }
    }
}

#[test]
fn rotation_translate_matches_the_wheel() {
    assert_eq!(Rotation::Upright.translate(2, 1), (2, 1));
    assert_eq!(Rotation::UpsideDown.translate(2, 1), (-2, -1));
    assert_eq!(Rotation::Left.translate(2, 1), (-1, 2));
    assert_eq!(Rotation::Right.translate(2, 1), (1, -2));
}

#[test]
fn brightness_transform_fixes_full_brightness() {
    let white = Color::white();
    for source in [0, 64, 1024, 2048, 4095] {
        for target in [0, 64, 1024, COLOR_UNIT] {
            let t = launchy::transform_color(white, source, target);
            assert_eq!(t, white);
        }
    }
}

#[test]
fn brightness_transform_compresses_black() {
    // black is raised exactly to the target floor when the source floor is zero
    let t = launchy::transform_color(Color::black(), 0, 64);
    assert_eq!(t, Color::new(64, 64, 64));
}

#[test]
fn padding_canvas_keeps_virtual_pixels() {
    let output = launchy::s::Output::new();
    let inner = launchy::s::Canvas::new(output).unwrap();
    let mut padded = PaddingCanvas::from(inner);
    // the hole at (8, 0) behaves like a normal cell now
    let hole = Pad { x: 8, y: 0 };
    assert!(padded.is_valid(hole));
    padded.set(hole, Color::magenta()).unwrap();
    assert_eq!(padded.get_pending(hole), Some(Color::magenta()));
    padded.flush().unwrap();
    assert_eq!(padded.get(hole), Some(Color::magenta()));
}

#[test]
fn canvas_messages_expose_their_coordinates() {
    let press = CanvasMessage::Press { x: 3, y: 4 };
    let release = CanvasMessage::Release { x: 5, y: 6 };
    assert_eq!(press.x(), 3);
    assert_eq!(press.y(), 4);
    assert!(press.is_press());
    assert!(!press.is_release());
    assert!(release.is_release());
    assert_eq!(press.pad(), Pad { x: 3, y: 4 });
    assert_eq!(release.pad(), Pad { x: 5, y: 6 });
}

#[test]
fn array2d_bounds_checked_access() {
    let mut grid: Array2d<u8> = Array2d::new(3, 2, 7);
    assert_eq!(grid.width(), 3);
    assert_eq!(grid.height(), 2);
    assert_eq!(grid.get(2, 1), Some(7));
    assert_eq!(grid.get(3, 0), None);
    assert!(grid.set(1, 1, 42));
    assert_eq!(grid.get(1, 1), Some(42));
    assert!(!grid.set(9, 9, 1));
    let copy = grid.duplicate();
    assert_eq!(copy.get(1, 1), Some(42));
}

#[test]
fn layout_flush_distributes_through_the_device() {
    let output = launchy::mini_mk3::Output::new();
    let mut inner = launchy::mini_mk3::Canvas::new(output).unwrap();
    // drop the connect-time layout-select frame
    let setup = inner.take_wire_frames();
    assert_eq!(setup, vec![vec![240, 0, 32, 41, 2, 13, 14, 1, 247]]);

    let mut layout: CanvasLayout<launchy::mini_mk3::Canvas> = CanvasLayout::new();
    layout.add(0, 0, Rotation::Upright, inner).unwrap();
    // a mid-brightness color, so the brightness rescaling is visible
    layout.set(Pad { x: 0, y: 1 }, Color::new(2048, 2048, 2048)).unwrap();
    layout.flush().unwrap();
    let frames = layout.take_wire_frames();
    assert_eq!(frames.len(), 1);
    // the cell lands on the device's local (0, 1), the top-left grid
    // button, and the color is rescaled from the layout's quarter-unit
    // floor to the device's own floor before quantizing
    assert_eq!(frames[0], vec![240, 0, 32, 41, 2, 13, 3, 3, 81, 43, 43, 43, 247]);
    // a full-brightness write stays at full brightness
    layout.set(Pad { x: 1, y: 1 }, Color::white()).unwrap();
    layout.flush().unwrap();
    let frames = layout.take_wire_frames();
    assert_eq!(frames[0], vec![240, 0, 32, 41, 2, 13, 3, 3, 82, 127, 127, 127, 247]);
}

#[test]
fn layout_placements_are_readable() {
    let mut layout: CanvasLayout<MockCanvas> = CanvasLayout::new();
    layout.add(3, 1, Rotation::UpsideDown, MockCanvas::new(1, 1)).unwrap();
    assert_eq!(layout.device_count(), 1);
    assert_eq!(layout.device_placement(0), (3, 1, Rotation::UpsideDown));
}

#[test]
fn messages_translate_through_placements() {
    let press = CanvasMessage::Press { x: 1, y: 2 };
    assert_eq!(
        launchy::translate_canvas_message(press, Rotation::Left, 10, 10),
        Some(CanvasMessage::Press { x: 8, y: 11 })
    );
    let release = CanvasMessage::Release { x: 0, y: 3 };
    assert_eq!(
        launchy::translate_canvas_message(release, Rotation::Upright, 2, 2),
        Some(CanvasMessage::Release { x: 2, y: 5 })
    );
    // a translation that leaves the coordinate space yields nothing
    assert_eq!(
        launchy::translate_canvas_message(press, Rotation::UpsideDown, 0, 0),
        None
    );
}
