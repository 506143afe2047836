use launchy::query::{parse_device_query, parse_version_query, DeviceIdQuery, DeviceInquiry, VersionInquiry};
use launchy::midi_io::OutputDevice;
use launchy::double_buffering::{
    make_color_code, make_color_code_loopable, Brightness, Buffer, Color as DbColor,
    DoubleBuffering, DoubleBufferingBehavior,
};
use launchy::{Color, LogicalButton, MidiError, Pad, COLOR_UNIT};

#[test]
fn quantize_is_range_correct_on_samples() {
    let samples = [
        Color::new(0, 0, 0),
        Color::new(COLOR_UNIT, COLOR_UNIT, COLOR_UNIT),
        Color::new(-500, 10000, 3),
        Color::new(6144, 2048, -819),
        Color::new(1, 2, 3),
    ];
    for range in [1u8, 2, 4, 64, 128, 255] {
        for c in samples {
            let (r, g, b) = c.quantize(range);
            assert!(r < range && g < range && b < range);
        }
    }
}

#[test]
fn quantize_rescales_proportionally() {
    // one and a half brightness is scaled down to full, the others follow
    let c = Color::new(6144, 2048, -819);
    let (r, g, b) = c.quantize(4);
    // 6144 scales to 4096 -> level capped at 3; 2048 scales to 1365,
    // which is a third of full brightness -> level 1; negative clips to 0
    assert_eq!((r, g, b), (3, 1, 0));
}

#[test]
fn quantize_full_white() {
    assert_eq!(Color::white().quantize(4), (3, 3, 3));
    assert_eq!(Color::black().quantize(4), (0, 0, 0));
    assert_eq!(Color::white().quantize(128), (127, 127, 127));
}

#[test]
fn hue_wheel_closes_at_red() {
    let red = Color::red();
    assert_eq!(Color::from_hue(0), red);
    assert_eq!(Color::from_hue(COLOR_UNIT), red);
    assert_eq!(Color::from_hue(-COLOR_UNIT), red);
}

#[test]
fn hue_wheel_landmarks() {
    // half a revolution away from red sits cyan
    assert_eq!(Color::from_hue(COLOR_UNIT / 2), Color::cyan());
    // a quarter revolution is the yellow-green segment boundary
    let quarter = Color::from_hue(COLOR_UNIT / 4);
    assert_eq!((quarter.r, quarter.g, quarter.b), (COLOR_UNIT / 2, COLOR_UNIT, 0));
}

#[test]
fn red_green_color_keyframes() {
    // green at zero, yellow at a quarter, red at a half
    let quarter = COLOR_UNIT / 4;
    let at0 = Color::red_green_color(0);
    assert_eq!((at0.r, at0.g, at0.b), (0, COLOR_UNIT, 0));
    let at_quarter = Color::red_green_color(quarter);
    assert_eq!((at_quarter.r, at_quarter.g, at_quarter.b), (COLOR_UNIT, COLOR_UNIT, 0));
    let at_half = Color::red_green_color(2 * quarter);
    assert_eq!((at_half.r, at_half.g, at_half.b), (COLOR_UNIT, 0, 0));
}

#[test]
fn color_mix_endpoints() {
    let a = Color::new(100, 200, 300);
    let b = Color::new(500, 600, 700);
    assert_eq!(a.mix(b, 0), a);
    assert_eq!(a.mix(b, COLOR_UNIT), b);
}

#[test]
fn color_arithmetic() {
    let a = Color::new(1, 2, 3);
    let b = Color::new(10, 20, 30);
    assert_eq!(a.add(b), Color::new(11, 22, 33));
    assert_eq!(b.sub(a), Color::new(9, 18, 27));
    assert_eq!(a.scale(3), Color::new(3, 6, 9));
    assert_eq!(b.div_by(10), Color::new(1, 2, 3));
    assert_eq!(a.neg(), Color::new(-1, -2, -3));
}

#[test]
fn color_sum_folds_from_black() {
    let colors = vec![Color::new(1, 2, 3), Color::new(10, 20, 30), Color::new(-5, 0, 5)];
    assert_eq!(Color::sum(&colors), Color::new(6, 22, 38));
    assert_eq!(Color::sum(&Vec::new()), Color::black());
}

#[test]
fn clamp_rescales_by_largest_component() {
    let c = Color::new(-4096, 4096, 3 * 4096).clamp();
    assert_eq!((c.r, c.g, c.b), (0, COLOR_UNIT / 3, COLOR_UNIT));
}

#[test]
fn double_buffering_color_code_packing() {
    // green 2, behavior copy (code 1), red 3: 0b10_01_11
    let code = make_color_code(DbColor::new(3, 2), DoubleBufferingBehavior::Copy);
    assert_eq!(code, 0x27);
    assert_eq!(
        make_color_code(DbColor::new(0, 0), DoubleBufferingBehavior::Neither),
        0
    );
    assert_eq!(
        make_color_code(DbColor::new(1, 0), DoubleBufferingBehavior::Clear),
        0b00_10_01
    );
}

#[test]
fn loopable_color_code_packs_the_loop_bit() {
    assert_eq!(
        make_color_code_loopable(DbColor::new(3, 2), true),
        0b1_10_00_11
    );
    assert_eq!(make_color_code_loopable(DbColor::new(3, 2), false), 0b10_00_11);
}

#[test]
fn pad_movement_and_neighbors() {
    let pad = Pad { x: 3, y: 6 };
    assert_eq!(pad.offset(4, 4), Pad { x: 7, y: 10 });
    assert_eq!(pad.offset(-4, -4), Pad { x: -1, y: 2 });
    assert_eq!(pad.up(1), Pad { x: 3, y: 5 });
    assert_eq!(pad.down(2), Pad { x: 3, y: 8 });
    assert_eq!(pad.left(1), Pad { x: 2, y: 6 });
    assert_eq!(pad.right(1), Pad { x: 4, y: 6 });
    let n4 = pad.neighbors_4();
    assert_eq!(n4.len(), 4);
    assert_eq!(n4[0], Pad { x: 3, y: 5 });
    let n5 = pad.neighbors_5();
    assert_eq!(n5[0], pad);
    assert_eq!(pad.neighbors_8().len(), 8);
    assert_eq!(pad.neighbors_9().len(), 9);
}

#[test]
fn pad_wraps_euclidean() {
    assert_eq!(Pad { x: -1, y: 9 }.wrap_edges(9, 9), Pad { x: 8, y: 0 });
    assert_eq!(Pad { x: 4, y: 4 }.wrap_edges(9, 9), Pad { x: 4, y: 4 });
    assert_eq!(Pad { x: -10, y: -1 }.wrap_edges(9, 9), Pad { x: 8, y: 8 });
}

#[test]
fn pad_to_u32_rejects_negatives() {
    assert_eq!(Pad { x: 1, y: 2 }.to_u32(), Some((1, 2)));
    assert_eq!(Pad { x: -1, y: 2 }.to_u32(), None);
}

#[test]
fn inquiry_request_and_response_codec() {
    let frame = [
        240u8, 126, 5, 6, 2, 0, 32, 41, 1, 2, 3, 4, 1, 2, 3, 4, 247,
    ];
    let parsed = parse_device_query(&frame).unwrap();
    assert_eq!(
        parsed,
        DeviceInquiry {
            device_id: 5,
            family_code: 258,
            family_member_code: 772,
            firmware_revision: 1234,
        }
    );
    assert!(parse_device_query(&frame[..16]).is_none());

    let vframe = [
        240u8, 0, 32, 41, 0, 112, 1, 2, 3, 4, 5, 5, 4, 3, 2, 1, 1, 0, 247,
    ];
    let vparsed = parse_version_query(&vframe).unwrap();
    assert_eq!(
        vparsed,
        VersionInquiry {
            bootloader_version: 12345,
            firmware_version: 54321,
            bootloader_size: 256,
        }
    );
    // a request addressed to any device
    let _ = DeviceIdQuery::Any;
}

#[test]
fn duty_cycle_and_brightness_frames() {
    let mut output = launchy::s::Output::new();
    output.set_duty_cycle(1, 5).unwrap();
    output.turn_on_all_leds(Brightness::Medium).unwrap();
    output
        .control_double_buffering(DoubleBuffering {
            copy: false,
            flash: true,
            edited_buffer: Buffer::A,
            displayed_buffer: Buffer::B,
        })
        .unwrap();
    let frames = output.take_frames();
    assert_eq!(frames[0], vec![0xB0, 30, 2]);
    assert_eq!(frames[1], vec![0xB0, 0, 126]);
    assert_eq!(frames[2], vec![0xB0, 0, 0b00101001]);
}

#[test]
fn error_descriptions_are_stable() {
    assert_eq!(
        MidiError::NoPortFound { keyword: "Launchpad S" }.description(),
        "couldn't find a matching port"
    );
    assert_eq!(
        MidiError::SendError.description(),
        "sending MIDI message failed"
    );
}

#[test]
fn port_guessing_picks_the_first_match() {
    let names = vec![
        "Some Synth".to_string(),
        "Launchpad S MIDI 1".to_string(),
        "Launchpad S MIDI 2".to_string(),
    ];
    assert_eq!(launchy::find_matching_port(&names, "Launchpad S"), Some(1));
    assert_eq!(launchy::find_matching_port(&names, "Launch Control"), None);
    assert_eq!(launchy::find_matching_port(&names, "Synth"), Some(0));
}

#[test]
fn button_classification_and_abs_mapping() {
    let grid = LogicalButton::grid(8, 3);
    assert!(grid.is_scene_launch_button());
    assert!(!grid.is_main_grid_button());
    assert_eq!(grid.abs_x(), 8);
    assert_eq!(grid.abs_y(), 4);
    let control = LogicalButton::control(5);
    assert!(control.is_top_control_button());
    assert_eq!(control.abs_y(), 0);
    assert_eq!(LogicalButton::from_abs(2, 0), LogicalButton::control(2));
    assert_eq!(LogicalButton::from_abs(2, 3), LogicalButton::grid(2, 2));
}
