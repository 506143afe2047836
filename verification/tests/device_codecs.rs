use launchy::midi_io::OutputDevice;
use launchy::Canvas;
use launchy::control;
use launchy::mini_mk3;
use launchy::mk2;

#[test]
fn classic_input_decode() {
    // grid note-on with full velocity is a press of the top-left cell
    assert_eq!(
        launchy::s::decode(0, &[0x90, 0, 127]),
        Some(launchy::s::Message::Press { button: launchy::s::Button::GridButton { x: 0, y: 0 } })
    );
    // zero velocity is the release of the same button
    assert_eq!(
        launchy::s::decode(0, &[0x90, 0, 0]),
        Some(launchy::s::Message::Release { button: launchy::s::Button::GridButton { x: 0, y: 0 } })
    );
    // the control row arrives as control changes on 104 and up
    assert_eq!(
        launchy::s::decode(0, &[0xB0, 104, 127]),
        Some(launchy::s::Message::Press { button: launchy::s::Button::ControlButton { index: 0 } })
    );
    assert_eq!(launchy::s::decode(0, &[0xB0, 0, 3]), Some(launchy::s::Message::TextEndedOrLooped));
    // a grid note decodes x from the low nibble and y from the high one
    assert_eq!(
        launchy::s::decode(0, &[0x90, 0x25, 127]),
        Some(launchy::s::Message::Press { button: launchy::s::Button::GridButton { x: 5, y: 2 } })
    );
    // an unexpected velocity is not a recognized message
    assert_eq!(launchy::s::decode(0, &[0x90, 0, 64]), None);
    // another short message is kept as unknown
    assert!(matches!(
        launchy::s::decode(0, &[0x91, 1, 2]),
        Some(launchy::s::Message::UnknownShortMessage { .. })
    ));
}

#[test]
fn classic_lighting_frames() {
    let mut output = launchy::s::Output::new();
    output
        .set_button(
            launchy::s::Button::GridButton { x: 2, y: 1 },
            launchy::s::Color::new(3, 0),
            launchy::s::DoubleBufferingBehavior::Copy,
        )
        .unwrap();
    output
        .light(launchy::s::Button::ControlButton { index: 4 }, launchy::s::Color::new(0, 3))
        .unwrap();
    output
        .set_button_rapid(
            launchy::s::Color::new(3, 3),
            launchy::s::DoubleBufferingBehavior::Neither,
            launchy::s::Color::new(1, 1),
            launchy::s::DoubleBufferingBehavior::Neither,
        )
        .unwrap();
    let frames = output.take_frames();
    assert_eq!(frames[0], vec![0x90, 18, 0b00_01_11]);
    assert_eq!(frames[1], vec![0xB0, 108, 0b11_01_00]);
    assert_eq!(frames[2], vec![0x92, 0b110011, 0b010001]);
}

#[test]
fn classic_scroll_text_frame() {
    let mut output = launchy::s::Output::new();
    output.scroll_text(b"Hi", launchy::s::Color::new(3, 0), true).unwrap();
    let frames = output.take_frames();
    assert_eq!(frames[0], vec![240, 0, 32, 41, 9, 0b1000011, b'H', b'i', 247]);
}

#[test]
fn mini_light_all_rapid_covers_forty_messages() {
    let mut output = launchy::mini::Output::new();
    // the first queued frame selects the session mapping mode
    let setup = output.take_frames();
    assert_eq!(setup, vec![vec![240, 0, 32, 41, 2, 24, 34, 0, 247]]);
    output.light_all_rapid(launchy::mini::Color::new(3, 3)).unwrap();
    let frames = output.take_frames();
    assert_eq!(frames.len(), 40);
    for frame in frames {
        assert_eq!(frame, vec![0x92, 0b110011, 0b110011]);
    }
}

#[test]
fn mk2_single_and_batch_frames() {
    let mut output = mk2::Output::new();
    let setup = output.take_frames();
    assert_eq!(setup, vec![vec![240, 0, 32, 41, 2, 24, 34, 0, 247]]);
    // the grid counts from the bottom left in steps of ten
    output
        .set_button(mk2::Button::GridButton { x: 0, y: 0 }, mk2::PaletteColor::red(), mk2::LightMode::Plain)
        .unwrap();
    output
        .flash(mk2::Button::ControlButton { index: 2 }, mk2::PaletteColor::new(9))
        .unwrap();
    output
        .light_multiple_rgb(&[(mk2::Button::GridButton { x: 1, y: 0 }, mk2::RgbColor::new(63, 0, 63))])
        .unwrap();
    output
        .light_multiple(&[
            (mk2::Button::GridButton { x: 0, y: 1 }, mk2::PaletteColor::new(18)),
            (mk2::Button::GridButton { x: 0, y: 2 }, mk2::PaletteColor::new(18)),
        ])
        .unwrap();
    output
        .flash_multiple(&[(mk2::Button::GridButton { x: 2, y: 1 }, mk2::PaletteColor::new(5))])
        .unwrap();
    output.light_all(mk2::PaletteColor::new(1)).unwrap();
    output.light_rows(&[(1, mk2::PaletteColor::new(3))]).unwrap();
    output.light_column(0, mk2::PaletteColor::new(4)).unwrap();
    let frames = output.take_frames();
    assert_eq!(frames[0], vec![0x90, 81, 5]);
    assert_eq!(frames[1], vec![0xB1, 106, 9]);
    assert_eq!(frames[2], vec![240, 0, 32, 41, 2, 24, 11, 82, 63, 0, 63, 247]);
    // a plain batch carries plain pairs
    assert_eq!(frames[3], vec![240, 0, 32, 41, 2, 24, 10, 71, 18, 61, 18, 247]);
    // flash and pulse batches need a leading null byte per entry
    assert_eq!(frames[4], vec![240, 0, 32, 41, 2, 24, 35, 0, 73, 5, 247]);
    assert_eq!(frames[5], vec![240, 0, 32, 41, 2, 24, 14, 1, 247]);
    // rows are addressed from the top, the device counts from the bottom
    assert_eq!(frames[6], vec![240, 0, 32, 41, 2, 24, 13, 7, 3, 247]);
    assert_eq!(frames[7], vec![240, 0, 32, 41, 2, 24, 12, 0, 4, 247]);
}

#[test]
fn mk2_fader_mode_frames() {
    let output = mk2::Output::new();
    let mut fader_mode = output.enter_fader_mode(mk2::FaderType::Volume).unwrap();
    fader_mode
        .designate_faders(&[mk2::Fader::new(0, mk2::PaletteColor::new(37), 100)])
        .unwrap();
    fader_mode.set_fader(0, 64).unwrap();
    let mut output = fader_mode.exit().unwrap();
    let frames = output.take_frames();
    // the session layout on connect, the volume layout entering the mode
    assert_eq!(frames[0], vec![240, 0, 32, 41, 2, 24, 34, 0, 247]);
    assert_eq!(frames[1], vec![240, 0, 32, 41, 2, 24, 34, 4, 247]);
    assert_eq!(frames[2], vec![240, 0, 32, 41, 2, 24, 43, 0, 0, 37, 100, 247]);
    assert_eq!(frames[3], vec![176, 21, 64]);
    // leaving the mode reselects the session layout
    assert_eq!(frames[4], vec![240, 0, 32, 41, 2, 24, 34, 0, 247]);
}

#[test]
fn mk2_input_decode() {
    assert_eq!(
        mk2::decode(0, &[0x90, 81, 127]),
        Some(mk2::Message::Press { button: mk2::Button::GridButton { x: 0, y: 0 } })
    );
    assert_eq!(
        mk2::decode(0, &[0xB0, 21, 99]),
        Some(mk2::Message::FaderChange { index: 0, value: 99 })
    );
    assert_eq!(
        mk2::decode(0, &[240, 0, 32, 41, 2, 24, 21, 247]),
        Some(mk2::Message::TextEndedOrLooped)
    );
    assert_eq!(mk2::decode(0, &[0x90, 0, 127]), None);
}

#[test]
fn mk3_lighting_and_state_frames() {
    let mut output = mini_mk3::Output::new();
    let setup = output.take_frames();
    assert_eq!(setup, vec![vec![240, 0, 32, 41, 2, 13, 14, 1, 247]]);
    output
        .light(mini_mk3::Button::GridButton { x: 0, y: 0 }, mini_mk3::PaletteColor::red())
        .unwrap();
    output
        .light(mini_mk3::Button::ControlButton { index: 0 }, mini_mk3::PaletteColor::red())
        .unwrap();
    output
        .set_buttons(&[
            (mini_mk3::Button::GridButton { x: 1, y: 0 }, mini_mk3::ButtonStyle::rgb(mini_mk3::RgbColor::new(127, 0, 127))),
            (
                mini_mk3::Button::GridButton { x: 2, y: 0 },
                mini_mk3::ButtonStyle::flash2(mini_mk3::PaletteColor::new(5), mini_mk3::PaletteColor::new(0)),
            ),
            (mini_mk3::Button::GridButton { x: 3, y: 0 }, mini_mk3::ButtonStyle::pulse(mini_mk3::PaletteColor::new(9))),
        ])
        .unwrap();
    output.send_sleep(mini_mk3::SleepMode::Sleep).unwrap();
    output.set_brightness(20).unwrap();
    output.request_brightness().unwrap();
    output.scroll_text(b"Yo", mini_mk3::PaletteColor::new(45), 10, true).unwrap();
    output.stop_scroll().unwrap();
    let frames = output.take_frames();
    assert_eq!(frames[0], vec![0x90, 81, 5]);
    assert_eq!(frames[1], vec![0xB0, 91, 5]);
    assert_eq!(
        frames[2],
        vec![240, 0, 32, 41, 2, 13, 3, 3, 82, 127, 0, 127, 1, 83, 0, 5, 2, 84, 9, 247]
    );
    assert_eq!(frames[3], vec![240, 0, 32, 41, 2, 13, 9, 0, 247]);
    assert_eq!(frames[4], vec![240, 0, 32, 41, 2, 13, 8, 20, 247]);
    assert_eq!(frames[5], vec![240, 0, 32, 41, 2, 13, 8, 247]);
    assert_eq!(
        frames[6],
        vec![240, 0, 32, 41, 2, 13, 7, 1, 10, 0, 45, b'Y', b'o', 247]
    );
    assert_eq!(frames[7], vec![240, 0, 32, 41, 2, 13, 7, 247]);
}

#[test]
fn mk3_light_all_fills_all_81_cells() {
    let mut output = mini_mk3::Output::new();
    let _ = output.take_frames();
    output.light_all(mini_mk3::PaletteColor::new(1)).unwrap();
    let frames = output.take_frames();
    assert_eq!(frames.len(), 1);
    let frame = &frames[0];
    assert_eq!(frame.len(), 7 + 81 * 3 + 1);
    assert_eq!(&frame[..7], &[240, 0, 32, 41, 2, 13, 3]);
    assert_eq!(frame[7..10], [0, 11, 1]);
    assert_eq!(frame[frame.len() - 4..frame.len() - 1], [0, 99, 1]);
}

#[test]
fn mk3_input_decode() {
    assert_eq!(
        mini_mk3::decode(0, &[0x90, 81, 127]),
        Some(mini_mk3::Message::Press { button: mini_mk3::Button::GridButton { x: 0, y: 0 } })
    );
    // the device can report a release as a note-off with a fixed byte
    assert_eq!(
        mini_mk3::decode(0, &[0x80, 81, 0x40]),
        Some(mini_mk3::Message::Release { button: mini_mk3::Button::GridButton { x: 0, y: 0 } })
    );
    assert_eq!(mini_mk3::decode(0, &[0x80, 81, 0x41]), None);
    // the top row decodes through control numbers 91 and up
    assert_eq!(
        mini_mk3::decode(0, &[0xB0, 93, 127]),
        Some(mini_mk3::Message::Press { button: mini_mk3::Button::ControlButton { index: 2 } })
    );
    // the right-edge column folds into the grid decoder
    assert_eq!(
        mini_mk3::decode(0, &[0xB0, 89, 127]),
        Some(mini_mk3::Message::Press { button: mini_mk3::Button::GridButton { x: 8, y: 0 } })
    );
    assert_eq!(
        mini_mk3::decode(0, &[240, 0, 32, 41, 2, 13, 9, 1, 247]),
        Some(mini_mk3::Message::SleepMode(mini_mk3::SleepMode::Wake))
    );
    assert_eq!(
        mini_mk3::decode(0, &[240, 0, 32, 41, 2, 13, 14, 1, 247]),
        Some(mini_mk3::Message::ChangeLayout(mini_mk3::Layout::Programmer))
    );
    assert_eq!(
        mini_mk3::decode(0, &[240, 0, 32, 41, 2, 13, 8, 99, 247]),
        Some(mini_mk3::Message::Brightness(99))
    );
    assert_eq!(
        mini_mk3::decode(0, &[240, 126, 0, 6, 2, 0, 32, 41, 19, 1, 0, 0, 1, 2, 3, 4, 247]),
        Some(mini_mk3::Message::ApplicationVersion(mini_mk3::Version { v1: 1, v2: 2, v3: 3, v4: 4 }))
    );
    assert_eq!(
        mini_mk3::decode(0, &[240, 126, 0, 6, 2, 0, 32, 41, 19, 17, 0, 0, 4, 3, 2, 1, 247]),
        Some(mini_mk3::Message::BootloaderVersion(mini_mk3::Version { v1: 4, v2: 3, v3: 2, v4: 1 }))
    );
}

#[test]
fn launch_control_template_scoping_on_the_wire() {
    let mut output = control::Output::new();
    output
        .set_button(
            control::Template::from_byte(3),
            control::Button::pad(0),
            control::Color::new(3, 0),
            control::DoubleBufferingBehavior::Copy,
        )
        .unwrap();
    output
        .set_button(
            control::Template::from_byte(4),
            control::Button::pad(0),
            control::Color::new(3, 0),
            control::DoubleBufferingBehavior::Copy,
        )
        .unwrap();
    output
        .light(
            control::Template::from_byte(3),
            control::Button::pad(0),
            control::Color::new(3, 0),
            control::DoubleBufferingBehavior::Copy,
        )
        .unwrap();
    let frames = output.take_frames();
    // the status byte carries the template: the two frames differ exactly there
    assert_eq!(frames[0], vec![0x93, 9, 0b000111]);
    assert_eq!(frames[1], vec![0x94, 9, 0b000111]);
    assert_eq!(frames[0][1..], frames[1][1..]);
    assert_ne!(frames[0][0], frames[1][0]);
    // the batched form carries the template as its own byte
    assert_eq!(frames[2], vec![240, 0, 32, 41, 2, 10, 120, 3, 0, 0b000111, 247]);
}

#[test]
fn launch_control_input_decode() {
    assert_eq!(
        control::decode(0, &[0x93, 9, 127]),
        Some(control::Message::Press { template: control::Template::from_byte(3), button: control::Button::pad(0) })
    );
    assert_eq!(
        control::decode(0, &[0x83, 25, 0]),
        Some(control::Message::Release { template: control::Template::from_byte(3), button: control::Button::pad(4) })
    );
    assert_eq!(control::decode(0, &[0x80, 0, 0]), Some(control::Message::StalePadRelease));
    assert_eq!(
        control::decode(0, &[0xB0, 0, 0]),
        Some(control::Message::StaleControlButtonRelease)
    );
    assert_eq!(
        control::decode(0, &[0xB2, 114, 127]),
        Some(control::Message::Press { template: control::Template::from_byte(2), button: control::Button::control(0) })
    );
    assert_eq!(
        control::decode(0, &[0xB1, 43, 77]),
        Some(control::Message::KnobChanged {
            template: control::Template::from_byte(1),
            knob: control::Knob::lower(2),
            value: 77,
        })
    );
    assert_eq!(
        control::decode(0, &[240, 0, 32, 41, 2, 10, 119, 9, 247]),
        Some(control::Message::TemplateChanged { template: control::Template::from_byte(9) })
    );
    assert_eq!(control::decode(0, &[0x93, 50, 127]), None);
}

#[test]
fn launch_control_turn_off_forms() {
    let mut output = control::Output::new();
    output.turn_off_button(control::Template::from_byte(0), control::Button::pad(2)).unwrap();
    output.turn_off_button(control::Template::from_byte(0), control::Button::Up).unwrap();
    output.change_template(control::Template::from_byte(7)).unwrap();
    let frames = output.take_frames();
    assert_eq!(frames[0], vec![0x80, 11, 0]);
    assert_eq!(frames[1], vec![0xB0, 114, 0]);
    assert_eq!(frames[2], vec![240, 0, 32, 41, 2, 10, 119, 7, 247]);
}

#[test]
fn device_canvas_flush_batches_changes() {
    let output = launchy::mk2::Output::new();
    let mut canvas = launchy::mk2::Canvas::new(output).unwrap();
    canvas.set(launchy::Pad { x: 0, y: 1 }, launchy::Color::white()).unwrap();
    canvas.flush().unwrap();
    let frames = canvas.output.take_frames();
    // the connect-time layout select, then one batched RGB message
    assert_eq!(frames[0], vec![240, 0, 32, 41, 2, 24, 34, 0, 247]);
    assert_eq!(frames[1], vec![240, 0, 32, 41, 2, 24, 11, 81, 63, 63, 63, 247]);
    // a flush without changes sends nothing
    canvas.flush().unwrap();
    assert!(canvas.output.take_frames().is_empty());
}
