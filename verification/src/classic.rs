//! The shared operation set of the devices that speak the original 2-bit
//! red/green, non-batched wire protocol. Each operation queues exactly one
//! MIDI message on the given output.

use vstd::prelude::*;

use crate::double_buffering::{
    brightness_code, brightness_code_spec, double_buffering_code, double_buffering_code_spec,
    make_color_code, make_color_code_loopable, make_color_code_loopable_spec,
    make_color_code_spec, Brightness, Color, DoubleBuffering, DoubleBufferingBehavior,
};
use crate::errors::MidiError;
use crate::midi_io::OutputDevice;
use crate::protocols::LogicalButton;

verus! {

/// The buttons the classic protocol can address: eight control buttons and
/// a 9 by 8 grid (scene launch column included).
pub open spec fn classic_button_wf(b: LogicalButton) -> bool {
    match b {
        LogicalButton::ControlButton { index } => index <= 7,
        LogicalButton::GridButton { x, y } => x <= 8 && y <= 7,
    }
}

/// The per-cell lighting message: note-on with code `16 y + x` for a grid
/// cell, control change on `104 + index` for a control button.
pub open spec fn set_button_frame_spec(
    b: LogicalButton,
    color: Color,
    dbb: DoubleBufferingBehavior,
) -> Seq<u8> {
    match b {
        LogicalButton::GridButton { x, y } => seq![
            0x90u8,
            (y * 16 + x) as u8,
            make_color_code_spec(color, dbb),
        ],
        LogicalButton::ControlButton { index } => seq![
            0xB0u8,
            (104 + index) as u8,
            make_color_code_spec(color, dbb),
        ],
    }
}

/// The rapid-update message, lighting two cells of the device-defined scan
/// order at once.
pub open spec fn rapid_frame_spec(
    c1: Color,
    d1: DoubleBufferingBehavior,
    c2: Color,
    d2: DoubleBufferingBehavior,
) -> Seq<u8> {
    seq![0x92u8, make_color_code_spec(c1, d1), make_color_code_spec(c2, d2)]
}

/// The whole-panel brightness test message.
pub open spec fn all_leds_frame_spec(brightness: Brightness) -> Seq<u8> {
    seq![0xB0u8, 0u8, brightness_code_spec(brightness)]
}

/// The duty cycle message: numerators up to 8 go through one controller
/// number, higher ones through the next.
pub open spec fn duty_cycle_frame_spec(numerator: u8, denominator: u8) -> Seq<u8> {
    if numerator < 9 {
        seq![0xB0u8, 30u8, (16 * (numerator - 1) + (denominator - 3)) as u8]
    } else {
        seq![0xB0u8, 31u8, (16 * (numerator - 9) + (denominator - 3)) as u8]
    }
}

/// The double-buffering mode change message.
pub open spec fn double_buffering_frame_spec(d: DoubleBuffering) -> Seq<u8> {
    seq![0xB0u8, 0u8, double_buffering_code_spec(d)]
}

/// The text-scroll message: the vendor prefix, the loopable color code,
/// the text bytes, and the SysEx terminator.
pub open spec fn scroll_text_frame_spec(text: Seq<u8>, color: Color, should_loop: bool) -> Seq<
    u8,
> {
    seq![240u8, 0u8, 32u8, 41u8, 9u8, make_color_code_loopable_spec(color, should_loop)] + text
        + seq![247u8]
}

/// `n` repetitions of one frame.
pub open spec fn repeated_frames(frame: Seq<u8>, n: int) -> Seq<Seq<u8>>
    decreases n,
{
    if n <= 0 {
        Seq::empty()
    } else {
        repeated_frames(frame, n - 1).push(frame)
    }
}

/// Update the state of a single LED, with its double-buffering treatment.
pub fn set_button<T: OutputDevice>(
    output: &mut T,
    button: LogicalButton,
    color: Color,
    d: DoubleBufferingBehavior,
) -> (r: Result<(), MidiError>)
    requires
        color.wf(),
        classic_button_wf(button),
    ensures
        r is Ok,
        final(output).frames() == old(output).frames().push(
            set_button_frame_spec(button, color, d),
        ),
{
    let light_code = make_color_code(color, d);
    match button {
        LogicalButton::GridButton { x, y } => {
            let button_code: u8 = y * 16 + x;
            let bytes: [u8; 3] = [0x90, button_code, light_code];
            proof {
                assert(bytes@ =~= set_button_frame_spec(button, color, d));
            }
            output.send(bytes.as_slice())
        },
        LogicalButton::ControlButton { index } => {
            let button_code: u8 = 104 + index;
            let bytes: [u8; 3] = [0xB0, button_code, light_code];
            proof {
                assert(bytes@ =~= set_button_frame_spec(button, color, d));
            }
            output.send(bytes.as_slice())
        },
    }
}

/// Light two cells in one message, in the device's fixed rapid-update scan
/// order: the main grid left-to-right and top-to-bottom, then the scene
/// launch column, then the control row. Any other message leaves the mode.
pub fn set_button_rapid<T: OutputDevice>(
    output: &mut T,
    color1: Color,
    dbb1: DoubleBufferingBehavior,
    color2: Color,
    dbb2: DoubleBufferingBehavior,
) -> (r: Result<(), MidiError>)
    requires
        color1.wf(),
        color2.wf(),
    ensures
        r is Ok,
        final(output).frames() == old(output).frames().push(
            rapid_frame_spec(color1, dbb1, color2, dbb2),
        ),
{
    let bytes: [u8; 3] = [0x92, make_color_code(color1, dbb1), make_color_code(color2, dbb2)];
    proof {
        assert(bytes@ =~= rapid_frame_spec(color1, dbb1, color2, dbb2));
    }
    output.send(bytes.as_slice())
}

/// Turn every LED on at one of the four test brightness levels.
pub fn turn_on_all_leds<T: OutputDevice>(output: &mut T, brightness: Brightness) -> (r: Result<
    (),
    MidiError,
>)
    ensures
        r is Ok,
        final(output).frames() == old(output).frames().push(all_leds_frame_spec(brightness)),
{
    let bytes: [u8; 3] = [0xB0, 0, brightness_code(brightness)];
    proof {
        assert(bytes@ =~= all_leds_frame_spec(brightness));
    }
    output.send(bytes.as_slice())
}

/// Set the LED multiplexing duty cycle, for contrast and flicker
/// trade-offs.
pub fn set_duty_cycle<T: OutputDevice>(output: &mut T, numerator: u8, denominator: u8) -> (r:
    Result<(), MidiError>)
    requires
        1 <= numerator <= 16,
        3 <= denominator <= 18,
    ensures
        r is Ok,
        final(output).frames() == old(output).frames().push(
            duty_cycle_frame_spec(numerator, denominator),
        ),
{
    if numerator < 9 {
        let bytes: [u8; 3] = [0xB0, 30, 16 * (numerator - 1) + (denominator - 3)];
        proof {
            assert(bytes@ =~= duty_cycle_frame_spec(numerator, denominator));
        }
        output.send(bytes.as_slice())
    } else {
        let bytes: [u8; 3] = [0xB0, 31, 16 * (numerator - 9) + (denominator - 3)];
        proof {
            assert(bytes@ =~= duty_cycle_frame_spec(numerator, denominator));
        }
        output.send(bytes.as_slice())
    }
}

/// Change the hardware double-buffering mode.
pub fn control_double_buffering<T: OutputDevice>(output: &mut T, d: DoubleBuffering) -> (r:
    Result<(), MidiError>)
    ensures
        r is Ok,
        final(output).frames() == old(output).frames().push(double_buffering_frame_spec(d)),
{
    let bytes: [u8; 3] = [0xB0, 0, double_buffering_code(d)];
    proof {
        assert(bytes@ =~= double_buffering_frame_spec(d));
    }
    output.send(bytes.as_slice())
}

/// Queue a text scroll across the grid.
pub fn scroll_text<T: OutputDevice>(
    output: &mut T,
    text: &[u8],
    color: Color,
    should_loop: bool,
) -> (r: Result<(), MidiError>)
    requires
        color.wf(),
    ensures
        r is Ok,
        final(output).frames() == old(output).frames().push(
            scroll_text_frame_spec(text@, color, should_loop),
        ),
{
    let color_code = make_color_code_loopable(color, should_loop);
    let mut bytes: Vec<u8> = Vec::new();
    bytes.push(240);
    bytes.push(0);
    bytes.push(32);
    bytes.push(41);
    bytes.push(9);
    bytes.push(color_code);
    bytes.extend_from_slice(text);
    bytes.push(247);
    proof {
        assert(bytes@ =~= scroll_text_frame_spec(text@, color, should_loop));
    }
    output.send(bytes.as_slice())
}

/// All LEDs off; the mapping mode, buffer settings and duty cycle reset to
/// their defaults.
pub fn reset<T: OutputDevice>(output: &mut T) -> (r: Result<(), MidiError>)
    ensures
        r is Ok,
        final(output).frames() == old(output).frames().push(
            all_leds_frame_spec(Brightness::Off),
        ),
{
    turn_on_all_leds(output, Brightness::Off)
}

/// Light a single button, writing the color to both hardware buffers.
pub fn light<T: OutputDevice>(output: &mut T, button: LogicalButton, color: Color) -> (r: Result<
    (),
    MidiError,
>)
    requires
        color.wf(),
        classic_button_wf(button),
    ensures
        r is Ok,
        final(output).frames() == old(output).frames().push(
            set_button_frame_spec(button, color, DoubleBufferingBehavior::Copy),
        ),
{
    set_button(output, button, color, DoubleBufferingBehavior::Copy)
}

/// Set all 80 LEDs through forty rapid-update messages.
pub fn set_all_buttons<T: OutputDevice>(
    output: &mut T,
    color: Color,
    dbb: DoubleBufferingBehavior,
) -> (r: Result<(), MidiError>)
    requires
        color.wf(),
    ensures
        r is Ok,
        final(output).frames() == old(output).frames() + repeated_frames(
            rapid_frame_spec(color, dbb, color, dbb),
            40,
        ),
{
    let ghost frame = rapid_frame_spec(color, dbb, color, dbb);
    let mut i: u8 = 0;
    while i < 40
        invariant
            0 <= i <= 40,
            color.wf(),
            output.frames() == old(output).frames() + repeated_frames(frame, i as int),
            frame == rapid_frame_spec(color, dbb, color, dbb),
        decreases 40 - i,
    {
        let r = set_button_rapid(output, color, dbb, color, dbb);
        proof {
            assert(output.frames() =~= old(output).frames() + repeated_frames(
                frame,
                i as int + 1,
            ));
        }
        i = i + 1;
    }
    proof {
        assert(output.frames() =~= old(output).frames() + repeated_frames(frame, 40));
    }
    Ok(())
}

} // verus!
