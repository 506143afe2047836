//! The Launch Control / Launch Control XL low-level driver. Every lighting
//! and query operation is scoped to one of the device's sixteen templates
//! and only takes visible effect if that template is currently selected.

use vstd::prelude::*;

pub use crate::double_buffering::{
    Brightness, Buffer, Color, DoubleBuffering, DoubleBufferingBehavior,
};

use crate::canvas::CanvasMessage;
use crate::double_buffering::{
    brightness_code, brightness_code_spec, double_buffering_code, double_buffering_code_spec,
    make_color_code, make_color_code_spec,
};
use crate::errors::MidiError;
use crate::generic::DeviceSpec;
use crate::midi_io::{FrameQueue, InputDevice, OutputDevice};
use crate::util::Array2d;

verus! {

/// One of the device's sixteen configuration banks: 0 to 7 are the user
/// templates, 8 to 15 the factory templates.
#[derive(Copy, Clone, Eq, PartialEq, Debug, Hash, Structural)]
pub struct Template {
    pub byte: u8,
}

impl Template {
    pub open spec fn wf(&self) -> bool {
        self.byte < 16
    }

    /// A template from its raw wire byte.
    pub fn from_byte(byte: u8) -> (t: Template)
        requires
            byte < 16,
        ensures
            t.byte == byte,
            t.wf(),
    {
        Template { byte }
    }

    /// One of the eight user templates.
    pub fn user(index: u8) -> (t: Template)
        requires
            index < 8,
        ensures
            t.byte == index,
            t.wf(),
    {
        Template { byte: index }
    }

    /// One of the eight factory templates.
    pub fn factory(index: u8) -> (t: Template)
        requires
            index < 8,
        ensures
            t.byte == index + 8,
            t.wf(),
    {
        Template { byte: index + 8 }
    }
}

/// A button of the device: one of the eight pads, or one of the four
/// directional control buttons.
#[derive(Copy, Clone, Eq, PartialEq, Debug, Hash, Structural)]
pub enum Button {
    Pad(u8),
    Up,
    Down,
    Left,
    Right,
}

impl Button {
    /// Pads carry indices below eight.
    pub open spec fn wf(&self) -> bool {
        match *self {
            Button::Pad(index) => index < 8,
            _ => true,
        }
    }

    /// A button from its compact 0 to 11 ordinal.
    pub fn from_index(index: u8) -> (b: Button)
        requires
            index < 12,
        ensures
            b == button_from_index_spec(index),
            b.wf(),
    {
        if index <= 7 {
            Button::Pad(index)
        } else if index == 8 {
            Button::Up
        } else if index == 9 {
            Button::Down
        } else if index == 10 {
            Button::Left
        } else {
            Button::Right
        }
    }

    /// The compact 0 to 11 ordinal of this button.
    pub fn as_index(self) -> (r: u8)
        requires
            self.wf(),
        ensures
            r == button_index_spec(self),
            r < 12,
    {
        match self {
            Button::Pad(index) => index,
            Button::Up => 8,
            Button::Down => 9,
            Button::Left => 10,
            Button::Right => 11,
        }
    }

    /// One of the eight pads.
    pub fn pad(index: u8) -> (b: Button)
        requires
            index < 8,
        ensures
            b == Button::Pad(index),
            b.wf(),
    {
        Button::Pad(index)
    }

    /// One of the four directional control buttons, by index.
    pub fn control(index: u8) -> (b: Button)
        requires
            index < 4,
        ensures
            b == control_button_spec(index as int),
    {
        if index == 0 {
            Button::Up
        } else if index == 1 {
            Button::Down
        } else if index == 2 {
            Button::Left
        } else {
            Button::Right
        }
    }

    /// The button's raw wire code.
    fn code(self) -> (r: u8)
        requires
            self.wf(),
        ensures
            r == button_code_spec(self),
    {
        match self {
            Button::Pad(index) => {
                if index <= 3 {
                    index + 9
                } else {
                    index + 21
                }
            },
            Button::Up => 114,
            Button::Down => 115,
            Button::Left => 116,
            Button::Right => 117,
        }
    }
}

/// The compact ordinal of a button.
pub open spec fn button_index_spec(b: Button) -> u8 {
    match b {
        Button::Pad(index) => index,
        Button::Up => 8,
        Button::Down => 9,
        Button::Left => 10,
        Button::Right => 11,
    }
}

/// The button of a compact ordinal.
pub open spec fn button_from_index_spec(index: u8) -> Button {
    if index <= 7 {
        Button::Pad(index)
    } else if index == 8 {
        Button::Up
    } else if index == 9 {
        Button::Down
    } else if index == 10 {
        Button::Left
    } else {
        Button::Right
    }
}

/// The directional control button of an index.
pub open spec fn control_button_spec(index: int) -> Button {
    if index == 0 {
        Button::Up
    } else if index == 1 {
        Button::Down
    } else if index == 2 {
        Button::Left
    } else {
        Button::Right
    }
}

/// The raw wire code of a button: pads 0 to 3 sit at 9 to 12, pads 4 to 7
/// at 25 to 28, the arrows at 114 to 117.
pub open spec fn button_code_spec(b: Button) -> u8 {
    match b {
        Button::Pad(index) => if index <= 3 {
            (index + 9) as u8
        } else {
            (index + 21) as u8
        },
        Button::Up => 114,
        Button::Down => 115,
        Button::Left => 116,
        Button::Right => 117,
    }
}

/// One of the sixteen knobs: 0 to 7 on the upper row, 8 to 15 on the
/// lower.
#[derive(Copy, Clone, Eq, PartialEq, Debug, Hash, Structural)]
pub struct Knob {
    pub index: u8,
}

impl Knob {
    pub open spec fn wf(&self) -> bool {
        self.index < 16
    }

    pub fn new(index: u8) -> (k: Knob)
        requires
            index < 16,
        ensures
            k.index == index,
            k.wf(),
    {
        Knob { index }
    }

    /// A knob of the upper row.
    pub fn upper(index: u8) -> (k: Knob)
        requires
            index < 8,
        ensures
            k.index == index,
            k.wf(),
    {
        Knob { index }
    }

    /// A knob of the lower row.
    pub fn lower(index: u8) -> (k: Knob)
        requires
            index < 8,
        ensures
            k.index == index + 8,
            k.wf(),
    {
        Knob { index: index + 8 }
    }
}

/// A Launch Control input message.
#[derive(Debug, Eq, PartialEq, Clone, Copy, Structural)]
pub enum Message {
    /// A button was pressed.
    Press { template: Template, button: Button },
    /// A button was released.
    Release { template: Template, button: Button },
    /// A pad was released after a template change; the device cannot say
    /// which pad or in which template.
    StalePadRelease,
    /// The same ambiguity, for a control button.
    StaleControlButtonRelease,
    /// The template was changed on the device itself.
    TemplateChanged { template: Template },
    /// A knob was moved.
    KnobChanged { template: Template, knob: Knob, value: u8 },
}

/// What one raw frame means to a Launch Control: the low nibble of the
/// status byte carries the template, and a release after a template
/// change arrives as an ambiguous stale-release marker.
pub open spec fn decode_spec(data: Seq<u8>) -> Option<Message> {
    if data.len() == 3 {
        let status = (data[0] as int / 16) as u8;
        let template = Template { byte: (data[0] as int % 16) as u8 };
        let note = data[1];
        let velocity = data[2];
        if status == 9 && 9 <= note <= 12 && velocity == 127 {
            Some(Message::Press { template, button: Button::Pad((note - 9) as u8) })
        } else if status == 8 && 9 <= note <= 12 && velocity == 0 {
            Some(Message::Release { template, button: Button::Pad((note - 9) as u8) })
        } else if status == 9 && 25 <= note <= 28 && velocity == 127 {
            Some(Message::Press { template, button: Button::Pad((note - 21) as u8) })
        } else if status == 8 && 25 <= note <= 28 && velocity == 0 {
            Some(Message::Release { template, button: Button::Pad((note - 21) as u8) })
        } else if status == 8 && note == 0 && velocity == 0 {
            Some(Message::StalePadRelease)
        } else if status == 11 && 114 <= note <= 117 && velocity == 127 {
            Some(Message::Press { template, button: control_button_spec(note - 114) })
        } else if status == 11 && 114 <= note <= 117 && velocity == 0 {
            Some(Message::Release { template, button: control_button_spec(note - 114) })
        } else if status == 11 && note == 0 && velocity == 0 {
            Some(Message::StaleControlButtonRelease)
        } else if status == 11 && 21 <= note <= 28 {
            Some(
                Message::KnobChanged {
                    template,
                    knob: Knob { index: (note - 21) as u8 },
                    value: velocity,
                },
            )
        } else if status == 11 && 41 <= note <= 48 {
            Some(
                Message::KnobChanged {
                    template,
                    knob: Knob { index: (note - 41 + 8) as u8 },
                    value: velocity,
                },
            )
        } else {
            None
        }
    } else if data.len() == 9 && data[0] == 240 && data[1] == 0 && data[2] == 32 && data[3] == 41
        && data[4] == 2 && data[5] == 10 && data[6] == 119 && data[8] == 247 && data[7] < 16 {
        Some(Message::TemplateChanged { template: Template { byte: data[7] } })
    } else {
        None
    }
}

/// The Launch Control input connection creator.
pub struct Input;

impl InputDevice for Input {
    type Message = Message;

    fn midi_connection_name() -> &'static str {
        "Launchy Launch Control input"
    }

    fn midi_device_keyword() -> &'static str {
        "Launch Control"
    }

    fn decode_message(timestamp: u64, data: &[u8]) -> (r: Option<Message>)
        ensures
            r == decode_spec(data@),
    {
        decode(timestamp, data)
    }
}

/// Decode one raw frame into a Launch Control message.
pub fn decode(timestamp: u64, data: &[u8]) -> (r: Option<Message>)
    ensures
        r == decode_spec(data@),
{
    if data.len() == 3 {
        let status: u8 = data[0] / 16;
        let template = Template { byte: data[0] % 16 };
        let note = data[1];
        let velocity = data[2];
        if status == 9 && 9 <= note && note <= 12 && velocity == 127 {
            Some(Message::Press { template, button: Button::Pad(note - 9) })
        } else if status == 8 && 9 <= note && note <= 12 && velocity == 0 {
            Some(Message::Release { template, button: Button::Pad(note - 9) })
        } else if status == 9 && 25 <= note && note <= 28 && velocity == 127 {
            Some(Message::Press { template, button: Button::Pad(note - 21) })
        } else if status == 8 && 25 <= note && note <= 28 && velocity == 0 {
            Some(Message::Release { template, button: Button::Pad(note - 21) })
        } else if status == 8 && note == 0 && velocity == 0 {
            Some(Message::StalePadRelease)
        } else if status == 11 && 114 <= note && note <= 117 && velocity == 127 {
            Some(Message::Press { template, button: Button::control(note - 114) })
        } else if status == 11 && 114 <= note && note <= 117 && velocity == 0 {
            Some(Message::Release { template, button: Button::control(note - 114) })
        } else if status == 11 && note == 0 && velocity == 0 {
            Some(Message::StaleControlButtonRelease)
        } else if status == 11 && 21 <= note && note <= 28 {
            Some(Message::KnobChanged { template, knob: Knob::new(note - 21), value: velocity })
        } else if status == 11 && 41 <= note && note <= 48 {
            Some(
                Message::KnobChanged {
                    template,
                    knob: Knob::new(note - 41 + 8),
                    value: velocity,
                },
            )
        } else {
            None
        }
    } else if data.len() == 9 && data[0] == 240 && data[1] == 0 && data[2] == 32 && data[3] == 41
        && data[4] == 2 && data[5] == 10 && data[6] == 119 && data[8] == 247 && data[7] < 16 {
        Some(Message::TemplateChanged { template: Template { byte: data[7] } })
    } else {
        None
    }
}

/// The single-button lighting message: the status byte carries the
/// template in its low nibble.
pub open spec fn set_button_frame_spec(
    template: Template,
    button: Button,
    color: Color,
    dbb: DoubleBufferingBehavior,
) -> Seq<u8> {
    let status: u8 = match button {
        Button::Pad(_) => (0x90 + template.byte) as u8,
        _ => (0xB0 + template.byte) as u8,
    };
    seq![status, button_code_spec(button), make_color_code_spec(color, dbb)]
}

/// The entry bytes of a batched lighting message: the compact ordinal and
/// the color code of each entry.
pub open spec fn light_entries_spec(
    entries: Seq<(Button, Color, DoubleBufferingBehavior)>,
) -> Seq<u8>
    decreases entries.len(),
{
    if entries.len() == 0 {
        Seq::empty()
    } else {
        let e = entries.last();
        light_entries_spec(entries.drop_last()) + seq![
            button_index_spec(e.0),
            make_color_code_spec(e.1, e.2),
        ]
    }
}

/// The batched lighting message, scoped to a template.
pub open spec fn light_multiple_frame_spec(
    template: Template,
    entries: Seq<(Button, Color, DoubleBufferingBehavior)>,
) -> Seq<u8> {
    seq![240u8, 0u8, 32u8, 41u8, 2u8, 10u8, 120u8, template.byte] + light_entries_spec(entries)
        + seq![247u8]
}

/// The template select message (the device reports its own template
/// changes with the same frame).
pub open spec fn change_template_frame_spec(template: Template) -> Seq<u8> {
    seq![240u8, 0u8, 32u8, 41u8, 2u8, 10u8, 119u8, template.byte, 247u8]
}

/// The whole-panel brightness test message, scoped to a template.
pub open spec fn all_leds_frame_spec(template: Template, brightness: Brightness) -> Seq<u8> {
    seq![(0xB0 + template.byte) as u8, 0u8, brightness_code_spec(brightness)]
}

/// The double-buffering mode message, scoped to a template.
pub open spec fn double_buffering_frame_spec(template: Template, d: DoubleBuffering) -> Seq<u8> {
    seq![(0xB0 + template.byte) as u8, 0u8, double_buffering_code_spec(d)]
}

/// The pad-off message, which bypasses the color code entirely.
pub open spec fn turn_off_pad_frame_spec(button: Button) -> Seq<u8> {
    seq![0x80u8, button_code_spec(button), 0u8]
}

/// The Launch Control output handler.
pub struct Output {
    queue: FrameQueue,
}

impl OutputDevice for Output {
    closed spec fn frames(&self) -> Seq<Seq<u8>> {
        self.queue.frames()
    }

    fn midi_connection_name() -> &'static str {
        "Launchy Launch Control output"
    }

    fn midi_device_keyword() -> &'static str {
        "Launch Control"
    }

    fn send(&mut self, bytes: &[u8]) -> (r: Result<(), MidiError>) {
        self.queue.push_slice(bytes);
        Ok(())
    }

    fn take_frames(&mut self) -> (r: Vec<Vec<u8>>) {
        self.queue.take()
    }
}

impl Output {
    /// A fresh output with nothing queued; the transport connects it to
    /// the device's port.
    pub fn new() -> (r: Output)
        ensures
            r.frames() == Seq::<Seq<u8>>::empty(),
    {
        Output { queue: FrameQueue::new() }
    }

    /// Light one button, in the scope of one template.
    pub fn set_button(
        &mut self,
        template: Template,
        button: Button,
        color: Color,
        d: DoubleBufferingBehavior,
    ) -> (r: Result<(), MidiError>)
        requires
            template.wf(),
            button.wf(),
            color.wf(),
        ensures
            r is Ok,
            final(self).frames() == old(self).frames().push(
                set_button_frame_spec(template, button, color, d),
            ),
    {
        let light_code = make_color_code(color, d);
        let status: u8 = match button {
            Button::Pad(_) => 0x90 + template.byte,
            _ => 0xB0 + template.byte,
        };
        let bytes: [u8; 3] = [status, button.code(), light_code];
        proof {
            assert(bytes@ =~= set_button_frame_spec(template, button, color, d));
        }
        self.send(bytes.as_slice())
    }

    /// Turn one button off. Pads go through the note-off message whose
    /// velocity byte the device ignores; control buttons are set to black.
    pub fn turn_off_button(&mut self, template: Template, button: Button) -> (r: Result<
        (),
        MidiError,
    >)
        requires
            template.wf(),
            button.wf(),
        ensures
            r is Ok,
            final(self).frames() == old(self).frames().push(
                match button {
                    Button::Pad(_) => turn_off_pad_frame_spec(button),
                    _ => seq![(0xB0 + template.byte) as u8, button_code_spec(button), 0u8],
                },
            ),
    {
        match button {
            Button::Pad(_) => {
                let bytes: [u8; 3] = [0x80, button.code(), 0];
                proof {
                    assert(bytes@ =~= turn_off_pad_frame_spec(button));
                }
                self.send(bytes.as_slice())
            },
            _ => self.set_button(
                template,
                button,
                Color::off(),
                DoubleBufferingBehavior::Neither,
            ),
        }
    }

    /// Light several buttons in one message, in the scope of one
    /// template.
    pub fn light_multiple(
        &mut self,
        template: Template,
        pads: &[(Button, Color, DoubleBufferingBehavior)],
    ) -> (r: Result<(), MidiError>)
        requires
            template.wf(),
            forall|k: int|
                0 <= k < pads@.len() ==> (#[trigger] pads@[k]).0.wf() && pads@[k].1.wf(),
        ensures
            r is Ok,
            final(self).frames() == old(self).frames().push(
                light_multiple_frame_spec(template, pads@),
            ),
    {
        let mut bytes: Vec<u8> = Vec::new();
        bytes.push(240);
        bytes.push(0);
        bytes.push(32);
        bytes.push(41);
        bytes.push(2);
        bytes.push(10);
        bytes.push(120);
        bytes.push(template.byte);
        let n = pads.len();
        let mut k: usize = 0;
        while k < n
            invariant
                0 <= k <= n,
                n == pads@.len(),
                forall|m: int|
                    0 <= m < pads@.len() ==> (#[trigger] pads@[m]).0.wf() && pads@[m].1.wf(),
                bytes@ == seq![240u8, 0u8, 32u8, 41u8, 2u8, 10u8, 120u8, template.byte]
                    + light_entries_spec(pads@.take(k as int)),
            decreases n - k,
        {
            let (button, color, dbb) = pads[k];
            bytes.push(button.as_index());
            bytes.push(make_color_code(color, dbb));
            proof {
                assert(pads@.take(k + 1).drop_last() =~= pads@.take(k as int));
                assert(bytes@ =~= seq![240u8, 0u8, 32u8, 41u8, 2u8, 10u8, 120u8, template.byte]
                    + light_entries_spec(pads@.take(k + 1)));
            }
            k = k + 1;
        }
        bytes.push(247);
        proof {
            assert(pads@.take(n as int) =~= pads@);
            assert(bytes@ =~= light_multiple_frame_spec(template, pads@));
        }
        self.send(bytes.as_slice())
    }

    /// Select the device's current template.
    pub fn change_template(&mut self, template: Template) -> (r: Result<(), MidiError>)
        requires
            template.wf(),
        ensures
            r is Ok,
            final(self).frames() == old(self).frames().push(
                change_template_frame_spec(template),
            ),
    {
        let bytes: [u8; 9] = [240, 0, 32, 41, 2, 10, 119, template.byte, 247];
        proof {
            assert(bytes@ =~= change_template_frame_spec(template));
        }
        self.send(bytes.as_slice())
    }

    /// Turn every LED of the template on at a test brightness level.
    pub fn turn_on_all_leds(&mut self, template: Template, brightness: Brightness) -> (r: Result<
        (),
        MidiError,
    >)
        requires
            template.wf(),
        ensures
            r is Ok,
            final(self).frames() == old(self).frames().push(
                all_leds_frame_spec(template, brightness),
            ),
    {
        let bytes: [u8; 3] = [0xB0 + template.byte, 0, brightness_code(brightness)];
        proof {
            assert(bytes@ =~= all_leds_frame_spec(template, brightness));
        }
        self.send(bytes.as_slice())
    }

    /// Change the hardware double-buffering mode of the template.
    pub fn control_double_buffering(&mut self, template: Template, d: DoubleBuffering) -> (r:
        Result<(), MidiError>)
        requires
            template.wf(),
        ensures
            r is Ok,
            final(self).frames() == old(self).frames().push(
                double_buffering_frame_spec(template, d),
            ),
    {
        let bytes: [u8; 3] = [0xB0 + template.byte, 0, double_buffering_code(d)];
        proof {
            assert(bytes@ =~= double_buffering_frame_spec(template, d));
        }
        self.send(bytes.as_slice())
    }

    /// All LEDs of the template off.
    pub fn reset(&mut self, template: Template) -> (r: Result<(), MidiError>)
        requires
            template.wf(),
        ensures
            r is Ok,
            final(self).frames() == old(self).frames().push(
                all_leds_frame_spec(template, Brightness::Off),
            ),
    {
        self.turn_on_all_leds(template, Brightness::Off)
    }

    /// Light one button through the batched message form.
    pub fn light(
        &mut self,
        template: Template,
        button: Button,
        color: Color,
        dbb: DoubleBufferingBehavior,
    ) -> (r: Result<(), MidiError>)
        requires
            template.wf(),
            button.wf(),
            color.wf(),
        ensures
            r is Ok,
            final(self).frames() == old(self).frames().push(
                light_multiple_frame_spec(template, seq![(button, color, dbb)]),
            ),
    {
        let entries: [(Button, Color, DoubleBufferingBehavior); 1] = [(button, color, dbb)];
        let r = self.light_multiple(template, entries.as_slice());
        proof {
            assert(entries@ =~= seq![(button, color, dbb)]);
        }
        r
    }
}

/// The button a canvas cell stands for when the canvas flushes.
pub open spec fn flush_button_spec(x: int, y: int) -> Button {
    if x == 8 && y == 0 {
        Button::Up
    } else if x == 9 && y == 0 {
        Button::Down
    } else if x == 8 && y == 1 {
        Button::Left
    } else if x == 9 && y == 1 {
        Button::Right
    } else {
        Button::Pad(x as u8)
    }
}

/// The first `n` batch entries of a canvas flush.
pub open spec fn flush_entries_spec(changes: Seq<(u32, u32, (u8, u8, u8))>, n: int) -> Seq<
    (Button, Color, DoubleBufferingBehavior),
>
    decreases n,
{
    if n <= 0 {
        Seq::empty()
    } else {
        let c = changes[n - 1];
        flush_entries_spec(changes, n - 1).push(
            (
                flush_button_spec(c.0 as int, c.1 as int),
                Color { red: c.2.0, green: c.2.1 },
                DoubleBufferingBehavior::Copy,
            ),
        )
    }
}

/// The Launch Control as a canvas: a 10 by 2 logical bounding box where
/// the bottom row holds the eight pads, the top-right 2 by 2 corner holds
/// the four directional buttons, and the rest does not exist.
pub struct Spec;

impl DeviceSpec for Spec {
    type Input = Input;

    type Output = Output;

    open spec fn spec_width() -> u32 {
        10
    }

    open spec fn spec_height() -> u32 {
        2
    }

    open spec fn spec_color_precision() -> u16 {
        4
    }

    open spec fn spec_valid(x: int, y: int) -> bool {
        0 <= x < 10 && 0 <= y < 2 && !(y == 0 && x <= 7)
    }

    proof fn lemma_shape() {
    }

    fn bounding_box_width() -> (r: u32) {
        10
    }

    fn bounding_box_height() -> (r: u32) {
        2
    }

    fn color_precision() -> (r: u16) {
        4
    }

    fn is_valid(x: u32, y: u32) -> (r: bool) {
        if x >= 10 || y >= 2 {
            return false;
        }
        if y == 0 && x <= 7 {
            return false;
        }
        true
    }

    open spec fn flush_frames_spec(
        pending: Array2d<crate::color::Color>,
        changes: Seq<(u32, u32, (u8, u8, u8))>,
    ) -> Seq<Seq<u8>> {
        seq![
            light_multiple_frame_spec(
                Template { byte: 0u8 },
                flush_entries_spec(changes, changes.len() as int),
            ),
        ]
    }

    fn flush(
        output: &mut Output,
        pending: &Array2d<crate::color::Color>,
        changes: &Vec<(u32, u32, (u8, u8, u8))>,
    ) -> (r: Result<(), MidiError>) {
        let mut batch: Vec<(Button, Color, DoubleBufferingBehavior)> = Vec::new();
        let n = changes.len();
        let mut k: usize = 0;
        while k < n
            invariant
                0 <= k <= n,
                n == changes@.len(),
                forall|m: int|
                    0 <= m < changes@.len() ==> Spec::spec_valid(
                        (#[trigger] changes@[m]).0 as int,
                        changes@[m].1 as int,
                    ) && changes@[m].2.0 < 4 && changes@[m].2.1 < 4 && changes@[m].2.2 < 4,
                batch@ == flush_entries_spec(changes@, k as int),
                forall|m: int|
                    0 <= m < batch@.len() ==> (#[trigger] batch@[m]).0.wf() && batch@[m].1.wf(),
            decreases n - k,
        {
            let (x, y, (red, green, _blue)) = changes[k];
            let button: Button = if x == 8 && y == 0 {
                Button::Up
            } else if x == 9 && y == 0 {
                Button::Down
            } else if x == 9 && y == 1 {
                Button::Right
            } else if x == 8 && y == 1 {
                Button::Left
            } else {
                Button::Pad(x as u8)
            };
            let color = Color::new(red, green);
            proof {
                assert(color == (Color { red, green }));
                assert(button == flush_button_spec(x as int, y as int));
            }
            batch.push((button, color, DoubleBufferingBehavior::Copy));
            proof {
                assert(batch@ =~= flush_entries_spec(changes@, k as int + 1));
            }
            k = k + 1;
        }
        let r = output.light_multiple(Template::from_byte(0), batch.as_slice());
        proof {
            assert(output.frames() =~= old(output).frames() + Self::flush_frames_spec(
                *pending,
                changes@,
            ));
        }
        r
    }

    open spec fn convert_message_spec(msg: Message) -> Option<CanvasMessage> {
        match msg {
            Message::Press { template: _, button } => {
                let xy = button_xy_spec(button);
                Some(CanvasMessage::Press { x: xy.0, y: xy.1 })
            },
            Message::Release { template: _, button } => {
                let xy = button_xy_spec(button);
                Some(CanvasMessage::Release { x: xy.0, y: xy.1 })
            },
            _ => None,
        }
    }

    fn convert_message(msg: Message) -> (r: Option<CanvasMessage>) {
        match msg {
            Message::Press { template: _, button } => {
                let (x, y) = button_to_xy(button);
                Some(CanvasMessage::Press { x, y })
            },
            Message::Release { template: _, button } => {
                let (x, y) = button_to_xy(button);
                Some(CanvasMessage::Release { x, y })
            },
            _ => None,
        }
    }

    fn setup(output: &mut Output) -> (r: Result<(), MidiError>) {
        let r = output.change_template(Template::from_byte(0));
        Ok(())
    }
}

/// The canvas type of the Launch Control.
pub type Canvas = crate::generic::DeviceCanvas<Spec>;

/// The canvas coordinate of a button: pads on the bottom row, the four
/// arrows in the top-right corner.
fn button_to_xy(button: Button) -> (r: (u32, u32))
    ensures
        r == button_xy_spec(button),
{
    match button {
        Button::Pad(index) => (index as u32, 1),
        Button::Up => (8, 0),
        Button::Down => (9, 0),
        Button::Left => (8, 1),
        Button::Right => (9, 1),
    }
}

/// The canvas coordinate of a button.
pub open spec fn button_xy_spec(button: Button) -> (u32, u32) {
    match button {
        Button::Pad(index) => (index as u32, 1u32),
        Button::Up => (8u32, 0u32),
        Button::Down => (9u32, 0u32),
        Button::Left => (8u32, 1u32),
        Button::Right => (9u32, 1u32),
    }
}

} // verus!
