//! The Launchpad S low-level driver: classic-protocol output, pure input
//! decoding, and the device description that turns it into a canvas.

use vstd::prelude::*;

pub use crate::double_buffering::{
    Brightness, Buffer, Color, DoubleBuffering, DoubleBufferingBehavior,
};
pub use crate::protocols::LogicalButton as Button;
pub use crate::query::{DeviceIdQuery, DeviceInquiry, VersionInquiry};

use crate::canvas::CanvasMessage;
use crate::classic;
use crate::errors::MidiError;
use crate::generic::DeviceSpec;
use crate::midi_io::{FrameQueue, InputDevice, OutputDevice};
use crate::protocols::LogicalButton;
use crate::query;
use crate::util::Array2d;

verus! {

/// A Launchpad S input message.
#[derive(Debug, Eq, PartialEq, Clone, Copy, Structural)]
pub enum Message {
    /// A button was pressed.
    Press { button: Button },
    /// A button was released.
    Release { button: Button },
    /// Emitted after a text scroll ends or loops.
    TextEndedOrLooped,
    /// An undocumented short message the device emits from time to time.
    UnknownShortMessage { status: u8, note: u8, velocity: u8 },
    /// The response to a device inquiry request.
    DeviceInquiry(DeviceInquiry),
    /// The response to a version inquiry request.
    VersionInquiry(VersionInquiry),
}

/// The grid button a classic note number addresses: `x` in the low
/// nibble, `y` in the high nibble.
pub open spec fn grid_button_of_note(note: u8) -> LogicalButton {
    LogicalButton::GridButton { x: (note as int % 16) as u8, y: (note as int / 16) as u8 }
}

/// What one raw frame means to a Launchpad S: inquiry responses first,
/// then note-on presses and releases (velocity 127 and 0), control-change
/// presses and releases on controllers 104 to 111, the end-of-scroll
/// notice, and any other short message as an unknown message. Anything
/// else is unrecognized.
pub open spec fn decode_spec(data: Seq<u8>) -> Option<Message> {
    if query::is_device_query_response(data) {
        Some(Message::DeviceInquiry(query::device_query_fields(data)))
    } else if query::is_version_query_response(data) {
        Some(Message::VersionInquiry(query::version_query_fields(data)))
    } else if data.len() == 3 {
        let status = data[0];
        let note = data[1];
        let velocity = data[2];
        if status == 0x90 {
            if velocity == 127 {
                Some(Message::Press { button: grid_button_of_note(note) })
            } else if velocity == 0 {
                Some(Message::Release { button: grid_button_of_note(note) })
            } else {
                None
            }
        } else if status == 0xB0 && 104 <= note <= 111 {
            if velocity == 127 {
                Some(
                    Message::Press {
                        button: LogicalButton::ControlButton { index: (note - 104) as u8 },
                    },
                )
            } else if velocity == 0 {
                Some(
                    Message::Release {
                        button: LogicalButton::ControlButton { index: (note - 104) as u8 },
                    },
                )
            } else {
                None
            }
        } else if status == 0xB0 && note == 0 && velocity == 3 {
            Some(Message::TextEndedOrLooped)
        } else {
            Some(Message::UnknownShortMessage { status, note, velocity })
        }
    } else {
        None
    }
}

/// The Launchpad S input connection creator.
pub struct Input;

impl InputDevice for Input {
    type Message = Message;

    fn midi_connection_name() -> &'static str {
        "Launchy S input"
    }

    fn midi_device_keyword() -> &'static str {
        "Launchpad S"
    }

    fn decode_message(timestamp: u64, data: &[u8]) -> (r: Option<Message>)
        ensures
            r == decode_spec(data@),
    {
        decode(timestamp, data)
    }
}

/// Decode one raw frame into a Launchpad S message.
pub fn decode(timestamp: u64, data: &[u8]) -> (r: Option<Message>)
    ensures
        r == decode_spec(data@),
{
    if let Some(device_inquiry) = query::parse_device_query(data) {
        return Some(Message::DeviceInquiry(device_inquiry));
    }
    if let Some(version_inquiry) = query::parse_version_query(data) {
        return Some(Message::VersionInquiry(version_inquiry));
    }
    if data.len() == 3 {
        let status = data[0];
        let note = data[1];
        let velocity = data[2];
        if status == 0x90 {
            let button = LogicalButton::GridButton { x: note % 16, y: note / 16 };
            if velocity == 127 {
                Some(Message::Press { button })
            } else if velocity == 0 {
                Some(Message::Release { button })
            } else {
                None
            }
        } else if status == 0xB0 && 104 <= note && note <= 111 {
            let button = LogicalButton::ControlButton { index: note - 104 };
            if velocity == 127 {
                Some(Message::Press { button })
            } else if velocity == 0 {
                Some(Message::Release { button })
            } else {
                None
            }
        } else if status == 0xB0 && note == 0 && velocity == 3 {
            Some(Message::TextEndedOrLooped)
        } else {
            Some(Message::UnknownShortMessage { status, note, velocity })
        }
    } else {
        None
    }
}

/// The Launchpad S output handler: every method queues exactly the wire
/// frames of the corresponding classic-protocol message.
pub struct Output {
    queue: FrameQueue,
}

impl OutputDevice for Output {
    closed spec fn frames(&self) -> Seq<Seq<u8>> {
        self.queue.frames()
    }

    fn midi_connection_name() -> &'static str {
        "Launchy S output"
    }

    fn midi_device_keyword() -> &'static str {
        "Launchpad S"
    }

    fn send(&mut self, bytes: &[u8]) -> (r: Result<(), MidiError>) {
        self.queue.push_slice(bytes);
        Ok(())
    }

    fn take_frames(&mut self) -> (r: Vec<Vec<u8>>) {
        self.queue.take()
    }
}

impl Output {
    /// A fresh output with nothing queued; the transport connects it to
    /// the device's port.
    pub fn new() -> (r: Output)
        ensures
            r.frames() == Seq::<Seq<u8>>::empty(),
    {
        Output { queue: FrameQueue::new() }
    }

    /// Update a single LED, with its double-buffering treatment.
    pub fn set_button(&mut self, button: Button, color: Color, d: DoubleBufferingBehavior) -> (r:
        Result<(), MidiError>)
        requires
            color.wf(),
            classic::classic_button_wf(button),
        ensures
            r is Ok,
            final(self).frames() == old(self).frames().push(
                classic::set_button_frame_spec(button, color, d),
            ),
    {
        classic::set_button(self, button, color, d)
    }

    /// Light two cells of the rapid-update scan order in one message.
    pub fn set_button_rapid(
        &mut self,
        color1: Color,
        dbb1: DoubleBufferingBehavior,
        color2: Color,
        dbb2: DoubleBufferingBehavior,
    ) -> (r: Result<(), MidiError>)
        requires
            color1.wf(),
            color2.wf(),
        ensures
            r is Ok,
            final(self).frames() == old(self).frames().push(
                classic::rapid_frame_spec(color1, dbb1, color2, dbb2),
            ),
    {
        classic::set_button_rapid(self, color1, dbb1, color2, dbb2)
    }

    /// Turn every LED on at a test brightness level.
    pub fn turn_on_all_leds(&mut self, brightness: Brightness) -> (r: Result<(), MidiError>)
        ensures
            r is Ok,
            final(self).frames() == old(self).frames().push(
                classic::all_leds_frame_spec(brightness),
            ),
    {
        classic::turn_on_all_leds(self, brightness)
    }

    /// Set the LED multiplexing duty cycle.
    pub fn set_duty_cycle(&mut self, numerator: u8, denominator: u8) -> (r: Result<
        (),
        MidiError,
    >)
        requires
            1 <= numerator <= 16,
            3 <= denominator <= 18,
        ensures
            r is Ok,
            final(self).frames() == old(self).frames().push(
                classic::duty_cycle_frame_spec(numerator, denominator),
            ),
    {
        classic::set_duty_cycle(self, numerator, denominator)
    }

    /// Change the hardware double-buffering mode.
    pub fn control_double_buffering(&mut self, d: DoubleBuffering) -> (r: Result<(), MidiError>)
        ensures
            r is Ok,
            final(self).frames() == old(self).frames().push(
                classic::double_buffering_frame_spec(d),
            ),
    {
        classic::control_double_buffering(self, d)
    }

    /// Queue a device inquiry request.
    pub fn request_device_inquiry(&mut self, query: DeviceIdQuery) -> (r: Result<(), MidiError>)
        requires
            query matches DeviceIdQuery::Specific(id) ==> id != query::QUERY_DEVICE_ID_FOR_ANY,
        ensures
            r is Ok,
            final(self).frames() == old(self).frames().push(
                query::device_inquiry_request_spec(query),
            ),
    {
        query::request_device_inquiry(self, query)
    }

    /// Queue a version inquiry request.
    pub fn request_version_inquiry(&mut self) -> (r: Result<(), MidiError>)
        ensures
            r is Ok,
            final(self).frames() == old(self).frames().push(
                query::version_inquiry_request_spec(),
            ),
    {
        query::request_version_inquiry(self)
    }

    /// Queue a text scroll across the grid.
    pub fn scroll_text(&mut self, text: &[u8], color: Color, should_loop: bool) -> (r: Result<
        (),
        MidiError,
    >)
        requires
            color.wf(),
        ensures
            r is Ok,
            final(self).frames() == old(self).frames().push(
                classic::scroll_text_frame_spec(text@, color, should_loop),
            ),
    {
        classic::scroll_text(self, text, color, should_loop)
    }

    /// All LEDs off; mapping mode, buffer settings and duty cycle reset.
    pub fn reset(&mut self) -> (r: Result<(), MidiError>)
        ensures
            r is Ok,
            final(self).frames() == old(self).frames().push(
                classic::all_leds_frame_spec(Brightness::Off),
            ),
    {
        classic::reset(self)
    }

    /// Set all 80 LEDs through forty rapid-update messages.
    pub fn set_all_buttons(&mut self, color: Color, dbb: DoubleBufferingBehavior) -> (r: Result<
        (),
        MidiError,
    >)
        requires
            color.wf(),
        ensures
            r is Ok,
            final(self).frames() == old(self).frames() + classic::repeated_frames(
                classic::rapid_frame_spec(color, dbb, color, dbb),
                40,
            ),
    {
        classic::set_all_buttons(self, color, dbb)
    }

    /// Light a single button, writing the color to both hardware buffers.
    pub fn light(&mut self, button: Button, color: Color) -> (r: Result<(), MidiError>)
        requires
            color.wf(),
            classic::classic_button_wf(button),
        ensures
            r is Ok,
            final(self).frames() == old(self).frames().push(
                classic::set_button_frame_spec(button, color, DoubleBufferingBehavior::Copy),
            ),
    {
        classic::light(self, button, color)
    }

    /// Light all 80 LEDs the same color through the rapid-update mode.
    pub fn light_all_rapid(&mut self, color: Color) -> (r: Result<(), MidiError>)
        requires
            color.wf(),
        ensures
            r is Ok,
            final(self).frames() == old(self).frames() + classic::repeated_frames(
                classic::rapid_frame_spec(
                    color,
                    DoubleBufferingBehavior::Copy,
                    color,
                    DoubleBufferingBehavior::Copy,
                ),
                40,
            ),
    {
        classic::set_all_buttons(self, color, DoubleBufferingBehavior::Copy)
    }
}

/// The 2-bit red/green color a display color quantizes to.
pub open spec fn db_of_spec(c: crate::color::Color) -> Color {
    Color {
        red: crate::color::quantize_spec(c, 4).0 as u8,
        green: crate::color::quantize_spec(c, 4).1 as u8,
    }
}

/// The rapid-update message of re-stream pair `n`: the pairs walk the
/// main grid row by row, two cells per message.
pub open spec fn restream_pair_spec(pending: Array2d<crate::color::Color>, n: int) -> Seq<u8> {
    let y = n / 4 + 1;
    let x = 2 * (n % 4);
    classic::rapid_frame_spec(
        db_of_spec(pending.at(x, y)),
        DoubleBufferingBehavior::Copy,
        db_of_spec(pending.at(x + 1, y)),
        DoubleBufferingBehavior::Copy,
    )
}

/// The first `n` re-stream messages.
pub open spec fn restream_frames_spec(pending: Array2d<crate::color::Color>, n: int) -> Seq<
    Seq<u8>,
>
    decreases n,
{
    if n <= 0 {
        Seq::empty()
    } else {
        restream_frames_spec(pending, n - 1).push(restream_pair_spec(pending, n - 1))
    }
}

/// The first `n` per-cell lighting messages of a small flush.
pub open spec fn change_frames_spec(changes: Seq<(u32, u32, (u8, u8, u8))>, n: int) -> Seq<
    Seq<u8>,
>
    decreases n,
{
    if n <= 0 {
        Seq::empty()
    } else {
        let c = changes[n - 1];
        change_frames_spec(changes, n - 1).push(
            classic::set_button_frame_spec(
                crate::protocols::abs_to_button_spec(c.0 as int, c.1 as int),
                Color { red: c.2.0, green: c.2.1 },
                DoubleBufferingBehavior::Copy,
            ),
        )
    }
}

/// The Launchpad S as a canvas: a 9 by 9 bounding box without the cell at
/// `(8, 0)`, four brightness levels per red/green channel, and a flush
/// strategy that re-streams the whole grid through rapid-update mode when
/// more than 41 cells changed.
pub struct Spec;

impl DeviceSpec for Spec {
    type Input = Input;

    type Output = Output;

    open spec fn spec_width() -> u32 {
        9
    }

    open spec fn spec_height() -> u32 {
        9
    }

    open spec fn spec_color_precision() -> u16 {
        4
    }

    open spec fn spec_valid(x: int, y: int) -> bool {
        0 <= x <= 8 && 0 <= y <= 8 && !(x == 8 && y == 0)
    }

    proof fn lemma_shape() {
    }

    fn bounding_box_width() -> (r: u32) {
        9
    }

    fn bounding_box_height() -> (r: u32) {
        9
    }

    fn color_precision() -> (r: u16) {
        4
    }

    fn is_valid(x: u32, y: u32) -> (r: bool) {
        if x > 8 || y > 8 {
            return false;
        }
        if x == 8 && y == 0 {
            return false;
        }
        true
    }

    open spec fn flush_frames_spec(
        pending: Array2d<crate::color::Color>,
        changes: Seq<(u32, u32, (u8, u8, u8))>,
    ) -> Seq<Seq<u8>> {
        if changes.len() > 41 {
            restream_frames_spec(pending, 32).push(
                classic::set_button_frame_spec(
                    LogicalButton::ControlButton { index: 0u8 },
                    db_of_spec(pending.at(0, 0)),
                    DoubleBufferingBehavior::Copy,
                ),
            )
        } else {
            change_frames_spec(changes, changes.len() as int)
        }
    }

    fn flush(
        output: &mut Output,
        pending: &Array2d<crate::color::Color>,
        changes: &Vec<(u32, u32, (u8, u8, u8))>,
    ) -> (r: Result<(), MidiError>) {
        if changes.len() > 41 {
            // more than half the grid changed: re-stream the main grid in
            // the rapid-update scan order, two cells per message
            let ghost mut fidx: int = 0;
            let mut y: u32 = 1;
            while y <= 8
                invariant
                    1 <= y <= 9,
                    fidx == (y - 1) * 4,
                    pending.wf(),
                    pending.spec_width() == 9,
                    pending.spec_height() == 9,
                    forall|i: int, j: int|
                        pending.in_bounds(i, j) ==> crate::color::bounded(
                            #[trigger] pending.at(i, j),
                            crate::color::COLOR_BOUND as int,
                        ),
                    output.frames() == old(output).frames() + restream_frames_spec(
                        *pending,
                        fidx,
                    ),
                decreases 9 - y,
            {
                let mut x: u32 = 0;
                while x < 8
                    invariant
                        0 <= x <= 8,
                        x % 2 == 0,
                        1 <= y <= 8,
                        fidx == (y - 1) * 4 + x as int / 2,
                        pending.wf(),
                        pending.spec_width() == 9,
                        pending.spec_height() == 9,
                        forall|i: int, j: int|
                            pending.in_bounds(i, j) ==> crate::color::bounded(
                                #[trigger] pending.at(i, j),
                                crate::color::COLOR_BOUND as int,
                            ),
                        output.frames() == old(output).frames() + restream_frames_spec(
                            *pending,
                            fidx,
                        ),
                    decreases 8 - x,
                {
                    let c1 = convert_color(read_cell(pending, x, y));
                    let c2 = convert_color(read_cell(pending, x + 1, y));
                    let _ = output.set_button_rapid(
                        c1,
                        DoubleBufferingBehavior::Copy,
                        c2,
                        DoubleBufferingBehavior::Copy,
                    );
                    proof {
                        vstd::arithmetic::div_mod::lemma_fundamental_div_mod_converse(
                            fidx,
                            4,
                            y as int - 1,
                            x as int / 2,
                        );
                        assert(2 * (x as int / 2) == x as int);
                        assert(restream_pair_spec(*pending, fidx) == classic::rapid_frame_spec(
                            c1,
                            DoubleBufferingBehavior::Copy,
                            c2,
                            DoubleBufferingBehavior::Copy,
                        ));
                        assert(output.frames() =~= old(output).frames() + restream_frames_spec(
                            *pending,
                            fidx + 1,
                        ));
                        fidx = fidx + 1;
                    }
                    x = x + 2;
                }
                y = y + 1;
            }
            // dummy-light a button just to leave the rapid-update mode
            let c = convert_color(read_cell(pending, 0, 0));
            let r = output.light(Button::ControlButton { index: 0 }, c);
            proof {
                assert(output.frames() =~= old(output).frames() + Self::flush_frames_spec(
                    *pending,
                    changes@,
                ));
            }
            r
        } else {
            let n = changes.len();
            let mut k: usize = 0;
            while k < n
                invariant
                    0 <= k <= n,
                    n == changes@.len(),
                    n <= 41,
                    forall|m: int|
                        0 <= m < changes@.len() ==> Spec::spec_valid(
                            (#[trigger] changes@[m]).0 as int,
                            changes@[m].1 as int,
                        ) && changes@[m].2.0 < 4 && changes@[m].2.1 < 4 && changes@[m].2.2 < 4,
                    output.frames() == old(output).frames() + change_frames_spec(
                        changes@,
                        k as int,
                    ),
                decreases n - k,
            {
                let (x, y, (red, green, _blue)) = changes[k];
                let button = Button::from_abs(x as u8, y as u8);
                let color = Color::new(red, green);
                let _ = output.light(button, color);
                proof {
                    assert(color == (Color { red, green }));
                    assert(output.frames() =~= old(output).frames() + change_frames_spec(
                        changes@,
                        k as int + 1,
                    ));
                }
                k = k + 1;
            }
            proof {
                assert(output.frames() =~= old(output).frames() + Self::flush_frames_spec(
                    *pending,
                    changes@,
                ));
            }
            Ok(())
        }
    }

    open spec fn convert_message_spec(msg: Message) -> Option<CanvasMessage> {
        match msg {
            Message::Press { button } => Some(
                CanvasMessage::Press {
                    x: crate::protocols::button_abs_x_spec(button) as u32,
                    y: crate::protocols::button_abs_y_spec(button) as u32,
                },
            ),
            Message::Release { button } => Some(
                CanvasMessage::Release {
                    x: crate::protocols::button_abs_x_spec(button) as u32,
                    y: crate::protocols::button_abs_y_spec(button) as u32,
                },
            ),
            _ => None,
        }
    }

    fn convert_message(msg: Message) -> (r: Option<CanvasMessage>) {
        match msg {
            Message::Press { button } => Some(
                CanvasMessage::Press { x: button_abs_x(button), y: button_abs_y(button) },
            ),
            Message::Release { button } => Some(
                CanvasMessage::Release { x: button_abs_x(button), y: button_abs_y(button) },
            ),
            _ => None,
        }
    }

    fn setup(output: &mut Output) -> (r: Result<(), MidiError>) {
        let r = output.reset();
        Ok(())
    }
}

/// The canvas type of the Launchpad S.
pub type Canvas = crate::generic::DeviceCanvas<Spec>;

/// A cell of the pending grid, which is known to be in bounds.
fn read_cell(pending: &Array2d<crate::color::Color>, x: u32, y: u32) -> (r: crate::color::Color)
    requires
        pending.wf(),
        pending.in_bounds(x as int, y as int),
        crate::color::bounded(pending.at(x as int, y as int), crate::color::COLOR_BOUND as int),
    ensures
        r == pending.at(x as int, y as int),
        crate::color::bounded(r, crate::color::COLOR_BOUND as int),
{
    match pending.get(x, y) {
        Some(c) => c,
        None => crate::color::Color::black(),  // unreachable: the cell is in bounds
    }
}

/// Down-convert a display color to the device's 2-bit red/green depth.
fn convert_color(color: crate::color::Color) -> (r: Color)
    requires
        crate::color::bounded(color, crate::color::COLOR_BOUND as int),
    ensures
        r.wf(),
        r == db_of_spec(color),
{
    let (red, green, _blue) = color.quantize(4);
    Color::new(red, green)
}

/// The absolute x coordinate of a button, in canvas space.
fn button_abs_x(button: LogicalButton) -> (r: u32)
    ensures
        r == crate::protocols::button_abs_x_spec(button),
{
    match button {
        LogicalButton::ControlButton { index } => index as u32,
        LogicalButton::GridButton { x, y: _ } => x as u32,
    }
}

/// The absolute y coordinate of a button, in canvas space.
fn button_abs_y(button: LogicalButton) -> (r: u32)
    ensures
        r == crate::protocols::button_abs_y_spec(button),
{
    match button {
        LogicalButton::ControlButton { .. } => 0,
        LogicalButton::GridButton { x: _, y } => (y as u32) + 1,
    }
}

} // verus!
