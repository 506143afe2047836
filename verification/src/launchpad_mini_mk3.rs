//! The Launchpad Mini MK3 low-level driver: the four button styles set
//! through one batched SysEx form, sleep and layout modes, adjustable
//! global brightness, text scrolling with a signed-direction speed, and
//! pure input decoding.

use vstd::prelude::*;

pub use crate::protocols::LogicalButton as Button;
pub use crate::query::{DeviceIdQuery, DeviceInquiry, VersionInquiry};

use crate::canvas::CanvasMessage;
use crate::errors::MidiError;
use crate::generic::DeviceSpec;
use crate::midi_io::{FrameQueue, InputDevice, OutputDevice};
use crate::protocols::LogicalButton;
use crate::query;
use crate::util::Array2d;

verus! {

/// An index into the device's built-in 128-color palette.
#[derive(Debug, Copy, Clone, Hash, Eq, PartialEq, Structural)]
pub struct PaletteColor {
    pub id: u8,
}

impl PaletteColor {
    /// The palette has 128 entries.
    pub open spec fn wf(&self) -> bool {
        self.id <= 127
    }

    pub fn is_valid(&self) -> (r: bool)
        ensures
            r == self.wf(),
    {
        self.id <= 127
    }

    pub fn new(id: u8) -> (c: PaletteColor)
        requires
            id <= 127,
        ensures
            c.id == id,
            c.wf(),
    {
        PaletteColor { id }
    }

    pub fn id(&self) -> (r: u8)
        ensures
            r == self.id,
    {
        self.id
    }

    pub fn set_id(&mut self, id: u8)
        ensures
            final(self).id == id,
    {
        self.id = id;
    }

    pub fn black() -> (c: PaletteColor)
        ensures
            c.id == 0,
            c.wf(),
    {
        PaletteColor { id: 0 }
    }

    pub fn white() -> (c: PaletteColor)
        ensures
            c.id == 3,
            c.wf(),
    {
        PaletteColor { id: 3 }
    }

    pub fn red() -> (c: PaletteColor)
        ensures
            c.id == 5,
            c.wf(),
    {
        PaletteColor { id: 5 }
    }

    pub fn yellow() -> (c: PaletteColor)
        ensures
            c.id == 13,
            c.wf(),
    {
        PaletteColor { id: 13 }
    }

    pub fn green() -> (c: PaletteColor)
        ensures
            c.id == 21,
            c.wf(),
    {
        PaletteColor { id: 21 }
    }

    pub fn blue() -> (c: PaletteColor)
        ensures
            c.id == 45,
            c.wf(),
    {
        PaletteColor { id: 45 }
    }

    pub fn purple() -> (c: PaletteColor)
        ensures
            c.id == 49,
            c.wf(),
    {
        PaletteColor { id: 49 }
    }

    pub fn magenta() -> (c: PaletteColor)
        ensures
            c.id == 53,
            c.wf(),
    {
        PaletteColor { id: 53 }
    }

    pub fn cyan() -> (c: PaletteColor)
        ensures
            c.id == 90,
            c.wf(),
    {
        PaletteColor { id: 90 }
    }
}

/// A full-precision color: seven bits per channel.
#[derive(Debug, Copy, Clone, Hash, Eq, PartialEq, Structural)]
pub struct RgbColor {
    pub r: u8,
    pub g: u8,
    pub b: u8,
}

impl RgbColor {
    pub open spec fn spec_red(&self) -> u8 {
        self.r
    }

    pub open spec fn spec_green(&self) -> u8 {
        self.g
    }

    pub open spec fn spec_blue(&self) -> u8 {
        self.b
    }

    /// Every channel fits the device's seven-bit depth.
    pub open spec fn wf(&self) -> bool {
        self.spec_red() <= 127 && self.spec_green() <= 127 && self.spec_blue() <= 127
    }

    pub fn new(r: u8, g: u8, b: u8) -> (c: RgbColor)
        requires
            r <= 127,
            g <= 127,
            b <= 127,
        ensures
            c.spec_red() == r,
            c.spec_green() == g,
            c.spec_blue() == b,
            c.wf(),
    {
        RgbColor { r, g, b }
    }

    pub fn is_valid(&self) -> (v: bool)
        ensures
            v == self.wf(),
    {
        self.r <= 127 && self.g <= 127 && self.b <= 127
    }

    pub fn red(&self) -> (v: u8)
        ensures
            v == self.spec_red(),
    {
        self.r
    }

    pub fn green(&self) -> (v: u8)
        ensures
            v == self.spec_green(),
    {
        self.g
    }

    pub fn blue(&self) -> (v: u8)
        ensures
            v == self.spec_blue(),
    {
        self.b
    }

    pub fn set_red(&mut self, r: u8)
        requires
            r <= 127,
        ensures
            final(self).spec_red() == r,
            final(self).spec_green() == old(self).spec_green(),
            final(self).spec_blue() == old(self).spec_blue(),
    {
        self.r = r;
    }

    pub fn set_green(&mut self, g: u8)
        requires
            g <= 127,
        ensures
            final(self).spec_green() == g,
            final(self).spec_red() == old(self).spec_red(),
            final(self).spec_blue() == old(self).spec_blue(),
    {
        self.g = g;
    }

    pub fn set_blue(&mut self, b: u8)
        requires
            b <= 127,
        ensures
            final(self).spec_blue() == b,
            final(self).spec_red() == old(self).spec_red(),
            final(self).spec_green() == old(self).spec_green(),
    {
        self.b = b;
    }
}

/// A button's requested visual treatment.
#[derive(Debug, Copy, Clone, Hash, Eq, PartialEq, Structural)]
pub enum ButtonStyle {
    /// A steady palette color.
    Palette { color: PaletteColor },
    /// A steady true-RGB color.
    Rgb { color: RgbColor },
    /// Flashing between two palette colors.
    Flash { color1: PaletteColor, color2: PaletteColor },
    /// Pulsing one palette color.
    Pulse { color: PaletteColor },
}

impl ButtonStyle {
    pub open spec fn wf(&self) -> bool {
        match *self {
            ButtonStyle::Palette { color } => color.wf(),
            ButtonStyle::Rgb { color } => color.wf(),
            ButtonStyle::Flash { color1, color2 } => color1.wf() && color2.wf(),
            ButtonStyle::Pulse { color } => color.wf(),
        }
    }

    /// A steady palette color.
    pub fn palette(color: PaletteColor) -> (s: ButtonStyle)
        ensures
            s == (ButtonStyle::Palette { color }),
    {
        ButtonStyle::Palette { color }
    }

    /// Flashing between the color and black.
    pub fn flash(color: PaletteColor) -> (s: ButtonStyle)
        ensures
            s == (ButtonStyle::Flash { color1: color, color2: (PaletteColor { id: 0u8 }) }),
    {
        ButtonStyle::Flash { color1: color, color2: PaletteColor::black() }
    }

    /// Flashing between two palette colors.
    pub fn flash2(color1: PaletteColor, color2: PaletteColor) -> (s: ButtonStyle)
        ensures
            s == (ButtonStyle::Flash { color1, color2 }),
    {
        ButtonStyle::Flash { color1, color2 }
    }

    /// Pulsing one palette color.
    pub fn pulse(color: PaletteColor) -> (s: ButtonStyle)
        ensures
            s == (ButtonStyle::Pulse { color }),
    {
        ButtonStyle::Pulse { color }
    }

    /// A steady true-RGB color.
    pub fn rgb(color: RgbColor) -> (s: ButtonStyle)
        ensures
            s == (ButtonStyle::Rgb { color }),
    {
        ButtonStyle::Rgb { color }
    }

    pub fn is_valid(&self) -> (r: bool)
        ensures
            r == self.wf(),
    {
        match *self {
            ButtonStyle::Palette { color } => color.is_valid(),
            ButtonStyle::Rgb { color } => color.is_valid(),
            ButtonStyle::Flash { color1, color2 } => color1.is_valid() && color2.is_valid(),
            ButtonStyle::Pulse { color } => color.is_valid(),
        }
    }
}

/// The device's sleep state.
#[derive(Copy, Clone, Debug, Hash, Eq, PartialEq, Structural)]
pub enum SleepMode {
    Sleep,
    Wake,
}

/// The wire code of a sleep mode: 0 sleeps, 1 wakes.
pub open spec fn sleep_mode_code_spec(mode: SleepMode) -> u8 {
    match mode {
        SleepMode::Sleep => 0,
        SleepMode::Wake => 1,
    }
}

/// The device's internal layout.
#[derive(Copy, Clone, Debug, Hash, Eq, PartialEq, Structural)]
pub enum Layout {
    /// Reserved for the vendor's own software.
    Live,
    /// The layout this library drives the device in.
    Programmer,
}

/// The wire code of a layout: 0 for live, 1 for programmer.
pub open spec fn layout_code_spec(layout: Layout) -> u8 {
    match layout {
        Layout::Live => 0,
        Layout::Programmer => 1,
    }
}

/// A raw four-byte version quadruple.
#[derive(Debug, Eq, PartialEq, Hash, Clone, Copy, Structural)]
pub struct Version {
    pub v1: u8,
    pub v2: u8,
    pub v3: u8,
    pub v4: u8,
}

/// The buttons the Mini MK3 can address: the 9 by 8 grid and sixteen
/// control indices — the first eight on the top row, the rest standing
/// for the right-edge column in batched row lighting.
pub open spec fn mk3_button_wf(b: LogicalButton) -> bool {
    match b {
        LogicalButton::ControlButton { index } => index <= 15,
        LogicalButton::GridButton { x, y } => x <= 8 && y <= 7,
    }
}

/// The wire code of a button: the two-digit grid encoding, 91 and up for
/// the first eight control buttons, and the right-edge column codes for
/// control indices 8 to 15.
pub open spec fn encode_button_spec(b: LogicalButton) -> u8 {
    match b {
        LogicalButton::GridButton { x, y } => (10 * (8 - y) + x + 1) as u8,
        LogicalButton::ControlButton { index } => if index <= 7 {
            (index + 91) as u8
        } else {
            ((8 - (index - 8)) * 10 + 9) as u8
        },
    }
}

/// The vendor SysEx prefix of every Mini MK3 command.
pub open spec fn sysex_prefix_spec(opcode: u8) -> Seq<u8> {
    seq![240u8, 0u8, 32u8, 41u8, 2u8, 13u8, opcode]
}

/// The bytes of one batched lighting entry: a style code, the button
/// code, and the style's payload.
pub open spec fn style_entry_spec(b: LogicalButton, style: ButtonStyle) -> Seq<u8> {
    match style {
        ButtonStyle::Palette { color } => seq![0u8, encode_button_spec(b), color.id],
        ButtonStyle::Flash { color1, color2 } => seq![
            1u8,
            encode_button_spec(b),
            color2.id,
            color1.id,
        ],
        ButtonStyle::Pulse { color } => seq![2u8, encode_button_spec(b), color.id],
        ButtonStyle::Rgb { color } => seq![
            3u8,
            encode_button_spec(b),
            color.spec_red(),
            color.spec_green(),
            color.spec_blue(),
        ],
    }
}

/// The entry bytes of a whole batch.
pub open spec fn style_entries_spec(entries: Seq<(LogicalButton, ButtonStyle)>) -> Seq<u8>
    decreases entries.len(),
{
    if entries.len() == 0 {
        Seq::empty()
    } else {
        let e = entries.last();
        style_entries_spec(entries.drop_last()) + style_entry_spec(e.0, e.1)
    }
}

/// The batched lighting message that all lighting operations share.
pub open spec fn set_buttons_frame_spec(entries: Seq<(LogicalButton, ButtonStyle)>) -> Seq<u8> {
    sysex_prefix_spec(3) + style_entries_spec(entries) + seq![247u8]
}

/// The first `n` batched entries of one whole grid column.
pub open spec fn column_entries_spec(column: u8, color: PaletteColor, n: int) -> Seq<
    (LogicalButton, ButtonStyle),
>
    decreases n,
{
    if n <= 0 {
        Seq::empty()
    } else {
        column_entries_spec(column, color, n - 1).push(
            (
                LogicalButton::GridButton { x: column, y: (n - 1) as u8 },
                ButtonStyle::Palette { color },
            ),
        )
    }
}

/// The batched entries of a list of whole columns.
pub open spec fn columns_entries_spec(columns: Seq<(u8, PaletteColor)>) -> Seq<
    (LogicalButton, ButtonStyle),
>
    decreases columns.len(),
{
    if columns.len() == 0 {
        Seq::empty()
    } else {
        let e = columns.last();
        columns_entries_spec(columns.drop_last()) + column_entries_spec(e.0, e.1, 8)
    }
}

/// The first `n` batched entries of one whole row: eight grid cells, then
/// the right-edge cell addressed as a high control index.
pub open spec fn row_entries_spec(row: u8, color: PaletteColor, n: int) -> Seq<
    (LogicalButton, ButtonStyle),
>
    decreases n,
{
    if n <= 0 {
        Seq::empty()
    } else if n <= 8 {
        row_entries_spec(row, color, n - 1).push(
            (
                LogicalButton::GridButton { x: (n - 1) as u8, y: row },
                ButtonStyle::Palette { color },
            ),
        )
    } else {
        row_entries_spec(row, color, 8).push(
            (
                LogicalButton::ControlButton { index: (8 + row) as u8 },
                ButtonStyle::Palette { color },
            ),
        )
    }
}

/// The batched entries of a list of whole rows.
pub open spec fn rows_entries_spec(rows: Seq<(u8, PaletteColor)>) -> Seq<
    (LogicalButton, ButtonStyle),
>
    decreases rows.len(),
{
    if rows.len() == 0 {
        Seq::empty()
    } else {
        let e = rows.last();
        rows_entries_spec(rows.drop_last()) + row_entries_spec(e.0, e.1, 9)
    }
}

/// The single-button lighting message.
pub open spec fn set_button_frame_spec(
    b: LogicalButton,
    color: PaletteColor,
    mode_offset: u8,
) -> Seq<u8> {
    match b {
        LogicalButton::GridButton { .. } => seq![
            (0x90 + mode_offset) as u8,
            encode_button_spec(b),
            color.id,
        ],
        LogicalButton::ControlButton { .. } => seq![
            (0xB0 + mode_offset) as u8,
            encode_button_spec(b),
            color.id,
        ],
    }
}

/// The cell bytes of the whole-panel fill: every cell code from 11 to 99,
/// row by row, as palette entries.
pub open spec fn light_all_cells_spec(color: PaletteColor, n: int) -> Seq<u8>
    decreases n,
{
    if n <= 0 {
        Seq::empty()
    } else {
        let i = n - 1;
        let row = i / 9 + 1;
        let col = i % 9 + 1;
        light_all_cells_spec(color, i) + seq![0u8, (row * 10 + col) as u8, color.id]
    }
}

/// The whole-panel fill message.
pub open spec fn light_all_frame_spec(color: PaletteColor) -> Seq<u8> {
    sysex_prefix_spec(3) + light_all_cells_spec(color, 81) + seq![247u8]
}

/// The sleep-mode set message; without the mode byte it is the query.
pub open spec fn sleep_frame_spec(mode: SleepMode) -> Seq<u8> {
    sysex_prefix_spec(9) + seq![sleep_mode_code_spec(mode), 247u8]
}

pub open spec fn request_sleep_frame_spec() -> Seq<u8> {
    sysex_prefix_spec(9) + seq![247u8]
}

/// The layout set message; without the layout byte it is the query.
pub open spec fn layout_frame_spec(layout: Layout) -> Seq<u8> {
    sysex_prefix_spec(14) + seq![layout_code_spec(layout), 247u8]
}

/// The brightness set message; without the level byte it is the query.
pub open spec fn brightness_frame_spec(brightness: u8) -> Seq<u8> {
    sysex_prefix_spec(8) + seq![brightness, 247u8]
}

pub open spec fn request_brightness_frame_spec() -> Seq<u8> {
    sysex_prefix_spec(8) + seq![247u8]
}

/// The text-scroll message: a loop flag, a speed whose values 64 and up
/// scroll backwards, and the text bytes.
pub open spec fn scroll_text_frame_spec(
    text: Seq<u8>,
    color: PaletteColor,
    speed: u8,
    should_loop: bool,
) -> Seq<u8> {
    sysex_prefix_spec(7) + seq![
        (if should_loop {
            1u8
        } else {
            0u8
        }),
        speed,
        0u8,
        color.id,
    ] + text + seq![247u8]
}

/// The empty text message that stops a running scroll.
pub open spec fn stop_scroll_frame_spec() -> Seq<u8> {
    sysex_prefix_spec(7) + seq![247u8]
}

/// The clock-tick message that paces flash and pulse animation.
pub open spec fn clock_tick_frame_spec() -> Seq<u8> {
    seq![248u8, 0u8, 0u8]
}

/// Encode one button as its wire code.
pub fn encode_button(button: LogicalButton) -> (r: u8)
    requires
        mk3_button_wf(button),
    ensures
        r == encode_button_spec(button),
{
    match button {
        LogicalButton::GridButton { x, y } => 10 * (8 - y) + x + 1,
        LogicalButton::ControlButton { index } => {
            if index <= 7 {
                index + 91
            } else {
                (8 - (index - 8)) * 10 + 9
            }
        },
    }
}

/// A Launchpad Mini MK3 input message.
#[derive(Debug, Eq, PartialEq, Clone, Copy, Structural)]
pub enum Message {
    /// A button was pressed.
    Press { button: Button },
    /// A button was released.
    Release { button: Button },
    /// One of the two responses to a device inquiry: the running
    /// application's version.
    ApplicationVersion(Version),
    /// The other response to a device inquiry: the bootloader's version.
    BootloaderVersion(Version),
    /// The response to a layout change or query.
    ChangeLayout(Layout),
    /// The response to a sleep-mode query.
    SleepMode(SleepMode),
    /// The response to a brightness query.
    Brightness(u8),
}

/// Whether a note number addresses a grid cell.
pub open spec fn is_grid_note(note: u8) -> bool {
    1 <= note as int % 10 <= 9 && 1 <= note as int / 10 <= 8
}

/// The grid button a note number addresses.
pub open spec fn grid_button_of_note(note: u8) -> LogicalButton {
    LogicalButton::GridButton {
        x: (note as int % 10 - 1) as u8,
        y: (8 - note as int / 10) as u8,
    }
}

/// Whether a controller number addresses a button: 91 to 98 for the top
/// row, or a right-edge grid code ending in 9.
pub open spec fn is_control_note(note: u8) -> bool {
    (91 <= note <= 98) || (19 <= note <= 89 && note as int % 10 == 9)
}

/// The button a controller number addresses.
pub open spec fn control_button_of_note(note: u8) -> LogicalButton {
    if 91 <= note <= 98 {
        LogicalButton::ControlButton { index: (note - 91) as u8 }
    } else {
        grid_button_of_note(note)
    }
}

/// What one raw frame means to a Launchpad Mini MK3.
pub open spec fn decode_spec(data: Seq<u8>) -> Option<Message> {
    if data.len() == 3 {
        let status = data[0];
        let note = data[1];
        let velocity = data[2];
        if status == 0x90 && is_grid_note(note) {
            if velocity == 127 {
                Some(Message::Press { button: grid_button_of_note(note) })
            } else if velocity == 0 {
                Some(Message::Release { button: grid_button_of_note(note) })
            } else {
                None
            }
        } else if status == 0xB0 && is_control_note(note) {
            if velocity == 127 {
                Some(Message::Press { button: control_button_of_note(note) })
            } else if velocity == 0 {
                Some(Message::Release { button: control_button_of_note(note) })
            } else {
                None
            }
        } else if status == 0x80 && is_grid_note(note) && velocity == 0x40 {
            Some(Message::Release { button: grid_button_of_note(note) })
        } else {
            None
        }
    } else if data.len() == 17 && data[0] == 240 && data[1] == 126 && data[2] == 0 && data[3]
        == 6 && data[4] == 2 && data[5] == 0 && data[6] == 32 && data[7] == 41 && data[8] == 19
        && data[10] == 0 && data[11] == 0 && data[16] == 247 && (data[9] == 1 || data[9]
        == 17) {
        let version = Version { v1: data[12], v2: data[13], v3: data[14], v4: data[15] };
        if data[9] == 1 {
            Some(Message::ApplicationVersion(version))
        } else {
            Some(Message::BootloaderVersion(version))
        }
    } else if data.len() == 9 && data[0] == 240 && data[1] == 0 && data[2] == 32 && data[3] == 41
        && data[4] == 2 && data[5] == 13 && data[8] == 247 {
        if data[6] == 9 {
            if data[7] == 0 {
                Some(Message::SleepMode(SleepMode::Sleep))
            } else {
                Some(Message::SleepMode(SleepMode::Wake))
            }
        } else if data[6] == 14 {
            if data[7] == 0 {
                Some(Message::ChangeLayout(Layout::Live))
            } else if data[7] == 1 {
                Some(Message::ChangeLayout(Layout::Programmer))
            } else {
                None
            }
        } else if data[6] == 8 {
            Some(Message::Brightness(data[7]))
        } else {
            None
        }
    } else {
        None
    }
}

/// The Launchpad Mini MK3 input connection creator.
///
/// The device advertises a DAW interface and a MIDI interface; only the
/// MIDI interface is usable, so the keyword pins it down.
pub struct Input;

impl InputDevice for Input {
    type Message = Message;

    fn midi_connection_name() -> &'static str {
        "Launchy Mini Mk3 Input"
    }

    fn midi_device_keyword() -> &'static str {
        "Launchpad Mini MK3 LPMiniMK3 MI"
    }

    fn decode_message(timestamp: u64, data: &[u8]) -> (r: Option<Message>)
        ensures
            r == decode_spec(data@),
    {
        decode(timestamp, data)
    }
}

/// Decode one raw frame into a Launchpad Mini MK3 message.
pub fn decode(timestamp: u64, data: &[u8]) -> (r: Option<Message>)
    ensures
        r == decode_spec(data@),
{
    if data.len() == 3 {
        let status = data[0];
        let note = data[1];
        let velocity = data[2];
        let grid_note: bool = note % 10 >= 1 && note / 10 >= 1 && note / 10 <= 8;
        if status == 0x90 && grid_note {
            let button = LogicalButton::GridButton { x: note % 10 - 1, y: 8 - note / 10 };
            if velocity == 127 {
                Some(Message::Press { button })
            } else if velocity == 0 {
                Some(Message::Release { button })
            } else {
                None
            }
        } else if status == 0xB0 && (91 <= note && note <= 98 || 19 <= note && note <= 89
            && note % 10 == 9) {
            let button = if 91 <= note && note <= 98 {
                LogicalButton::ControlButton { index: note - 91 }
            } else {
                LogicalButton::GridButton { x: note % 10 - 1, y: 8 - note / 10 }
            };
            if velocity == 127 {
                Some(Message::Press { button })
            } else if velocity == 0 {
                Some(Message::Release { button })
            } else {
                None
            }
        } else if status == 0x80 && grid_note && velocity == 0x40 {
            let button = LogicalButton::GridButton { x: note % 10 - 1, y: 8 - note / 10 };
            Some(Message::Release { button })
        } else {
            None
        }
    } else if data.len() == 17 && data[0] == 240 && data[1] == 126 && data[2] == 0 && data[3]
        == 6 && data[4] == 2 && data[5] == 0 && data[6] == 32 && data[7] == 41 && data[8] == 19
        && data[10] == 0 && data[11] == 0 && data[16] == 247 && (data[9] == 1 || data[9]
        == 17) {
        let version = Version { v1: data[12], v2: data[13], v3: data[14], v4: data[15] };
        if data[9] == 1 {
            Some(Message::ApplicationVersion(version))
        } else {
            Some(Message::BootloaderVersion(version))
        }
    } else if data.len() == 9 && data[0] == 240 && data[1] == 0 && data[2] == 32 && data[3] == 41
        && data[4] == 2 && data[5] == 13 && data[8] == 247 {
        if data[6] == 9 {
            if data[7] == 0 {
                Some(Message::SleepMode(SleepMode::Sleep))
            } else {
                Some(Message::SleepMode(SleepMode::Wake))
            }
        } else if data[6] == 14 {
            if data[7] == 0 {
                Some(Message::ChangeLayout(Layout::Live))
            } else if data[7] == 1 {
                Some(Message::ChangeLayout(Layout::Programmer))
            } else {
                None
            }
        } else if data[6] == 8 {
            Some(Message::Brightness(data[7]))
        } else {
            None
        }
    } else {
        None
    }
}

/// The Launchpad Mini MK3 output handler.
pub struct Output {
    queue: FrameQueue,
}

impl OutputDevice for Output {
    closed spec fn frames(&self) -> Seq<Seq<u8>> {
        self.queue.frames()
    }

    fn midi_connection_name() -> &'static str {
        "Launchy Mini Mk3 output"
    }

    fn midi_device_keyword() -> &'static str {
        "Launchpad Mini MK3 LPMiniMK3 MIDI"
    }

    fn send(&mut self, bytes: &[u8]) -> (r: Result<(), MidiError>) {
        self.queue.push_slice(bytes);
        Ok(())
    }

    fn take_frames(&mut self) -> (r: Vec<Vec<u8>>) {
        self.queue.take()
    }
}

impl Output {
    /// A fresh output that starts by selecting the programmer layout, so
    /// the library's addressing is valid whatever state the device was
    /// left in.
    pub fn new() -> (r: Output)
        ensures
            r.frames() == Seq::<Seq<u8>>::empty().push(layout_frame_spec(Layout::Programmer)),
    {
        let mut output = Output { queue: FrameQueue::new() };
        let _ = output.change_layout(Layout::Programmer);
        output
    }

    /// Light a single button in plain, flash or pulse mode; the offset is
    /// 0, 1 or 2 on the status byte.
    fn set_button_with_offset(
        &mut self,
        button: Button,
        color: PaletteColor,
        mode_offset: u8,
    ) -> (r: Result<(), MidiError>)
        requires
            color.wf(),
            mk3_button_wf(button),
            mode_offset <= 2,
        ensures
            r is Ok,
            final(self).frames() == old(self).frames().push(
                set_button_frame_spec(button, color, mode_offset),
            ),
    {
        let type_byte: u8 = match button {
            LogicalButton::GridButton { .. } => 0x90,
            LogicalButton::ControlButton { .. } => 0xB0,
        } + mode_offset;
        let bytes: [u8; 3] = [type_byte, encode_button(button), color.id];
        proof {
            assert(bytes@ =~= set_button_frame_spec(button, color, mode_offset));
        }
        self.send(bytes.as_slice())
    }

    /// Light up to 81 buttons, each with any style, in one message.
    pub fn set_buttons(&mut self, buttons: &[(Button, ButtonStyle)]) -> (r: Result<
        (),
        MidiError,
    >)
        requires
            buttons@.len() <= 81,
            forall|k: int|
                0 <= k < buttons@.len() ==> mk3_button_wf((#[trigger] buttons@[k]).0)
                    && buttons@[k].1.wf(),
        ensures
            r is Ok,
            final(self).frames() == old(self).frames().push(set_buttons_frame_spec(buttons@)),
    {
        let mut bytes: Vec<u8> = Vec::new();
        bytes.push(240);
        bytes.push(0);
        bytes.push(32);
        bytes.push(41);
        bytes.push(2);
        bytes.push(13);
        bytes.push(3);
        let n = buttons.len();
        let mut k: usize = 0;
        while k < n
            invariant
                0 <= k <= n,
                n == buttons@.len(),
                forall|m: int|
                    0 <= m < buttons@.len() ==> mk3_button_wf((#[trigger] buttons@[m]).0)
                        && buttons@[m].1.wf(),
                bytes@ == sysex_prefix_spec(3) + style_entries_spec(buttons@.take(k as int)),
            decreases n - k,
        {
            let (button, style) = buttons[k];
            let code = encode_button(button);
            match style {
                ButtonStyle::Palette { color } => {
                    bytes.push(0);
                    bytes.push(code);
                    bytes.push(color.id);
                },
                ButtonStyle::Rgb { color } => {
                    bytes.push(3);
                    bytes.push(code);
                    bytes.push(color.red());
                    bytes.push(color.green());
                    bytes.push(color.blue());
                },
                ButtonStyle::Flash { color1, color2 } => {
                    bytes.push(1);
                    bytes.push(code);
                    bytes.push(color2.id);
                    bytes.push(color1.id);
                },
                ButtonStyle::Pulse { color } => {
                    bytes.push(2);
                    bytes.push(code);
                    bytes.push(color.id);
                },
            }
            proof {
                assert(buttons@.take(k + 1).drop_last() =~= buttons@.take(k as int));
                assert(bytes@ =~= sysex_prefix_spec(3) + style_entries_spec(
                    buttons@.take(k + 1),
                ));
            }
            k = k + 1;
        }
        bytes.push(247);
        proof {
            assert(buttons@.take(n as int) =~= buttons@);
            assert(bytes@ =~= set_buttons_frame_spec(buttons@));
        }
        self.send(bytes.as_slice())
    }

    /// Light up to 81 buttons in true RGB in one batched message.
    pub fn light_multiple_rgb(&mut self, buttons: &[(Button, RgbColor)]) -> (r: Result<
        (),
        MidiError,
    >)
        requires
            buttons@.len() <= 81,
            forall|k: int|
                0 <= k < buttons@.len() ==> mk3_button_wf((#[trigger] buttons@[k]).0)
                    && buttons@[k].1.wf(),
        ensures
            r is Ok,
            final(self).frames() == old(self).frames().push(
                set_buttons_frame_spec(
                    buttons@.map_values(
                        |e: (Button, RgbColor)|
                            (e.0, ButtonStyle::Rgb { color: e.1 }),
                    ),
                ),
            ),
    {
        let mut styled: Vec<(Button, ButtonStyle)> = Vec::new();
        let n = buttons.len();
        let mut k: usize = 0;
        while k < n
            invariant
                0 <= k <= n,
                n == buttons@.len(),
                forall|m: int|
                    0 <= m < buttons@.len() ==> mk3_button_wf((#[trigger] buttons@[m]).0)
                        && buttons@[m].1.wf(),
                styled@ == buttons@.take(k as int).map_values(
                    |e: (Button, RgbColor)| (e.0, ButtonStyle::Rgb { color: e.1 }),
                ),
            decreases n - k,
        {
            let (button, color) = buttons[k];
            styled.push((button, ButtonStyle::Rgb { color }));
            proof {
                assert(styled@ =~= buttons@.take(k + 1).map_values(
                    |e: (Button, RgbColor)| (e.0, ButtonStyle::Rgb { color: e.1 }),
                ));
            }
            k = k + 1;
        }
        proof {
            assert(buttons@.take(n as int) =~= buttons@);
        }
        self.set_buttons(styled.as_slice())
    }

    /// Fill the whole panel, control row and right edge included, with one
    /// palette color.
    pub fn light_all(&mut self, color: PaletteColor) -> (r: Result<(), MidiError>)
        requires
            color.wf(),
        ensures
            r is Ok,
            final(self).frames() == old(self).frames().push(light_all_frame_spec(color)),
    {
        let mut bytes: Vec<u8> = Vec::new();
        bytes.push(240);
        bytes.push(0);
        bytes.push(32);
        bytes.push(41);
        bytes.push(2);
        bytes.push(13);
        bytes.push(3);
        let mut n: u32 = 0;
        while n < 81
            invariant
                0 <= n <= 81,
                color.wf(),
                bytes@ == sysex_prefix_spec(3) + light_all_cells_spec(color, n as int),
            decreases 81 - n,
        {
            let row: u32 = n / 9 + 1;
            let col: u32 = n % 9 + 1;
            proof {
                vstd::arithmetic::div_mod::lemma_mod_division_less_than_divisor(n as int, 9);
                vstd::arithmetic::div_mod::lemma_div_is_ordered(0, n as int, 9);
                vstd::arithmetic::div_mod::lemma_div_is_ordered(n as int, 80, 9);
                vstd::arithmetic::div_mod::lemma_div_of0(9);
            }
            bytes.push(0);
            bytes.push((row * 10 + col) as u8);
            bytes.push(color.id);
            proof {
                assert(bytes@ =~= sysex_prefix_spec(3) + light_all_cells_spec(
                    color,
                    n as int + 1,
                ));
            }
            n = n + 1;
        }
        bytes.push(247);
        proof {
            assert(bytes@ =~= light_all_frame_spec(color));
        }
        self.send(bytes.as_slice())
    }

    /// One clock tick; twenty-four of them pace one beat of flash and
    /// pulse animation.
    pub fn send_clock_tick(&mut self) -> (r: Result<(), MidiError>)
        ensures
            r is Ok,
            final(self).frames() == old(self).frames().push(clock_tick_frame_spec()),
    {
        let bytes: [u8; 3] = [248, 0, 0];
        proof {
            assert(bytes@ =~= clock_tick_frame_spec());
        }
        self.send(bytes.as_slice())
    }

    /// Queue a device inquiry request; the device answers with both its
    /// application version and its bootloader version.
    pub fn request_device_inquiry(&mut self, query: DeviceIdQuery) -> (r: Result<(), MidiError>)
        requires
            query matches DeviceIdQuery::Specific(id) ==> id != query::QUERY_DEVICE_ID_FOR_ANY,
        ensures
            r is Ok,
            final(self).frames() == old(self).frames().push(
                query::device_inquiry_request_spec(query),
            ),
    {
        query::request_device_inquiry(self, query)
    }

    /// Ask which sleep mode the device is in.
    pub fn request_sleep_mode(&mut self) -> (r: Result<(), MidiError>)
        ensures
            r is Ok,
            final(self).frames() == old(self).frames().push(request_sleep_frame_spec()),
    {
        let bytes: [u8; 8] = [240, 0, 32, 41, 2, 13, 9, 247];
        proof {
            assert(bytes@ =~= request_sleep_frame_spec());
        }
        self.send(bytes.as_slice())
    }

    /// Queue a text scroll. Speeds 64 and up scroll backwards; the device
    /// gives no end-of-scroll notice, so a looping scroll must be stopped
    /// explicitly.
    pub fn scroll_text(
        &mut self,
        text: &[u8],
        color: PaletteColor,
        speed: u8,
        should_loop: bool,
    ) -> (r: Result<(), MidiError>)
        requires
            color.wf(),
            speed <= 127,
        ensures
            r is Ok,
            final(self).frames() == old(self).frames().push(
                scroll_text_frame_spec(text@, color, speed, should_loop),
            ),
    {
        let mut bytes: Vec<u8> = Vec::new();
        bytes.push(240);
        bytes.push(0);
        bytes.push(32);
        bytes.push(41);
        bytes.push(2);
        bytes.push(13);
        bytes.push(7);
        bytes.push(
            if should_loop {
                1
            } else {
                0
            },
        );
        bytes.push(speed);
        bytes.push(0);
        bytes.push(color.id);
        bytes.extend_from_slice(text);
        bytes.push(247);
        proof {
            assert(bytes@ =~= scroll_text_frame_spec(text@, color, speed, should_loop));
        }
        self.send(bytes.as_slice())
    }

    /// Stop a running text scroll.
    pub fn stop_scroll(&mut self) -> (r: Result<(), MidiError>)
        ensures
            r is Ok,
            final(self).frames() == old(self).frames().push(stop_scroll_frame_spec()),
    {
        let bytes: [u8; 8] = [240, 0, 32, 41, 2, 13, 7, 247];
        proof {
            assert(bytes@ =~= stop_scroll_frame_spec());
        }
        self.send(bytes.as_slice())
    }

    /// Put the device to sleep or wake it.
    pub fn send_sleep(&mut self, sleep_mode: SleepMode) -> (r: Result<(), MidiError>)
        ensures
            r is Ok,
            final(self).frames() == old(self).frames().push(sleep_frame_spec(sleep_mode)),
    {
        let code: u8 = match sleep_mode {
            SleepMode::Sleep => 0,
            SleepMode::Wake => 1,
        };
        let bytes: [u8; 9] = [240, 0, 32, 41, 2, 13, 9, code, 247];
        proof {
            assert(bytes@ =~= sleep_frame_spec(sleep_mode));
        }
        self.send(bytes.as_slice())
    }

    /// Select the device's internal layout.
    pub fn change_layout(&mut self, layout: Layout) -> (r: Result<(), MidiError>)
        ensures
            r is Ok,
            final(self).frames() == old(self).frames().push(layout_frame_spec(layout)),
    {
        let code: u8 = match layout {
            Layout::Live => 0,
            Layout::Programmer => 1,
        };
        let bytes: [u8; 9] = [240, 0, 32, 41, 2, 13, 14, code, 247];
        proof {
            assert(bytes@ =~= layout_frame_spec(layout));
        }
        self.send(bytes.as_slice())
    }

    /// Put the device to sleep.
    pub fn sleep(&mut self) -> (r: Result<(), MidiError>)
        ensures
            r is Ok,
            final(self).frames() == old(self).frames().push(sleep_frame_spec(SleepMode::Sleep)),
    {
        self.send_sleep(SleepMode::Sleep)
    }

    /// Wake the device.
    pub fn wake(&mut self) -> (r: Result<(), MidiError>)
        ensures
            r is Ok,
            final(self).frames() == old(self).frames().push(sleep_frame_spec(SleepMode::Wake)),
    {
        self.send_sleep(SleepMode::Wake)
    }

    /// Light a single button steadily from the palette.
    pub fn light(&mut self, button: Button, color: PaletteColor) -> (r: Result<(), MidiError>)
        requires
            color.wf(),
            mk3_button_wf(button),
        ensures
            r is Ok,
            final(self).frames() == old(self).frames().push(
                set_button_frame_spec(button, color, 0),
            ),
    {
        self.set_button_with_offset(button, color, 0)
    }

    /// Flash a single button between its color and black.
    pub fn flash(&mut self, button: Button, color: PaletteColor) -> (r: Result<(), MidiError>)
        requires
            color.wf(),
            mk3_button_wf(button),
        ensures
            r is Ok,
            final(self).frames() == old(self).frames().push(
                set_button_frame_spec(button, color, 1),
            ),
    {
        self.set_button_with_offset(button, color, 1)
    }

    /// Pulse a single button's brightness.
    pub fn pulse(&mut self, button: Button, color: PaletteColor) -> (r: Result<(), MidiError>)
        requires
            color.wf(),
            mk3_button_wf(button),
        ensures
            r is Ok,
            final(self).frames() == old(self).frames().push(
                set_button_frame_spec(button, color, 2),
            ),
    {
        self.set_button_with_offset(button, color, 2)
    }

    /// Light a single button in true RGB.
    pub fn light_rgb(&mut self, button: Button, color: RgbColor) -> (r: Result<(), MidiError>)
        requires
            color.wf(),
            mk3_button_wf(button),
        ensures
            r is Ok,
            final(self).frames() == old(self).frames().push(
                set_buttons_frame_spec(seq![(button, ButtonStyle::Rgb { color })]),
            ),
    {
        let entries: [(Button, ButtonStyle); 1] = [(button, ButtonStyle::Rgb { color })];
        let r = self.set_buttons(entries.as_slice());
        proof {
            assert(entries@ =~= seq![(button, ButtonStyle::Rgb { color })]);
        }
        r
    }

    /// Light up to 81 buttons steadily from the palette.
    pub fn light_multiple(&mut self, buttons: &[(Button, PaletteColor)]) -> (r: Result<
        (),
        MidiError,
    >)
        requires
            buttons@.len() <= 81,
            forall|k: int|
                0 <= k < buttons@.len() ==> mk3_button_wf((#[trigger] buttons@[k]).0)
                    && buttons@[k].1.wf(),
        ensures
            r is Ok,
            final(self).frames() == old(self).frames().push(
                set_buttons_frame_spec(
                    buttons@.map_values(
                        |e: (Button, PaletteColor)|
                            (e.0, ButtonStyle::Palette { color: e.1 }),
                    ),
                ),
            ),
    {
        let mut styled: Vec<(Button, ButtonStyle)> = Vec::new();
        let n = buttons.len();
        let mut k: usize = 0;
        while k < n
            invariant
                0 <= k <= n,
                n == buttons@.len(),
                forall|m: int|
                    0 <= m < buttons@.len() ==> mk3_button_wf((#[trigger] buttons@[m]).0)
                        && buttons@[m].1.wf(),
                styled@ == buttons@.take(k as int).map_values(
                    |e: (Button, PaletteColor)| (e.0, ButtonStyle::Palette { color: e.1 }),
                ),
            decreases n - k,
        {
            let (button, color) = buttons[k];
            styled.push((button, ButtonStyle::Palette { color }));
            proof {
                assert(styled@ =~= buttons@.take(k + 1).map_values(
                    |e: (Button, PaletteColor)| (e.0, ButtonStyle::Palette { color: e.1 }),
                ));
            }
            k = k + 1;
        }
        proof {
            assert(buttons@.take(n as int) =~= buttons@);
        }
        self.set_buttons(styled.as_slice())
    }

    /// Flash up to 81 buttons between their color and black.
    pub fn flash_multiple(&mut self, buttons: &[(Button, PaletteColor)]) -> (r: Result<
        (),
        MidiError,
    >)
        requires
            buttons@.len() <= 81,
            forall|k: int|
                0 <= k < buttons@.len() ==> mk3_button_wf((#[trigger] buttons@[k]).0)
                    && buttons@[k].1.wf(),
        ensures
            r is Ok,
            final(self).frames() == old(self).frames().push(
                set_buttons_frame_spec(
                    buttons@.map_values(
                        |e: (Button, PaletteColor)|
                            (
                                e.0,
                                ButtonStyle::Flash {
                                    color1: e.1,
                                    color2: (PaletteColor { id: 0u8 }),
                                },
                            ),
                    ),
                ),
            ),
    {
        let mut styled: Vec<(Button, ButtonStyle)> = Vec::new();
        let n = buttons.len();
        let mut k: usize = 0;
        while k < n
            invariant
                0 <= k <= n,
                n == buttons@.len(),
                forall|m: int|
                    0 <= m < buttons@.len() ==> mk3_button_wf((#[trigger] buttons@[m]).0)
                        && buttons@[m].1.wf(),
                styled@ == buttons@.take(k as int).map_values(
                    |e: (Button, PaletteColor)|
                        (e.0, ButtonStyle::Flash { color1: e.1, color2: (PaletteColor { id: 0u8 }) }),
                ),
            decreases n - k,
        {
            let (button, color) = buttons[k];
            styled.push((button, ButtonStyle::flash(color)));
            proof {
                assert(styled@ =~= buttons@.take(k + 1).map_values(
                    |e: (Button, PaletteColor)|
                        (
                            e.0,
                            ButtonStyle::Flash {
                                color1: e.1,
                                color2: (PaletteColor { id: 0u8 }),
                            },
                        ),
                ));
            }
            k = k + 1;
        }
        proof {
            assert(buttons@.take(n as int) =~= buttons@);
        }
        self.set_buttons(styled.as_slice())
    }

    /// Pulse up to 81 buttons from the palette.
    pub fn pulse_multiple(&mut self, buttons: &[(Button, PaletteColor)]) -> (r: Result<
        (),
        MidiError,
    >)
        requires
            buttons@.len() <= 81,
            forall|k: int|
                0 <= k < buttons@.len() ==> mk3_button_wf((#[trigger] buttons@[k]).0)
                    && buttons@[k].1.wf(),
        ensures
            r is Ok,
            final(self).frames() == old(self).frames().push(
                set_buttons_frame_spec(
                    buttons@.map_values(
                        |e: (Button, PaletteColor)|
                            (e.0, ButtonStyle::Pulse { color: e.1 }),
                    ),
                ),
            ),
    {
        let mut styled: Vec<(Button, ButtonStyle)> = Vec::new();
        let n = buttons.len();
        let mut k: usize = 0;
        while k < n
            invariant
                0 <= k <= n,
                n == buttons@.len(),
                forall|m: int|
                    0 <= m < buttons@.len() ==> mk3_button_wf((#[trigger] buttons@[m]).0)
                        && buttons@[m].1.wf(),
                styled@ == buttons@.take(k as int).map_values(
                    |e: (Button, PaletteColor)| (e.0, ButtonStyle::Pulse { color: e.1 }),
                ),
            decreases n - k,
        {
            let (button, color) = buttons[k];
            styled.push((button, ButtonStyle::Pulse { color }));
            proof {
                assert(styled@ =~= buttons@.take(k + 1).map_values(
                    |e: (Button, PaletteColor)| (e.0, ButtonStyle::Pulse { color: e.1 }),
                ));
            }
            k = k + 1;
        }
        proof {
            assert(buttons@.take(n as int) =~= buttons@);
        }
        self.set_buttons(styled.as_slice())
    }

    /// Light one whole grid column (eight cells).
    pub fn light_column(&mut self, column: u8, color: PaletteColor) -> (r: Result<(), MidiError>)
        requires
            column <= 8,
            color.wf(),
        ensures
            r is Ok,
            final(self).frames() == old(self).frames().push(
                set_buttons_frame_spec(column_entries_spec(column, color, 8)),
            ),
    {
        let mut entries: Vec<(Button, ButtonStyle)> = Vec::new();
        let mut y: u8 = 0;
        while y < 8
            invariant
                0 <= y <= 8,
                column <= 8,
                color.wf(),
                entries@ == column_entries_spec(column, color, y as int),
                entries@.len() == y as int,
                forall|m: int|
                    0 <= m < entries@.len() ==> mk3_button_wf((#[trigger] entries@[m]).0)
                        && entries@[m].1.wf(),
            decreases 8 - y,
        {
            entries.push(
                (LogicalButton::GridButton { x: column, y }, ButtonStyle::Palette { color }),
            );
            y = y + 1;
        }
        self.set_buttons(entries.as_slice())
    }

    /// Light up to 9 whole columns.
    pub fn light_columns(&mut self, columns: &[(u8, PaletteColor)]) -> (r: Result<
        (),
        MidiError,
    >)
        requires
            columns@.len() <= 9,
            forall|k: int|
                0 <= k < columns@.len() ==> (#[trigger] columns@[k]).0 <= 8
                    && columns@[k].1.wf(),
        ensures
            r is Ok,
            final(self).frames() == old(self).frames().push(
                set_buttons_frame_spec(columns_entries_spec(columns@)),
            ),
    {
        let mut entries: Vec<(Button, ButtonStyle)> = Vec::new();
        let n = columns.len();
        let mut k: usize = 0;
        while k < n
            invariant
                0 <= k <= n,
                n == columns@.len(),
                n <= 9,
                forall|m: int|
                    0 <= m < columns@.len() ==> (#[trigger] columns@[m]).0 <= 8
                        && columns@[m].1.wf(),
                entries@ == columns_entries_spec(columns@.take(k as int)),
                entries@.len() == 8 * k,
                forall|m: int|
                    0 <= m < entries@.len() ==> mk3_button_wf((#[trigger] entries@[m]).0)
                        && entries@[m].1.wf(),
            decreases n - k,
        {
            let (column, color) = columns[k];
            let ghost before = entries@;
            let mut y: u8 = 0;
            while y < 8
                invariant
                    0 <= y <= 8,
                    column == columns@[k as int].0,
                    color == columns@[k as int].1,
                    0 <= k < columns@.len(),
                    column <= 8,
                    color.wf(),
                    entries@ == before + column_entries_spec(column, color, y as int),
                    before == columns_entries_spec(columns@.take(k as int)),
                    entries@.len() == 8 * k + y as int,
                    forall|m: int|
                        0 <= m < entries@.len() ==> mk3_button_wf((#[trigger] entries@[m]).0)
                            && entries@[m].1.wf(),
                decreases 8 - y,
            {
                entries.push(
                    (LogicalButton::GridButton { x: column, y }, ButtonStyle::Palette { color }),
                );
                proof {
                    assert(entries@ =~= before + column_entries_spec(
                        column,
                        color,
                        y as int + 1,
                    ));
                }
                y = y + 1;
            }
            proof {
                assert(columns@.take(k + 1).drop_last() =~= columns@.take(k as int));
                assert(columns@.take(k + 1).last() == columns@[k as int]);
                assert(entries@ =~= columns_entries_spec(columns@.take(k + 1)));
            }
            k = k + 1;
        }
        proof {
            assert(columns@.take(n as int) =~= columns@);
        }
        self.set_buttons(entries.as_slice())
    }

    /// Light one whole row: eight grid cells plus the right-edge cell,
    /// which is addressed as a high control index.
    pub fn light_row(&mut self, row: u8, color: PaletteColor) -> (r: Result<(), MidiError>)
        requires
            row <= 7,
            color.wf(),
        ensures
            r is Ok,
            final(self).frames() == old(self).frames().push(
                set_buttons_frame_spec(row_entries_spec(row, color, 9)),
            ),
    {
        let mut entries: Vec<(Button, ButtonStyle)> = Vec::new();
        let mut x: u8 = 0;
        while x < 8
            invariant
                0 <= x <= 8,
                row <= 7,
                color.wf(),
                entries@ == row_entries_spec(row, color, x as int),
                entries@.len() == x as int,
                forall|m: int|
                    0 <= m < entries@.len() ==> mk3_button_wf((#[trigger] entries@[m]).0)
                        && entries@[m].1.wf(),
            decreases 8 - x,
        {
            entries.push(
                (LogicalButton::GridButton { x, y: row }, ButtonStyle::Palette { color }),
            );
            x = x + 1;
        }
        entries.push(
            (LogicalButton::ControlButton { index: 8 + row }, ButtonStyle::Palette { color }),
        );
        proof {
            assert(entries@ =~= row_entries_spec(row, color, 9));
        }
        self.set_buttons(entries.as_slice())
    }

    /// Light up to 9 whole rows.
    pub fn light_rows(&mut self, rows: &[(u8, PaletteColor)]) -> (r: Result<(), MidiError>)
        requires
            rows@.len() <= 9,
            forall|k: int| 0 <= k < rows@.len() ==> (#[trigger] rows@[k]).0 <= 7 && rows@[k].1.wf(),
        ensures
            r is Ok,
            final(self).frames() == old(self).frames().push(
                set_buttons_frame_spec(rows_entries_spec(rows@)),
            ),
    {
        let mut entries: Vec<(Button, ButtonStyle)> = Vec::new();
        let n = rows.len();
        let mut k: usize = 0;
        while k < n
            invariant
                0 <= k <= n,
                n == rows@.len(),
                n <= 9,
                forall|m: int|
                    0 <= m < rows@.len() ==> (#[trigger] rows@[m]).0 <= 7 && rows@[m].1.wf(),
                entries@ == rows_entries_spec(rows@.take(k as int)),
                entries@.len() == 9 * k,
                forall|m: int|
                    0 <= m < entries@.len() ==> mk3_button_wf((#[trigger] entries@[m]).0)
                        && entries@[m].1.wf(),
            decreases n - k,
        {
            let (row, color) = rows[k];
            let ghost before = entries@;
            let mut x: u8 = 0;
            while x < 8
                invariant
                    0 <= x <= 8,
                    row == rows@[k as int].0,
                    color == rows@[k as int].1,
                    0 <= k < rows@.len(),
                    row <= 7,
                    color.wf(),
                    entries@ == before + row_entries_spec(row, color, x as int),
                    before == rows_entries_spec(rows@.take(k as int)),
                    entries@.len() == 9 * k + x as int,
                    forall|m: int|
                        0 <= m < entries@.len() ==> mk3_button_wf((#[trigger] entries@[m]).0)
                            && entries@[m].1.wf(),
                decreases 8 - x,
            {
                entries.push(
                    (LogicalButton::GridButton { x, y: row }, ButtonStyle::Palette { color }),
                );
                proof {
                    assert(entries@ =~= before + row_entries_spec(row, color, x as int + 1));
                }
                x = x + 1;
            }
            entries.push(
                (
                    LogicalButton::ControlButton { index: 8 + row },
                    ButtonStyle::Palette { color },
                ),
            );
            proof {
                assert(entries@ =~= before + row_entries_spec(row, color, 9));
                assert(rows@.take(k + 1).drop_last() =~= rows@.take(k as int));
                assert(rows@.take(k + 1).last() == rows@[k as int]);
                assert(entries@ =~= rows_entries_spec(rows@.take(k + 1)));
            }
            k = k + 1;
        }
        proof {
            assert(rows@.take(n as int) =~= rows@);
        }
        self.set_buttons(entries.as_slice())
    }

    /// Set the global LED brightness.
    pub fn set_brightness(&mut self, brightness: u8) -> (r: Result<(), MidiError>)
        requires
            brightness <= 127,
        ensures
            r is Ok,
            final(self).frames() == old(self).frames().push(brightness_frame_spec(brightness)),
    {
        let bytes: [u8; 9] = [240, 0, 32, 41, 2, 13, 8, brightness, 247];
        proof {
            assert(bytes@ =~= brightness_frame_spec(brightness));
        }
        self.send(bytes.as_slice())
    }

    /// Ask for the current global LED brightness.
    pub fn request_brightness(&mut self) -> (r: Result<(), MidiError>)
        ensures
            r is Ok,
            final(self).frames() == old(self).frames().push(request_brightness_frame_spec()),
    {
        let bytes: [u8; 8] = [240, 0, 32, 41, 2, 13, 8, 247];
        proof {
            assert(bytes@ =~= request_brightness_frame_spec());
        }
        self.send(bytes.as_slice())
    }

    /// Turn the whole panel off.
    pub fn clear(&mut self) -> (r: Result<(), MidiError>)
        ensures
            r is Ok,
            final(self).frames() == old(self).frames().push(
                light_all_frame_spec(PaletteColor { id: 0u8 }),
            ),
    {
        self.light_all(PaletteColor::black())
    }
}

/// The first `n` batch entries of a canvas flush: each changed cell in
/// true RGB.
pub open spec fn flush_entries_spec(changes: Seq<(u32, u32, (u8, u8, u8))>, n: int) -> Seq<
    (LogicalButton, ButtonStyle),
>
    decreases n,
{
    if n <= 0 {
        Seq::empty()
    } else {
        let c = changes[n - 1];
        flush_entries_spec(changes, n - 1).push(
            (
                crate::protocols::abs_to_button_spec(c.0 as int, c.1 as int),
                ButtonStyle::Rgb { color: RgbColor { r: c.2.0, g: c.2.1, b: c.2.2 } },
            ),
        )
    }
}

/// The Launchpad Mini MK3 as a canvas: a 9 by 9 bounding box without the
/// cell at `(8, 0)` and 128 levels per RGB channel.
pub struct Spec;

impl DeviceSpec for Spec {
    type Input = Input;

    type Output = Output;

    open spec fn spec_width() -> u32 {
        9
    }

    open spec fn spec_height() -> u32 {
        9
    }

    open spec fn spec_color_precision() -> u16 {
        128
    }

    open spec fn spec_valid(x: int, y: int) -> bool {
        0 <= x <= 8 && 0 <= y <= 8 && !(x == 8 && y == 0)
    }

    proof fn lemma_shape() {
    }

    fn bounding_box_width() -> (r: u32) {
        9
    }

    fn bounding_box_height() -> (r: u32) {
        9
    }

    fn color_precision() -> (r: u16) {
        128
    }

    fn is_valid(x: u32, y: u32) -> (r: bool) {
        if x > 8 || y > 8 {
            return false;
        }
        if x == 8 && y == 0 {
            return false;
        }
        true
    }

    open spec fn flush_frames_spec(
        pending: Array2d<crate::color::Color>,
        changes: Seq<(u32, u32, (u8, u8, u8))>,
    ) -> Seq<Seq<u8>> {
        if changes.len() == 0 {
            Seq::empty()
        } else {
            seq![set_buttons_frame_spec(flush_entries_spec(changes, changes.len() as int))]
        }
    }

    fn flush(
        output: &mut Output,
        pending: &Array2d<crate::color::Color>,
        changes: &Vec<(u32, u32, (u8, u8, u8))>,
    ) -> (r: Result<(), MidiError>) {
        let mut batch: Vec<(Button, ButtonStyle)> = Vec::new();
        let n = changes.len();
        let mut k: usize = 0;
        while k < n
            invariant
                0 <= k <= n,
                n == changes@.len(),
                n <= 81,
                forall|m: int|
                    0 <= m < changes@.len() ==> Spec::spec_valid(
                        (#[trigger] changes@[m]).0 as int,
                        changes@[m].1 as int,
                    ) && changes@[m].2.0 < 128 && changes@[m].2.1 < 128 && changes@[m].2.2
                        < 128,
                batch@ == flush_entries_spec(changes@, k as int),
                batch@.len() == k as int,
                forall|m: int|
                    0 <= m < batch@.len() ==> mk3_button_wf((#[trigger] batch@[m]).0)
                        && batch@[m].1.wf(),
            decreases n - k,
        {
            let (x, y, (red, green, blue)) = changes[k];
            let button = Button::from_abs(x as u8, y as u8);
            let color = RgbColor::new(red, green, blue);
            proof {
                assert(color == (RgbColor { r: red, g: green, b: blue }));
            }
            batch.push((button, ButtonStyle::Rgb { color }));
            proof {
                assert(batch@ =~= flush_entries_spec(changes@, k as int + 1));
            }
            k = k + 1;
        }
        if batch.len() > 0 {
            let r = output.set_buttons(batch.as_slice());
            proof {
                assert(output.frames() =~= old(output).frames() + Self::flush_frames_spec(
                    *pending,
                    changes@,
                ));
            }
            r
        } else {
            proof {
                assert(output.frames() =~= old(output).frames() + Self::flush_frames_spec(
                    *pending,
                    changes@,
                ));
            }
            Ok(())
        }
    }

    open spec fn convert_message_spec(msg: Message) -> Option<CanvasMessage> {
        match msg {
            Message::Press { button } => Some(
                CanvasMessage::Press {
                    x: crate::protocols::button_abs_x_spec(button) as u32,
                    y: crate::protocols::button_abs_y_spec(button) as u32,
                },
            ),
            Message::Release { button } => Some(
                CanvasMessage::Release {
                    x: crate::protocols::button_abs_x_spec(button) as u32,
                    y: crate::protocols::button_abs_y_spec(button) as u32,
                },
            ),
            _ => None,
        }
    }

    fn convert_message(msg: Message) -> (r: Option<CanvasMessage>) {
        match msg {
            Message::Press { button } => Some(
                CanvasMessage::Press { x: button_abs_x(button), y: button_abs_y(button) },
            ),
            Message::Release { button } => Some(
                CanvasMessage::Release { x: button_abs_x(button), y: button_abs_y(button) },
            ),
            _ => None,
        }
    }

    fn setup(output: &mut Output) -> (r: Result<(), MidiError>) {
        Ok(())
    }
}

/// The canvas type of the Launchpad Mini MK3.
pub type Canvas = crate::generic::DeviceCanvas<Spec>;

/// The absolute x coordinate of a button, in canvas space.
fn button_abs_x(button: LogicalButton) -> (r: u32)
    ensures
        r == crate::protocols::button_abs_x_spec(button),
{
    match button {
        LogicalButton::ControlButton { index } => index as u32,
        LogicalButton::GridButton { x, y: _ } => x as u32,
    }
}

/// The absolute y coordinate of a button, in canvas space.
fn button_abs_y(button: LogicalButton) -> (r: u32)
    ensures
        r == crate::protocols::button_abs_y_spec(button),
{
    match button {
        LogicalButton::ControlButton { .. } => 0,
        LogicalButton::GridButton { x: _, y } => (y as u32) + 1,
    }
}

} // verus!
