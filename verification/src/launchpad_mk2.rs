//! The Launchpad MK2 low-level driver: palette and true-RGB lighting with
//! three light modes, batched forms, row/column/whole-panel fills, text
//! scrolling, the virtual fader mode, and pure input decoding.

use vstd::prelude::*;

pub use crate::protocols::LogicalButton as Button;
pub use crate::query::{DeviceIdQuery, DeviceInquiry, VersionInquiry};

use crate::canvas::CanvasMessage;
use crate::errors::MidiError;
use crate::generic::DeviceSpec;
use crate::midi_io::{FrameQueue, InputDevice, OutputDevice};
use crate::protocols::{default_logical_to_physical, LogicalButton};
use crate::query;
use crate::util::Array2d;

verus! {

/// An index into the device's built-in 128-color palette.
#[derive(Debug, Copy, Clone, Hash, Eq, PartialEq, Structural)]
pub struct PaletteColor {
    pub id: u8,
}

impl PaletteColor {
    /// The palette has 128 entries.
    pub open spec fn wf(&self) -> bool {
        self.id <= 127
    }

    pub fn is_valid(&self) -> (r: bool)
        ensures
            r == self.wf(),
    {
        self.id <= 127
    }

    pub fn new(id: u8) -> (c: PaletteColor)
        requires
            id <= 127,
        ensures
            c.id == id,
            c.wf(),
    {
        PaletteColor { id }
    }

    pub fn id(&self) -> (r: u8)
        ensures
            r == self.id,
    {
        self.id
    }

    pub fn set_id(&mut self, id: u8)
        ensures
            final(self).id == id,
    {
        self.id = id;
    }

    pub fn black() -> (c: PaletteColor)
        ensures
            c.id == 0,
            c.wf(),
    {
        PaletteColor { id: 0 }
    }

    pub fn white() -> (c: PaletteColor)
        ensures
            c.id == 3,
            c.wf(),
    {
        PaletteColor { id: 3 }
    }

    pub fn red() -> (c: PaletteColor)
        ensures
            c.id == 5,
            c.wf(),
    {
        PaletteColor { id: 5 }
    }

    pub fn yellow() -> (c: PaletteColor)
        ensures
            c.id == 13,
            c.wf(),
    {
        PaletteColor { id: 13 }
    }

    pub fn green() -> (c: PaletteColor)
        ensures
            c.id == 21,
            c.wf(),
    {
        PaletteColor { id: 21 }
    }

    pub fn blue() -> (c: PaletteColor)
        ensures
            c.id == 45,
            c.wf(),
    {
        PaletteColor { id: 45 }
    }

    pub fn magenta() -> (c: PaletteColor)
        ensures
            c.id == 53,
            c.wf(),
    {
        PaletteColor { id: 53 }
    }

    pub fn cyan() -> (c: PaletteColor)
        ensures
            c.id == 90,
            c.wf(),
    {
        PaletteColor { id: 90 }
    }
}

/// A full-precision color: six bits per channel.
#[derive(Debug, Copy, Clone, Hash, Eq, PartialEq, Structural)]
pub struct RgbColor {
    pub r: u8,
    pub g: u8,
    pub b: u8,
}

impl RgbColor {
    pub open spec fn spec_red(&self) -> u8 {
        self.r
    }

    pub open spec fn spec_green(&self) -> u8 {
        self.g
    }

    pub open spec fn spec_blue(&self) -> u8 {
        self.b
    }

    /// Every channel fits the device's six-bit depth.
    pub open spec fn wf(&self) -> bool {
        self.spec_red() <= 63 && self.spec_green() <= 63 && self.spec_blue() <= 63
    }

    pub fn new(r: u8, g: u8, b: u8) -> (c: RgbColor)
        requires
            r <= 63,
            g <= 63,
            b <= 63,
        ensures
            c.spec_red() == r,
            c.spec_green() == g,
            c.spec_blue() == b,
            c.wf(),
    {
        RgbColor { r, g, b }
    }

    pub fn is_valid(&self) -> (v: bool)
        ensures
            v == self.wf(),
    {
        self.r <= 63 && self.g <= 63 && self.b <= 63
    }

    pub fn red(&self) -> (v: u8)
        ensures
            v == self.spec_red(),
    {
        self.r
    }

    pub fn green(&self) -> (v: u8)
        ensures
            v == self.spec_green(),
    {
        self.g
    }

    pub fn blue(&self) -> (v: u8)
        ensures
            v == self.spec_blue(),
    {
        self.b
    }

    pub fn set_red(&mut self, r: u8)
        requires
            r <= 63,
        ensures
            final(self).spec_red() == r,
            final(self).spec_green() == old(self).spec_green(),
            final(self).spec_blue() == old(self).spec_blue(),
    {
        self.r = r;
    }

    pub fn set_green(&mut self, g: u8)
        requires
            g <= 63,
        ensures
            final(self).spec_green() == g,
            final(self).spec_red() == old(self).spec_red(),
            final(self).spec_blue() == old(self).spec_blue(),
    {
        self.g = g;
    }

    pub fn set_blue(&mut self, b: u8)
        requires
            b <= 63,
        ensures
            final(self).spec_blue() == b,
            final(self).spec_red() == old(self).spec_red(),
            final(self).spec_green() == old(self).spec_green(),
    {
        self.b = b;
    }
}

/// How a lit button behaves: steady, flashing, or pulsing.
#[derive(Copy, Clone, Debug, Hash, Eq, PartialEq)]
pub enum LightMode {
    Plain,
    Flash,
    Pulse,
}

/// What a virtual fader controls.
#[derive(Copy, Clone, Hash, Eq, PartialEq, Debug)]
pub enum FaderType {
    Volume,
    Pan,
}

/// One virtual fader's placement: its index, its palette color, and its
/// initial value.
#[derive(Copy, Clone, Debug, Eq, PartialEq, Structural)]
pub struct Fader {
    pub index: u8,
    pub color: PaletteColor,
    pub initial_value: u8,
}

impl Fader {
    pub open spec fn wf(&self) -> bool {
        self.index <= 7 && self.initial_value <= 127 && self.color.wf()
    }

    pub fn new(index: u8, color: PaletteColor, initial_value: u8) -> (f: Fader)
        requires
            index <= 7,
            initial_value <= 127,
            color.wf(),
        ensures
            f.index == index,
            f.color == color,
            f.initial_value == initial_value,
            f.wf(),
    {
        Fader { index, color, initial_value }
    }

    pub fn index(&self) -> (r: u8)
        ensures
            r == self.index,
    {
        self.index
    }

    pub fn color(&self) -> (r: PaletteColor)
        ensures
            r == self.color,
    {
        self.color
    }

    pub fn initial_value(&self) -> (r: u8)
        ensures
            r == self.initial_value,
    {
        self.initial_value
    }
}

/// The buttons the MK2 can address: the 9 by 8 grid (scene launch column
/// included) and the eight control buttons.
pub open spec fn mk2_button_wf(b: LogicalButton) -> bool {
    match b {
        LogicalButton::ControlButton { index } => index <= 7,
        LogicalButton::GridButton { x, y } => x <= 8 && y <= 7,
    }
}

/// The wire code of a button: grid cells count from the bottom left in
/// steps of ten, control buttons sit at 104 and up.
pub open spec fn encode_button_spec(b: LogicalButton) -> u8 {
    match b {
        LogicalButton::GridButton { x, y } => (10 * (8 - y) + x + 1) as u8,
        LogicalButton::ControlButton { index } => (index + 104) as u8,
    }
}

/// The wire code of a light mode, as an offset on the message's status
/// byte for single lights and as a SysEx opcode for batches.
pub open spec fn light_mode_offset_spec(mode: LightMode) -> u8 {
    match mode {
        LightMode::Plain => 0,
        LightMode::Flash => 1,
        LightMode::Pulse => 2,
    }
}

/// The single-button lighting message.
pub open spec fn set_button_frame_spec(
    b: LogicalButton,
    color: PaletteColor,
    mode: LightMode,
) -> Seq<u8> {
    match b {
        LogicalButton::GridButton { .. } => seq![
            (0x90 + light_mode_offset_spec(mode)) as u8,
            encode_button_spec(b),
            color.id,
        ],
        LogicalButton::ControlButton { .. } => seq![
            (0xB0 + light_mode_offset_spec(mode)) as u8,
            encode_button_spec(b),
            color.id,
        ],
    }
}

/// The vendor SysEx prefix of every MK2 command.
pub open spec fn sysex_prefix_spec(opcode: u8) -> Seq<u8> {
    seq![240u8, 0u8, 32u8, 41u8, 2u8, 24u8, opcode]
}

/// The entry bytes of a batched palette message: an optional leading null
/// byte (the flash and pulse forms require one), then the button code and
/// the palette id of each entry.
pub open spec fn palette_entries_spec(entries: Seq<(u8, PaletteColor)>, null_byte: bool) -> Seq<
    u8,
>
    decreases entries.len(),
{
    if entries.len() == 0 {
        Seq::empty()
    } else {
        let e = entries.last();
        palette_entries_spec(entries.drop_last(), null_byte) + (if null_byte {
            seq![0u8, e.0, e.1.id]
        } else {
            seq![e.0, e.1.id]
        })
    }
}

/// The entry bytes of a batched RGB message.
pub open spec fn rgb_entries_spec(entries: Seq<(LogicalButton, RgbColor)>) -> Seq<u8>
    decreases entries.len(),
{
    if entries.len() == 0 {
        Seq::empty()
    } else {
        let e = entries.last();
        rgb_entries_spec(entries.drop_last()) + seq![
            encode_button_spec(e.0),
            e.1.spec_red(),
            e.1.spec_green(),
            e.1.spec_blue(),
        ]
    }
}

/// The batched palette lighting message: opcode 10, 35 or 40 by light
/// mode, with the flash and pulse forms carrying a null byte per entry.
pub open spec fn set_buttons_frame_spec(
    entries: Seq<(LogicalButton, PaletteColor)>,
    mode: LightMode,
) -> Seq<u8> {
    let opcode: u8 = match mode {
        LightMode::Plain => 10,
        LightMode::Flash => 35,
        LightMode::Pulse => 40,
    };
    let null_byte = !(mode is Plain);
    sysex_prefix_spec(opcode) + palette_entries_spec(
        entries.map_values(|e: (LogicalButton, PaletteColor)| (encode_button_spec(e.0), e.1)),
        null_byte,
    ) + seq![247u8]
}

/// The batched RGB lighting message.
pub open spec fn light_multiple_rgb_frame_spec(entries: Seq<(LogicalButton, RgbColor)>) -> Seq<
    u8,
> {
    sysex_prefix_spec(11) + rgb_entries_spec(entries) + seq![247u8]
}

/// The column batch message: opcode 12, one (column, color) pair each.
pub open spec fn light_columns_frame_spec(entries: Seq<(u8, PaletteColor)>) -> Seq<u8> {
    sysex_prefix_spec(12) + palette_entries_spec(entries, false) + seq![247u8]
}

/// The row batch message: opcode 13, rows counted from the top (the
/// device itself counts from the bottom, hence `8 - row`).
pub open spec fn light_rows_frame_spec(entries: Seq<(u8, PaletteColor)>) -> Seq<u8> {
    sysex_prefix_spec(13) + palette_entries_spec(
        entries.map_values(|e: (u8, PaletteColor)| (((8 - e.0) as u8), e.1)),
        false,
    ) + seq![247u8]
}

/// The whole-panel fill message.
pub open spec fn light_all_frame_spec(color: PaletteColor) -> Seq<u8> {
    sysex_prefix_spec(14) + seq![color.id, 247u8]
}

/// The layout-select message; layout 0 is the session layout the library
/// keeps the device in, 4 and 5 are the fader layouts.
pub open spec fn change_layout_frame_spec(layout: u8) -> Seq<u8> {
    sysex_prefix_spec(34) + seq![layout, 247u8]
}

/// The text-scroll message: in-band bytes 1 to 7 change the scroll speed.
pub open spec fn scroll_text_frame_spec(
    text: Seq<u8>,
    color: PaletteColor,
    should_loop: bool,
) -> Seq<u8> {
    sysex_prefix_spec(20) + seq![
        color.id,
        (if should_loop {
            1u8
        } else {
            0u8
        }),
    ] + text + seq![247u8]
}

/// The clock-tick message that paces flash and pulse animation.
pub open spec fn clock_tick_frame_spec() -> Seq<u8> {
    seq![248u8, 0u8, 0u8]
}

/// The bootloader-entry message.
pub open spec fn enter_bootloader_frame_spec() -> Seq<u8> {
    seq![240u8, 0u8, 32u8, 41u8, 0u8, 113u8, 0u8, 105u8, 247u8]
}

/// The entry bytes of a fader-designation message.
pub open spec fn fader_entries_spec(faders: Seq<Fader>, fader_type: u8) -> Seq<u8>
    decreases faders.len(),
{
    if faders.len() == 0 {
        Seq::empty()
    } else {
        let f = faders.last();
        fader_entries_spec(faders.drop_last(), fader_type) + seq![
            f.index,
            fader_type,
            f.color.id,
            f.initial_value,
        ]
    }
}

/// The fader-designation message: opcode 43, one quadruple per fader.
pub open spec fn designate_faders_frame_spec(faders: Seq<Fader>, fader_type: u8) -> Seq<u8> {
    sysex_prefix_spec(43) + fader_entries_spec(faders, fader_type) + seq![247u8]
}

/// The fader-move message.
pub open spec fn set_fader_frame_spec(index: u8, value: u8) -> Seq<u8> {
    seq![176u8, (21 + index) as u8, value]
}

/// Encode one button as its wire code.
pub fn encode_button(button: LogicalButton) -> (r: u8)
    requires
        mk2_button_wf(button),
    ensures
        r == encode_button_spec(button),
{
    match button {
        LogicalButton::GridButton { x, y } => 10 * (8 - y) + x + 1,
        LogicalButton::ControlButton { index } => index + 104,
    }
}

/// A Launchpad MK2 input message.
#[derive(Debug, Eq, PartialEq, Clone, Copy, Structural)]
pub enum Message {
    /// A button was pressed.
    Press { button: Button },
    /// A button was released.
    Release { button: Button },
    /// Emitted after a text scroll ends or loops.
    TextEndedOrLooped,
    /// The response to a device inquiry request.
    DeviceInquiry(DeviceInquiry),
    /// The response to a version inquiry request.
    VersionInquiry(VersionInquiry),
    /// A fader moved while the device is in fader mode.
    FaderChange { index: u8, value: u8 },
}

/// Whether a note number addresses a grid cell: a column digit 1 to 9 and
/// a row digit 1 to 8.
pub open spec fn is_grid_note(note: u8) -> bool {
    1 <= note as int % 10 <= 9 && 1 <= note as int / 10 <= 8
}

/// The grid button a note number addresses.
pub open spec fn grid_button_of_note(note: u8) -> LogicalButton {
    LogicalButton::GridButton {
        x: (note as int % 10 - 1) as u8,
        y: (8 - note as int / 10) as u8,
    }
}

/// What one raw frame means to a Launchpad MK2.
pub open spec fn decode_spec(data: Seq<u8>) -> Option<Message> {
    if query::is_device_query_response(data) {
        Some(Message::DeviceInquiry(query::device_query_fields(data)))
    } else if query::is_version_query_response(data) {
        Some(Message::VersionInquiry(query::version_query_fields(data)))
    } else if data == seq![240u8, 0u8, 32u8, 41u8, 2u8, 24u8, 21u8, 247u8] {
        Some(Message::TextEndedOrLooped)
    } else if data.len() == 3 {
        let status = data[0];
        let note = data[1];
        let velocity = data[2];
        if status == 0x90 && is_grid_note(note) {
            if velocity == 127 {
                Some(Message::Press { button: grid_button_of_note(note) })
            } else if velocity == 0 {
                Some(Message::Release { button: grid_button_of_note(note) })
            } else {
                None
            }
        } else if status == 0xB0 && 104 <= note <= 111 {
            if velocity == 127 {
                Some(
                    Message::Press {
                        button: LogicalButton::ControlButton { index: (note - 104) as u8 },
                    },
                )
            } else if velocity == 0 {
                Some(
                    Message::Release {
                        button: LogicalButton::ControlButton { index: (note - 104) as u8 },
                    },
                )
            } else {
                None
            }
        } else if status == 0xB0 && 21 <= note <= 28 {
            Some(Message::FaderChange { index: (note - 21) as u8, value: velocity })
        } else {
            None
        }
    } else {
        None
    }
}

/// The Launchpad MK2 input connection creator.
pub struct Input;

impl InputDevice for Input {
    type Message = Message;

    fn midi_connection_name() -> &'static str {
        "Launchy Mk2 Input"
    }

    fn midi_device_keyword() -> &'static str {
        "Launchpad MK2"
    }

    fn decode_message(timestamp: u64, data: &[u8]) -> (r: Option<Message>)
        ensures
            r == decode_spec(data@),
    {
        decode(timestamp, data)
    }
}

/// Decode one raw frame into a Launchpad MK2 message.
pub fn decode(timestamp: u64, data: &[u8]) -> (r: Option<Message>)
    ensures
        r == decode_spec(data@),
{
    if let Some(device_inquiry) = query::parse_device_query(data) {
        return Some(Message::DeviceInquiry(device_inquiry));
    }
    if let Some(version_inquiry) = query::parse_version_query(data) {
        return Some(Message::VersionInquiry(version_inquiry));
    }
    if data.len() == 8 && data[0] == 240 && data[1] == 0 && data[2] == 32 && data[3] == 41
        && data[4] == 2 && data[5] == 24 && data[6] == 21 && data[7] == 247 {
        proof {
            assert(data@ =~= seq![240u8, 0u8, 32u8, 41u8, 2u8, 24u8, 21u8, 247u8]);
        }
        return Some(Message::TextEndedOrLooped);
    }
    proof {
        if data@.len() == 8 {
            assert(data@ != seq![240u8, 0u8, 32u8, 41u8, 2u8, 24u8, 21u8, 247u8] || (data@[0]
                == 240 && data@[1] == 0 && data@[2] == 32 && data@[3] == 41 && data@[4] == 2
                && data@[5] == 24 && data@[6] == 21 && data@[7] == 247));
        } else {
            assert(data@.len() != seq![240u8, 0u8, 32u8, 41u8, 2u8, 24u8, 21u8, 247u8].len());
        }
    }
    if data.len() == 3 {
        let status = data[0];
        let note = data[1];
        let velocity = data[2];
        if status == 0x90 && note % 10 >= 1 && note / 10 >= 1 && note / 10 <= 8 {
            let button = LogicalButton::GridButton { x: note % 10 - 1, y: 8 - note / 10 };
            if velocity == 127 {
                Some(Message::Press { button })
            } else if velocity == 0 {
                Some(Message::Release { button })
            } else {
                None
            }
        } else if status == 0xB0 && 104 <= note && note <= 111 {
            let button = LogicalButton::ControlButton { index: note - 104 };
            if velocity == 127 {
                Some(Message::Press { button })
            } else if velocity == 0 {
                Some(Message::Release { button })
            } else {
                None
            }
        } else if status == 0xB0 && 21 <= note && note <= 28 {
            Some(Message::FaderChange { index: note - 21, value: velocity })
        } else {
            None
        }
    } else {
        None
    }
}

/// The Launchpad MK2 output handler.
pub struct Output {
    queue: FrameQueue,
}

impl OutputDevice for Output {
    closed spec fn frames(&self) -> Seq<Seq<u8>> {
        self.queue.frames()
    }

    fn midi_connection_name() -> &'static str {
        "Launchy Mk2 output"
    }

    fn midi_device_keyword() -> &'static str {
        "Launchpad MK2"
    }

    fn send(&mut self, bytes: &[u8]) -> (r: Result<(), MidiError>) {
        self.queue.push_slice(bytes);
        Ok(())
    }

    fn take_frames(&mut self) -> (r: Vec<Vec<u8>>) {
        self.queue.take()
    }
}

impl Output {
    /// A fresh output that starts by selecting the session layout, so the
    /// library's addressing is valid whatever state the device was left
    /// in.
    pub fn new() -> (r: Output)
        ensures
            r.frames() == Seq::<Seq<u8>>::empty().push(change_layout_frame_spec(0)),
    {
        let mut output = Output { queue: FrameQueue::new() };
        let _ = output.change_layout(0);
        output
    }

    /// Light a single button in one of the three light modes.
    pub fn set_button(&mut self, button: Button, color: PaletteColor, light_mode: LightMode) -> (
        r: Result<(), MidiError>)
        requires
            color.wf(),
            mk2_button_wf(button),
        ensures
            r is Ok,
            final(self).frames() == old(self).frames().push(
                set_button_frame_spec(button, color, light_mode),
            ),
    {
        let type_byte: u8 = match button {
            LogicalButton::GridButton { .. } => 0x90,
            LogicalButton::ControlButton { .. } => 0xB0,
        } + match light_mode {
            LightMode::Plain => 0,
            LightMode::Flash => 1,
            LightMode::Pulse => 2,
        };
        let bytes: [u8; 3] = [type_byte, encode_button(button), color.id];
        proof {
            assert(bytes@ =~= set_button_frame_spec(button, color, light_mode));
        }
        self.send(bytes.as_slice())
    }

    /// Light up to 80 buttons from the palette in one message.
    pub fn set_buttons(&mut self, buttons: &[(Button, PaletteColor)], light_mode: LightMode) -> (
        r: Result<(), MidiError>)
        requires
            buttons@.len() <= 80,
            forall|k: int|
                0 <= k < buttons@.len() ==> mk2_button_wf((#[trigger] buttons@[k]).0)
                    && buttons@[k].1.wf(),
        ensures
            r is Ok,
            final(self).frames() == old(self).frames().push(
                set_buttons_frame_spec(buttons@, light_mode),
            ),
    {
        let opcode: u8 = match light_mode {
            LightMode::Plain => 10,
            LightMode::Flash => 35,
            LightMode::Pulse => 40,
        };
        let null_byte: bool = match light_mode {
            LightMode::Plain => false,
            LightMode::Flash => true,
            LightMode::Pulse => true,
        };
        let ghost mapped = buttons@.map_values(
            |e: (LogicalButton, PaletteColor)| (encode_button_spec(e.0), e.1),
        );
        let mut bytes: Vec<u8> = Vec::new();
        bytes.push(240);
        bytes.push(0);
        bytes.push(32);
        bytes.push(41);
        bytes.push(2);
        bytes.push(24);
        bytes.push(opcode);
        let n = buttons.len();
        let mut k: usize = 0;
        while k < n
            invariant
                0 <= k <= n,
                n == buttons@.len(),
                forall|m: int|
                    0 <= m < buttons@.len() ==> mk2_button_wf((#[trigger] buttons@[m]).0)
                        && buttons@[m].1.wf(),
                mapped == buttons@.map_values(
                    |e: (LogicalButton, PaletteColor)| (encode_button_spec(e.0), e.1),
                ),
                bytes@ == sysex_prefix_spec(opcode) + palette_entries_spec(
                    mapped.take(k as int),
                    null_byte,
                ),
            decreases n - k,
        {
            let (button, color) = buttons[k];
            if null_byte {
                bytes.push(0);
            }
            bytes.push(encode_button(button));
            bytes.push(color.id);
            proof {
                assert(mapped.take(k + 1).drop_last() =~= mapped.take(k as int));
                assert(bytes@ =~= sysex_prefix_spec(opcode) + palette_entries_spec(
                    mapped.take(k + 1),
                    null_byte,
                ));
            }
            k = k + 1;
        }
        bytes.push(247);
        proof {
            assert(mapped.take(n as int) =~= mapped);
            assert(bytes@ =~= set_buttons_frame_spec(buttons@, light_mode));
        }
        self.send(bytes.as_slice())
    }

    /// Light up to 80 buttons in true RGB in one message.
    pub fn light_multiple_rgb(&mut self, buttons: &[(Button, RgbColor)]) -> (r: Result<
        (),
        MidiError,
    >)
        requires
            buttons@.len() <= 80,
            forall|k: int|
                0 <= k < buttons@.len() ==> mk2_button_wf((#[trigger] buttons@[k]).0)
                    && buttons@[k].1.wf(),
        ensures
            r is Ok,
            final(self).frames() == old(self).frames().push(
                light_multiple_rgb_frame_spec(buttons@),
            ),
    {
        let mut bytes: Vec<u8> = Vec::new();
        bytes.push(240);
        bytes.push(0);
        bytes.push(32);
        bytes.push(41);
        bytes.push(2);
        bytes.push(24);
        bytes.push(11);
        let n = buttons.len();
        let mut k: usize = 0;
        while k < n
            invariant
                0 <= k <= n,
                n == buttons@.len(),
                forall|m: int|
                    0 <= m < buttons@.len() ==> mk2_button_wf((#[trigger] buttons@[m]).0)
                        && buttons@[m].1.wf(),
                bytes@ == sysex_prefix_spec(11) + rgb_entries_spec(buttons@.take(k as int)),
            decreases n - k,
        {
            let (button, color) = buttons[k];
            bytes.push(encode_button(button));
            bytes.push(color.red());
            bytes.push(color.green());
            bytes.push(color.blue());
            proof {
                assert(buttons@.take(k + 1).drop_last() =~= buttons@.take(k as int));
                assert(bytes@ =~= sysex_prefix_spec(11) + rgb_entries_spec(buttons@.take(k + 1)));
            }
            k = k + 1;
        }
        bytes.push(247);
        proof {
            assert(buttons@.take(n as int) =~= buttons@);
            assert(bytes@ =~= light_multiple_rgb_frame_spec(buttons@));
        }
        self.send(bytes.as_slice())
    }

    /// Light up to 9 whole columns from the palette in one message.
    pub fn light_columns(&mut self, columns: &[(u8, PaletteColor)]) -> (r: Result<
        (),
        MidiError,
    >)
        requires
            columns@.len() <= 9,
            forall|k: int|
                0 <= k < columns@.len() ==> (#[trigger] columns@[k]).0 <= 8
                    && columns@[k].1.wf(),
        ensures
            r is Ok,
            final(self).frames() == old(self).frames().push(light_columns_frame_spec(columns@)),
    {
        let mut bytes: Vec<u8> = Vec::new();
        bytes.push(240);
        bytes.push(0);
        bytes.push(32);
        bytes.push(41);
        bytes.push(2);
        bytes.push(24);
        bytes.push(12);
        let n = columns.len();
        let mut k: usize = 0;
        while k < n
            invariant
                0 <= k <= n,
                n == columns@.len(),
                forall|m: int|
                    0 <= m < columns@.len() ==> (#[trigger] columns@[m]).0 <= 8
                        && columns@[m].1.wf(),
                bytes@ == sysex_prefix_spec(12) + palette_entries_spec(
                    columns@.take(k as int),
                    false,
                ),
            decreases n - k,
        {
            let (column, color) = columns[k];
            bytes.push(column);
            bytes.push(color.id);
            proof {
                assert(columns@.take(k + 1).drop_last() =~= columns@.take(k as int));
                assert(bytes@ =~= sysex_prefix_spec(12) + palette_entries_spec(
                    columns@.take(k + 1),
                    false,
                ));
            }
            k = k + 1;
        }
        bytes.push(247);
        proof {
            assert(columns@.take(n as int) =~= columns@);
            assert(bytes@ =~= light_columns_frame_spec(columns@));
        }
        self.send(bytes.as_slice())
    }

    /// Light up to 9 whole rows from the palette in one message. Row 0 is
    /// the control row, row 1 the device's first visible grid row.
    pub fn light_rows(&mut self, rows: &[(u8, PaletteColor)]) -> (r: Result<(), MidiError>)
        requires
            rows@.len() <= 9,
            forall|k: int| 0 <= k < rows@.len() ==> (#[trigger] rows@[k]).0 <= 8 && rows@[k].1.wf(),
        ensures
            r is Ok,
            final(self).frames() == old(self).frames().push(light_rows_frame_spec(rows@)),
    {
        let ghost mapped = rows@.map_values(|e: (u8, PaletteColor)| (((8 - e.0) as u8), e.1));
        let mut bytes: Vec<u8> = Vec::new();
        bytes.push(240);
        bytes.push(0);
        bytes.push(32);
        bytes.push(41);
        bytes.push(2);
        bytes.push(24);
        bytes.push(13);
        let n = rows.len();
        let mut k: usize = 0;
        while k < n
            invariant
                0 <= k <= n,
                n == rows@.len(),
                forall|m: int|
                    0 <= m < rows@.len() ==> (#[trigger] rows@[m]).0 <= 8 && rows@[m].1.wf(),
                mapped == rows@.map_values(|e: (u8, PaletteColor)| (((8 - e.0) as u8), e.1)),
                bytes@ == sysex_prefix_spec(13) + palette_entries_spec(
                    mapped.take(k as int),
                    false,
                ),
            decreases n - k,
        {
            let (row, color) = rows[k];
            bytes.push(8 - row);
            bytes.push(color.id);
            proof {
                assert(mapped.take(k + 1).drop_last() =~= mapped.take(k as int));
                assert(bytes@ =~= sysex_prefix_spec(13) + palette_entries_spec(
                    mapped.take(k + 1),
                    false,
                ));
            }
            k = k + 1;
        }
        bytes.push(247);
        proof {
            assert(mapped.take(n as int) =~= mapped);
            assert(bytes@ =~= light_rows_frame_spec(rows@));
        }
        self.send(bytes.as_slice())
    }

    /// Fill the whole panel with one palette color.
    pub fn light_all(&mut self, color: PaletteColor) -> (r: Result<(), MidiError>)
        requires
            color.wf(),
        ensures
            r is Ok,
            final(self).frames() == old(self).frames().push(light_all_frame_spec(color)),
    {
        let bytes: [u8; 9] = [240, 0, 32, 41, 2, 24, 14, color.id, 247];
        proof {
            assert(bytes@ =~= light_all_frame_spec(color));
        }
        self.send(bytes.as_slice())
    }

    /// One clock tick; twenty-four of them pace one beat of flash and
    /// pulse animation.
    pub fn send_clock_tick(&mut self) -> (r: Result<(), MidiError>)
        ensures
            r is Ok,
            final(self).frames() == old(self).frames().push(clock_tick_frame_spec()),
    {
        let bytes: [u8; 3] = [248, 0, 0];
        proof {
            assert(bytes@ =~= clock_tick_frame_spec());
        }
        self.send(bytes.as_slice())
    }

    /// Queue a device inquiry request.
    pub fn request_device_inquiry(&mut self, query: DeviceIdQuery) -> (r: Result<(), MidiError>)
        requires
            query matches DeviceIdQuery::Specific(id) ==> id != query::QUERY_DEVICE_ID_FOR_ANY,
        ensures
            r is Ok,
            final(self).frames() == old(self).frames().push(
                query::device_inquiry_request_spec(query),
            ),
    {
        query::request_device_inquiry(self, query)
    }

    /// Queue a version inquiry request.
    pub fn request_version_inquiry(&mut self) -> (r: Result<(), MidiError>)
        ensures
            r is Ok,
            final(self).frames() == old(self).frames().push(
                query::version_inquiry_request_spec(),
            ),
    {
        query::request_version_inquiry(self)
    }

    /// Queue a text scroll; bytes 1 to 7 inside the text change the
    /// scroll speed from that point on.
    pub fn scroll_text(&mut self, text: &[u8], color: PaletteColor, should_loop: bool) -> (r:
        Result<(), MidiError>)
        requires
            color.wf(),
        ensures
            r is Ok,
            final(self).frames() == old(self).frames().push(
                scroll_text_frame_spec(text@, color, should_loop),
            ),
    {
        let mut bytes: Vec<u8> = Vec::new();
        bytes.push(240);
        bytes.push(0);
        bytes.push(32);
        bytes.push(41);
        bytes.push(2);
        bytes.push(24);
        bytes.push(20);
        bytes.push(color.id);
        bytes.push(
            if should_loop {
                1
            } else {
                0
            },
        );
        bytes.extend_from_slice(text);
        bytes.push(247);
        proof {
            assert(bytes@ =~= scroll_text_frame_spec(text@, color, should_loop));
        }
        self.send(bytes.as_slice())
    }

    /// Restart into the bootloader.
    pub fn enter_bootloader(&mut self) -> (r: Result<(), MidiError>)
        ensures
            r is Ok,
            final(self).frames() == old(self).frames().push(enter_bootloader_frame_spec()),
    {
        let bytes: [u8; 9] = [240, 0, 32, 41, 0, 113, 0, 105, 247];
        proof {
            assert(bytes@ =~= enter_bootloader_frame_spec());
        }
        self.send(bytes.as_slice())
    }

    /// Select one of the device's internal layouts.
    fn change_layout(&mut self, layout: u8) -> (r: Result<(), MidiError>)
        ensures
            r is Ok,
            final(self).frames() == old(self).frames().push(change_layout_frame_spec(layout)),
    {
        let bytes: [u8; 9] = [240, 0, 32, 41, 2, 24, 34, layout, 247];
        proof {
            assert(bytes@ =~= change_layout_frame_spec(layout));
        }
        self.send(bytes.as_slice())
    }

    /// Give up direct control and enter the virtual fader mode; the
    /// returned value hands the output back on exit.
    pub fn enter_fader_mode(self, fader_type: FaderType) -> (r: Result<FaderMode, MidiError>)
        ensures
            r matches Ok(m) ==> m.fader_type() == fader_type && m.frames() == self.frames().push(
                change_layout_frame_spec(
                    match fader_type {
                        FaderType::Volume => 4,
                        FaderType::Pan => 5,
                    },
                ),
            ),
            r is Ok,
    {
        let mut output = self;
        let layout: u8 = match fader_type {
            FaderType::Volume => 4,
            FaderType::Pan => 5,
        };
        let _ = output.change_layout(layout);
        Ok(FaderMode { output, fader_type })
    }

    /// Light a single button steadily.
    pub fn light(&mut self, button: Button, color: PaletteColor) -> (r: Result<(), MidiError>)
        requires
            color.wf(),
            mk2_button_wf(button),
        ensures
            r is Ok,
            final(self).frames() == old(self).frames().push(
                set_button_frame_spec(button, color, LightMode::Plain),
            ),
    {
        self.set_button(button, color, LightMode::Plain)
    }

    /// Flash a single button between its color and black.
    pub fn flash(&mut self, button: Button, color: PaletteColor) -> (r: Result<(), MidiError>)
        requires
            color.wf(),
            mk2_button_wf(button),
        ensures
            r is Ok,
            final(self).frames() == old(self).frames().push(
                set_button_frame_spec(button, color, LightMode::Flash),
            ),
    {
        self.set_button(button, color, LightMode::Flash)
    }

    /// Pulse a single button's brightness.
    pub fn pulse(&mut self, button: Button, color: PaletteColor) -> (r: Result<(), MidiError>)
        requires
            color.wf(),
            mk2_button_wf(button),
        ensures
            r is Ok,
            final(self).frames() == old(self).frames().push(
                set_button_frame_spec(button, color, LightMode::Pulse),
            ),
    {
        self.set_button(button, color, LightMode::Pulse)
    }

    /// Light one whole column.
    pub fn light_column(&mut self, column: u8, color: PaletteColor) -> (r: Result<(), MidiError>)
        requires
            column <= 8,
            color.wf(),
        ensures
            r is Ok,
            final(self).frames() == old(self).frames().push(
                light_columns_frame_spec(seq![(column, color)]),
            ),
    {
        let entries: [(u8, PaletteColor); 1] = [(column, color)];
        let r = self.light_columns(entries.as_slice());
        proof {
            assert(entries@ =~= seq![(column, color)]);
        }
        r
    }

    /// Light one whole row.
    pub fn light_row(&mut self, row: u8, color: PaletteColor) -> (r: Result<(), MidiError>)
        requires
            row <= 8,
            color.wf(),
        ensures
            r is Ok,
            final(self).frames() == old(self).frames().push(
                light_rows_frame_spec(seq![(row, color)]),
            ),
    {
        let entries: [(u8, PaletteColor); 1] = [(row, color)];
        let r = self.light_rows(entries.as_slice());
        proof {
            assert(entries@ =~= seq![(row, color)]);
        }
        r
    }

    /// Light a single button in true RGB.
    pub fn light_rgb(&mut self, button: Button, color: RgbColor) -> (r: Result<(), MidiError>)
        requires
            color.wf(),
            mk2_button_wf(button),
        ensures
            r is Ok,
            final(self).frames() == old(self).frames().push(
                light_multiple_rgb_frame_spec(seq![(button, color)]),
            ),
    {
        let entries: [(Button, RgbColor); 1] = [(button, color)];
        let r = self.light_multiple_rgb(entries.as_slice());
        proof {
            assert(entries@ =~= seq![(button, color)]);
        }
        r
    }

    /// Light up to 80 buttons steadily from the palette.
    pub fn light_multiple(&mut self, buttons: &[(Button, PaletteColor)]) -> (r: Result<
        (),
        MidiError,
    >)
        requires
            buttons@.len() <= 80,
            forall|k: int|
                0 <= k < buttons@.len() ==> mk2_button_wf((#[trigger] buttons@[k]).0)
                    && buttons@[k].1.wf(),
        ensures
            r is Ok,
            final(self).frames() == old(self).frames().push(
                set_buttons_frame_spec(buttons@, LightMode::Plain),
            ),
    {
        self.set_buttons(buttons, LightMode::Plain)
    }

    /// Flash up to 80 buttons from the palette.
    pub fn flash_multiple(&mut self, buttons: &[(Button, PaletteColor)]) -> (r: Result<
        (),
        MidiError,
    >)
        requires
            buttons@.len() <= 80,
            forall|k: int|
                0 <= k < buttons@.len() ==> mk2_button_wf((#[trigger] buttons@[k]).0)
                    && buttons@[k].1.wf(),
        ensures
            r is Ok,
            final(self).frames() == old(self).frames().push(
                set_buttons_frame_spec(buttons@, LightMode::Flash),
            ),
    {
        self.set_buttons(buttons, LightMode::Flash)
    }

    /// Pulse up to 80 buttons from the palette.
    pub fn pulse_multiple(&mut self, buttons: &[(Button, PaletteColor)]) -> (r: Result<
        (),
        MidiError,
    >)
        requires
            buttons@.len() <= 80,
            forall|k: int|
                0 <= k < buttons@.len() ==> mk2_button_wf((#[trigger] buttons@[k]).0)
                    && buttons@[k].1.wf(),
        ensures
            r is Ok,
            final(self).frames() == old(self).frames().push(
                set_buttons_frame_spec(buttons@, LightMode::Pulse),
            ),
    {
        self.set_buttons(buttons, LightMode::Pulse)
    }

    /// Turn the whole panel off.
    pub fn clear(&mut self) -> (r: Result<(), MidiError>)
        ensures
            r is Ok,
            final(self).frames() == old(self).frames().push(
                light_all_frame_spec(PaletteColor { id: 0 }),
            ),
    {
        self.light_all(PaletteColor::black())
    }
}

/// The MK2 in fader mode: it holds the output until the caller exits the
/// mode, so direct lighting calls cannot corrupt the fader layout.
pub struct FaderMode {
    output: Output,
    fader_type: FaderType,
}

impl FaderMode {
    /// The frames queued so far, oldest first.
    pub closed spec fn frames(&self) -> Seq<Seq<u8>> {
        self.output.frames()
    }

    pub closed spec fn fader_type(&self) -> FaderType {
        self.fader_type
    }

    /// The wire code of this mode's fader type.
    pub closed spec fn spec_fader_type_code(&self) -> u8 {
        match self.fader_type {
            FaderType::Volume => 0,
            FaderType::Pan => 1,
        }
    }

    /// Leave fader mode and hand the output back, reselecting the session
    /// layout.
    pub fn exit(self) -> (r: Result<Output, MidiError>)
        ensures
            r matches Ok(o) ==> o.frames() == self.frames().push(change_layout_frame_spec(0)),
            r is Ok,
    {
        let mut output = self.output;
        let _ = output.change_layout(0);
        Ok(output)
    }

    /// Place up to eight virtual faders, each with a color and an initial
    /// value.
    pub fn designate_faders(&mut self, faders: &[Fader]) -> (r: Result<(), MidiError>)
        requires
            faders@.len() <= 8,
            forall|k: int| 0 <= k < faders@.len() ==> (#[trigger] faders@[k]).wf(),
        ensures
            r is Ok,
            final(self).fader_type() == old(self).fader_type(),
            final(self).frames() == old(self).frames().push(
                designate_faders_frame_spec(faders@, old(self).spec_fader_type_code()),
            ),
    {
        let fader_type: u8 = match self.fader_type {
            FaderType::Volume => 0,
            FaderType::Pan => 1,
        };
        let mut bytes: Vec<u8> = Vec::new();
        bytes.push(240);
        bytes.push(0);
        bytes.push(32);
        bytes.push(41);
        bytes.push(2);
        bytes.push(24);
        bytes.push(43);
        let n = faders.len();
        let mut k: usize = 0;
        while k < n
            invariant
                0 <= k <= n,
                n == faders@.len(),
                forall|m: int| 0 <= m < faders@.len() ==> (#[trigger] faders@[m]).wf(),
                bytes@ == sysex_prefix_spec(43) + fader_entries_spec(
                    faders@.take(k as int),
                    fader_type,
                ),
            decreases n - k,
        {
            let fader = faders[k];
            bytes.push(fader.index);
            bytes.push(fader_type);
            bytes.push(fader.color.id);
            bytes.push(fader.initial_value);
            proof {
                assert(faders@.take(k + 1).drop_last() =~= faders@.take(k as int));
                assert(bytes@ =~= sysex_prefix_spec(43) + fader_entries_spec(
                    faders@.take(k + 1),
                    fader_type,
                ));
            }
            k = k + 1;
        }
        bytes.push(247);
        proof {
            assert(faders@.take(n as int) =~= faders@);
            assert(bytes@ =~= designate_faders_frame_spec(faders@, fader_type));
        }
        self.output.send(bytes.as_slice())
    }

    /// Move one fader to a value; the device animates towards it and
    /// reports the interim positions as fader-change input events.
    pub fn set_fader(&mut self, index: u8, value: u8) -> (r: Result<(), MidiError>)
        requires
            index <= 7,
            value <= 127,
        ensures
            r is Ok,
            final(self).fader_type() == old(self).fader_type(),
            final(self).frames() == old(self).frames().push(set_fader_frame_spec(index, value)),
    {
        let bytes: [u8; 3] = [176, 21 + index, value];
        proof {
            assert(bytes@ =~= set_fader_frame_spec(index, value));
        }
        self.output.send(bytes.as_slice())
    }
}

/// The logical button a canvas cell maps to when the canvas flushes.
pub open spec fn flush_button_spec(x: int, y: int) -> LogicalButton {
    match crate::protocols::physical_to_logical_spec(x, y) {
        Some(b) => b,
        None => LogicalButton::ControlButton { index: 0u8 },
    }
}

/// The first `n` batch entries of a canvas flush: each changed cell in
/// true RGB.
pub open spec fn flush_entries_spec(changes: Seq<(u32, u32, (u8, u8, u8))>, n: int) -> Seq<
    (LogicalButton, RgbColor),
>
    decreases n,
{
    if n <= 0 {
        Seq::empty()
    } else {
        let c = changes[n - 1];
        flush_entries_spec(changes, n - 1).push(
            (
                flush_button_spec(c.0 as int, c.1 as int),
                RgbColor { r: c.2.0, g: c.2.1, b: c.2.2 },
            ),
        )
    }
}

/// The Launchpad MK2 as a canvas: a 9 by 9 bounding box without the cell
/// at `(8, 0)` and 64 levels per RGB channel, flushing changed cells
/// through batched RGB lighting messages of at most 80 entries each.
pub struct Spec;

impl DeviceSpec for Spec {
    type Input = Input;

    type Output = Output;

    open spec fn spec_width() -> u32 {
        9
    }

    open spec fn spec_height() -> u32 {
        9
    }

    open spec fn spec_color_precision() -> u16 {
        64
    }

    open spec fn spec_valid(x: int, y: int) -> bool {
        0 <= x <= 8 && 0 <= y <= 8 && !(x == 8 && y == 0)
    }

    proof fn lemma_shape() {
    }

    fn bounding_box_width() -> (r: u32) {
        9
    }

    fn bounding_box_height() -> (r: u32) {
        9
    }

    fn color_precision() -> (r: u16) {
        64
    }

    fn is_valid(x: u32, y: u32) -> (r: bool) {
        if x > 8 || y > 8 {
            return false;
        }
        if x == 8 && y == 0 {
            return false;
        }
        true
    }

    open spec fn flush_frames_spec(
        pending: Array2d<crate::color::Color>,
        changes: Seq<(u32, u32, (u8, u8, u8))>,
    ) -> Seq<Seq<u8>> {
        let entries = flush_entries_spec(changes, changes.len() as int);
        if entries.len() == 0 {
            Seq::empty()
        } else if entries.len() <= 80 {
            seq![light_multiple_rgb_frame_spec(entries)]
        } else {
            // the batched form holds at most 80 entries, so an 81-cell
            // flush goes out as a full batch and a remainder
            seq![
                light_multiple_rgb_frame_spec(entries.take(80)),
                light_multiple_rgb_frame_spec(entries.skip(80)),
            ]
        }
    }

    fn flush(
        output: &mut Output,
        pending: &Array2d<crate::color::Color>,
        changes: &Vec<(u32, u32, (u8, u8, u8))>,
    ) -> (r: Result<(), MidiError>) {
        let mut entries: Vec<(Button, RgbColor)> = Vec::new();
        let n = changes.len();
        let mut k: usize = 0;
        while k < n
            invariant
                0 <= k <= n,
                n == changes@.len(),
                n <= 81,
                forall|m: int|
                    0 <= m < changes@.len() ==> Spec::spec_valid(
                        (#[trigger] changes@[m]).0 as int,
                        changes@[m].1 as int,
                    ) && changes@[m].2.0 < 64 && changes@[m].2.1 < 64 && changes@[m].2.2 < 64,
                entries@ == flush_entries_spec(changes@, k as int),
                entries@.len() == k as int,
                forall|m: int|
                    0 <= m < entries@.len() ==> mk2_button_wf((#[trigger] entries@[m]).0)
                        && entries@[m].1.wf(),
            decreases n - k,
        {
            let (x, y, (red, green, blue)) = changes[k];
            let button = match mapped_button(x, y) {
                Some(b) => b,
                None => {
                    proof {
                        // every valid cell has a logical role
                        assert(false);
                    }
                    Button::ControlButton { index: 0 }
                },
            };
            let color = RgbColor::new(red, green, blue);
            proof {
                assert(color == (RgbColor { r: red, g: green, b: blue }));
                assert(button == flush_button_spec(x as int, y as int));
            }
            entries.push((button, color));
            proof {
                assert(entries@ =~= flush_entries_spec(changes@, k as int + 1));
            }
            k = k + 1;
        }
        if entries.len() == 0 {
            proof {
                assert(output.frames() =~= old(output).frames() + Self::flush_frames_spec(
                    *pending,
                    changes@,
                ));
            }
            Ok(())
        } else if entries.len() <= 80 {
            let r = output.light_multiple_rgb(entries.as_slice());
            proof {
                assert(output.frames() =~= old(output).frames() + Self::flush_frames_spec(
                    *pending,
                    changes@,
                ));
            }
            r
        } else {
            let mut head: Vec<(Button, RgbColor)> = Vec::new();
            let mut tail: Vec<(Button, RgbColor)> = Vec::new();
            let total = entries.len();
            let mut m: usize = 0;
            while m < total
                invariant
                    0 <= m <= total,
                    total == entries@.len(),
                    80 < total <= 81,
                    forall|q: int|
                        0 <= q < entries@.len() ==> mk2_button_wf((#[trigger] entries@[q]).0)
                            && entries@[q].1.wf(),
                    head@ == entries@.take(if m as int <= 80 {
                        m as int
                    } else {
                        80
                    }),
                    tail@ == if m as int <= 80 {
                        Seq::<(Button, RgbColor)>::empty()
                    } else {
                        entries@.subrange(80, m as int)
                    },
                decreases total - m,
            {
                if m < 80 {
                    head.push(entries[m]);
                    proof {
                        assert(head@ =~= entries@.take(m as int + 1));
                    }
                } else {
                    tail.push(entries[m]);
                    proof {
                        assert(tail@ =~= entries@.subrange(80, m as int + 1));
                    }
                }
                m = m + 1;
            }
            proof {
                assert(head@ =~= entries@.take(80));
                assert(tail@ =~= entries@.skip(80));
            }
            let _ = output.light_multiple_rgb(head.as_slice());
            let r = output.light_multiple_rgb(tail.as_slice());
            proof {
                assert(output.frames() =~= old(output).frames() + Self::flush_frames_spec(
                    *pending,
                    changes@,
                ));
            }
            r
        }
    }

    open spec fn convert_message_spec(msg: Message) -> Option<CanvasMessage> {
        match msg {
            Message::Press { button } => {
                let b = crate::protocols::logical_to_physical_spec(button);
                Some(CanvasMessage::Press { x: b.x, y: b.y })
            },
            Message::Release { button } => {
                let b = crate::protocols::logical_to_physical_spec(button);
                Some(CanvasMessage::Release { x: b.x, y: b.y })
            },
            _ => None,
        }
    }

    fn convert_message(msg: Message) -> (r: Option<CanvasMessage>) {
        match msg {
            Message::Press { button } => {
                let b = default_logical_to_physical(button);
                Some(CanvasMessage::Press { x: b.x, y: b.y })
            },
            Message::Release { button } => {
                let b = default_logical_to_physical(button);
                Some(CanvasMessage::Release { x: b.x, y: b.y })
            },
            _ => None,
        }
    }

    fn setup(output: &mut Output) -> (r: Result<(), MidiError>) {
        Ok(())
    }
}

/// The canvas type of the Launchpad MK2.
pub type Canvas = crate::generic::DeviceCanvas<Spec>;

/// The logical button of a valid canvas cell, by the shared default
/// layout.
fn mapped_button(x: u32, y: u32) -> (r: Option<LogicalButton>)
    ensures
        r == crate::protocols::physical_to_logical_spec(x as int, y as int),
        (x <= 8 && 1 <= y <= 8) || (y == 0 && x <= 7) ==> (r matches Some(b)
            ==> mk2_button_wf(b)),
{
    if y == 0 {
        if x <= 15 {
            Some(LogicalButton::ControlButton { index: x as u8 })
        } else {
            None
        }
    } else if y <= 8 && x <= 8 {
        Some(LogicalButton::GridButton { x: x as u8, y: (y as u8) - 1 })
    } else {
        None
    }
}

} // verus!
