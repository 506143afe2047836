//! The shared double-buffering primitives of the classic-protocol devices:
//! the 2-bit red/green color, the hardware buffer pair, and the bit layout
//! of the color code byte.

use vstd::prelude::*;

verus! {

/// A 2-bit color, with only red and green components (each in `0..4`).
#[derive(Debug, Copy, Clone, Eq, PartialEq, Hash, Structural)]
pub struct Color {
    pub red: u8,
    pub green: u8,
}

impl Color {
    pub open spec fn spec_red(&self) -> u8 {
        self.red
    }

    pub open spec fn spec_green(&self) -> u8 {
        self.green
    }

    /// Both components fit in two bits.
    pub open spec fn wf(&self) -> bool {
        self.spec_red() < 4 && self.spec_green() < 4
    }

    /// Create a new color from the given red and green components; both
    /// must be 2-bit values.
    pub fn new(red: u8, green: u8) -> (c: Color)
        requires
            red < 4,
            green < 4,
        ensures
            c.spec_red() == red,
            c.spec_green() == green,
            c.wf(),
    {
        Color { red, green }
    }

    /// All LEDs dark.
    pub fn off() -> (c: Color)
        ensures
            c.spec_red() == 0,
            c.spec_green() == 0,
            c.wf(),
    {
        Color { red: 0, green: 0 }
    }

    /// Full red.
    pub fn red_full() -> (c: Color)
        ensures
            c.spec_red() == 3,
            c.spec_green() == 0,
            c.wf(),
    {
        Color { red: 3, green: 0 }
    }

    /// Full green.
    pub fn green_full() -> (c: Color)
        ensures
            c.spec_red() == 0,
            c.spec_green() == 3,
            c.wf(),
    {
        Color { red: 0, green: 3 }
    }

    /// Full red and full green together.
    pub fn amber() -> (c: Color)
        ensures
            c.spec_red() == 3,
            c.spec_green() == 3,
            c.wf(),
    {
        Color { red: 3, green: 3 }
    }

    pub fn red(&self) -> (r: u8)
        ensures
            r == self.spec_red(),
    {
        self.red
    }

    pub fn green(&self) -> (r: u8)
        ensures
            r == self.spec_green(),
    {
        self.green
    }

    pub fn set_red(&mut self, red: u8)
        requires
            red < 4,
        ensures
            final(self).spec_red() == red,
            final(self).spec_green() == old(self).spec_green(),
    {
        self.red = red;
    }

    pub fn set_green(&mut self, green: u8)
        requires
            green < 4,
        ensures
            final(self).spec_green() == green,
            final(self).spec_red() == old(self).spec_red(),
    {
        self.green = green;
    }
}

/// The four brightness levels of the whole-panel test command.
#[derive(Debug, Ord, PartialOrd, Eq, PartialEq, Hash, Copy, Clone)]
pub enum Brightness {
    Off,
    Low,
    Medium,
    Full,
}

/// The wire code of a brightness level.
pub open spec fn brightness_code_spec(b: Brightness) -> u8 {
    match b {
        Brightness::Off => 0,
        Brightness::Low => 125,
        Brightness::Medium => 126,
        Brightness::Full => 127,
    }
}

/// One of the two hardware LED buffers.
#[derive(Debug, Eq, PartialEq, Hash, Copy, Clone)]
pub enum Buffer {
    A,
    B,
}

/// The wire code of a buffer: `A` is 0, `B` is 1.
pub open spec fn buffer_code_spec(b: Buffer) -> u8 {
    match b {
        Buffer::A => 0,
        Buffer::B => 1,
    }
}

/// How a light state change should affect the buffer that is not being
/// edited, if at all.
#[derive(Debug, Hash, Eq, PartialEq, Copy, Clone)]
pub enum DoubleBufferingBehavior {
    /// Only write to the currently edited buffer, leaving the other alone.
    Neither,
    /// Clear the other buffer's copy of this LED.
    Clear,
    /// Write this LED data to both buffers.
    Copy,
}

/// The 2-bit wire code of a double-buffering behavior.
pub open spec fn dbb_code_spec(dbb: DoubleBufferingBehavior) -> u8 {
    match dbb {
        DoubleBufferingBehavior::Neither => 0,
        DoubleBufferingBehavior::Copy => 1,
        DoubleBufferingBehavior::Clear => 2,
    }
}

/// A double-buffering mode change.
#[derive(Debug, Eq, PartialEq, Hash, Clone, Copy)]
pub struct DoubleBuffering {
    /// Copy the contents of the new displayed buffer to the new edited
    /// buffer.
    pub copy: bool,
    /// Continually flip displayed buffers to make a flashing effect.
    pub flash: bool,
    /// The buffer that is being edited.
    pub edited_buffer: Buffer,
    /// The buffer that is being displayed.
    pub displayed_buffer: Buffer,
}

/// The byte that a double-buffering mode change sends: a fixed marker bit,
/// then the copy, flash, edited-buffer and displayed-buffer bits.
pub open spec fn double_buffering_code_spec(d: DoubleBuffering) -> u8 {
    (32 + 16 * (if d.copy {
        1int
    } else {
        0int
    }) + 8 * (if d.flash {
        1int
    } else {
        0int
    }) + 4 * (buffer_code_spec(d.edited_buffer) as int) + (buffer_code_spec(
        d.displayed_buffer,
    ) as int)) as u8
}

/// The color code byte of a classic-protocol lighting message: bits 5..4
/// hold the green level, bits 3..2 the double-buffering behavior, bits 1..0
/// the red level, and bit 6 stays 0.
pub open spec fn make_color_code_spec(color: Color, dbb: DoubleBufferingBehavior) -> u8 {
    (16 * (color.spec_green() as int) + 4 * (dbb_code_spec(dbb) as int) + (
    color.spec_red() as int)) as u8
}

/// The color code byte of a text-scroll message, where the buffering bits
/// do not apply: bit 6 holds the loop flag instead.
pub open spec fn make_color_code_loopable_spec(color: Color, should_loop: bool) -> u8 {
    (64 * (if should_loop {
        1int
    } else {
        0int
    }) + 16 * (color.spec_green() as int) + (color.spec_red() as int)) as u8
}

/// Pack a color and a double-buffering behavior into one wire byte.
pub fn make_color_code(color: Color, dbb: DoubleBufferingBehavior) -> (code: u8)
    requires
        color.wf(),
    ensures
        code == make_color_code_spec(color, dbb),
        code < 64,
{
    let dbb_code: u8 = match dbb {
        DoubleBufferingBehavior::Neither => 0,
        DoubleBufferingBehavior::Copy => 1,
        DoubleBufferingBehavior::Clear => 2,
    };
    16 * color.green() + 4 * dbb_code + color.red()
}

/// Pack a color and a loop flag into one text-scroll wire byte.
pub fn make_color_code_loopable(color: Color, should_loop: bool) -> (code: u8)
    requires
        color.wf(),
    ensures
        code == make_color_code_loopable_spec(color, should_loop),
        code < 128,
{
    let loop_code: u8 = if should_loop {
        1
    } else {
        0
    };
    64 * loop_code + 16 * color.green() + color.red()
}

/// The wire code of a brightness level.
pub fn brightness_code(b: Brightness) -> (code: u8)
    ensures
        code == brightness_code_spec(b),
{
    match b {
        Brightness::Off => 0,
        Brightness::Low => 125,
        Brightness::Medium => 126,
        Brightness::Full => 127,
    }
}

/// Pack a double-buffering mode change into its wire byte.
pub fn double_buffering_code(d: DoubleBuffering) -> (code: u8)
    ensures
        code == double_buffering_code_spec(d),
        32 <= code < 64,
{
    let copy: u8 = if d.copy {
        1
    } else {
        0
    };
    let flash: u8 = if d.flash {
        1
    } else {
        0
    };
    let edited: u8 = match d.edited_buffer {
        Buffer::A => 0,
        Buffer::B => 1,
    };
    let displayed: u8 = match d.displayed_buffer {
        Buffer::A => 0,
        Buffer::B => 1,
    };
    32 + 16 * copy + 8 * flash + 4 * edited + displayed
}

} // verus!
