//! The device-independent canvas abstraction: a rectangular grid of colored
//! cells with buffered writes and an explicit flush, plus the input message
//! type and the iterator over a canvas's valid pads.

use vstd::prelude::*;

use crate::color::{bounded, Color, COLOR_BOUND};
use crate::errors::MidiError;
use crate::pad::Pad;

verus! {

/// A device-independent input event, in the canvas's absolute coordinates.
#[derive(Clone, Copy, Eq, PartialEq, Hash, Debug, Structural)]
pub enum CanvasMessage {
    Press { x: u32, y: u32 },
    Release { x: u32, y: u32 },
}

impl CanvasMessage {
    /// The x coordinate, for press and release messages alike.
    pub fn x(&self) -> (r: u32)
        ensures
            r == message_x_spec(*self),
    {
        match *self {
            CanvasMessage::Press { x, y: _ } => x,
            CanvasMessage::Release { x, y: _ } => x,
        }
    }

    /// The y coordinate, for press and release messages alike.
    pub fn y(&self) -> (r: u32)
        ensures
            r == message_y_spec(*self),
    {
        match *self {
            CanvasMessage::Press { x: _, y } => y,
            CanvasMessage::Release { x: _, y } => y,
        }
    }

    /// The message's coordinates as a pad.
    pub fn pad(&self) -> (r: Pad)
        requires
            message_x_spec(*self) <= i32::MAX,
            message_y_spec(*self) <= i32::MAX,
        ensures
            r.x == message_x_spec(*self),
            r.y == message_y_spec(*self),
    {
        Pad { x: self.x() as i32, y: self.y() as i32 }
    }

    /// Whether this is a press message.
    pub fn is_press(&self) -> (r: bool)
        ensures
            r == (self matches CanvasMessage::Press { .. }),
    {
        match *self {
            CanvasMessage::Press { .. } => true,
            _ => false,
        }
    }

    /// Whether this is a release message.
    pub fn is_release(&self) -> (r: bool)
        ensures
            r == (self matches CanvasMessage::Release { .. }),
    {
        match *self {
            CanvasMessage::Release { .. } => true,
            _ => false,
        }
    }
}

pub open spec fn message_x_spec(msg: CanvasMessage) -> u32 {
    match msg {
        CanvasMessage::Press { x, y: _ } => x,
        CanvasMessage::Release { x, y: _ } => x,
    }
}

pub open spec fn message_y_spec(msg: CanvasMessage) -> u32 {
    match msg {
        CanvasMessage::Press { x: _, y } => y,
        CanvasMessage::Release { x: _, y } => y,
    }
}

/// A grid of LEDs that accumulates color changes and flushes them to the
/// underlying device in one batch.
///
/// Every canvas maintains two buffers: the currently displayed state and
/// the pending (unflushed) state. Writes go to the pending buffer; `flush`
/// pushes the pending state to the hardware and makes it the displayed
/// state.
pub trait Canvas: Sized {
    /// The width of the smallest rectangle that fully encapsulates the
    /// shape of this canvas.
    spec fn spec_width(&self) -> u32;

    /// The height of that rectangle.
    spec fn spec_height(&self) -> u32;

    /// The canvas's internal invariant.
    spec fn wf(&self) -> bool;

    /// Whether `(x, y)` is an actual cell of this canvas.
    spec fn spec_valid(&self, x: int, y: int) -> bool;

    /// The currently displayed (already flushed) color of a cell.
    spec fn displayed(&self, x: int, y: int) -> Color;

    /// The pending (written but not yet flushed) color of a cell.
    spec fn pending(&self, x: int, y: int) -> Color;

    /// The smallest nonzero brightness the canvas can render, in
    /// fixed-point units of `1 / COLOR_UNIT`.
    spec fn spec_lowest_visible_brightness(&self) -> i32;

    /// Valid cells lie inside the bounding box.
    proof fn lemma_valid_in_box(&self, x: int, y: int)
        requires
            self.wf(),
            self.spec_valid(x, y),
        ensures
            0 <= x < self.spec_width() as int,
            0 <= y < self.spec_height() as int,
    ;

    /// Stored colors stay within the library's working bound.
    proof fn lemma_cell_bounded(&self, x: int, y: int)
        requires
            self.wf(),
            self.spec_valid(x, y),
        ensures
            bounded(self.displayed(x, y), COLOR_BOUND as int),
            bounded(self.pending(x, y), COLOR_BOUND as int),
    ;

    /// The width and height of the canvas's bounding box.
    fn bounding_box(&self) -> (r: (u32, u32))
        requires
            self.wf(),
        ensures
            r.0 == self.spec_width(),
            r.1 == self.spec_height(),
    ;

    /// The displayed color at `(x, y)`, or nothing when out of bounds.
    fn low_level_get(&self, x: u32, y: u32) -> (r: Option<Color>)
        requires
            self.wf(),
        ensures
            r == if self.spec_valid(x as int, y as int) {
                Some(self.displayed(x as int, y as int))
            } else {
                Option::<Color>::None
            },
    ;

    /// The pending color at `(x, y)`, or nothing when out of bounds.
    fn low_level_get_pending(&self, x: u32, y: u32) -> (r: Option<Color>)
        requires
            self.wf(),
        ensures
            r == if self.spec_valid(x as int, y as int) {
                Some(self.pending(x as int, y as int))
            } else {
                Option::<Color>::None
            },
    ;

    /// Write a pending color at `(x, y)`; reports whether the cell exists.
    fn low_level_set_pending(&mut self, x: u32, y: u32, color: Color) -> (r: bool)
        requires
            old(self).wf(),
            bounded(color, COLOR_BOUND as int),
        ensures
            final(self).wf(),
            final(self).spec_width() == old(self).spec_width(),
            final(self).spec_height() == old(self).spec_height(),
            forall|i: int, j: int| final(self).spec_valid(i, j) == old(self).spec_valid(i, j),
            final(self).spec_lowest_visible_brightness() == old(self).spec_lowest_visible_brightness(),
            r == old(self).spec_valid(x as int, y as int),
            forall|i: int, j: int|
                old(self).spec_valid(i, j) ==> final(self).displayed(i, j) == old(self).displayed(i, j),
            r ==> final(self).pending(x as int, y as int) == color,
            forall|i: int, j: int|
                old(self).spec_valid(i, j) && !(i == x as int && j == y as int) ==> final(self).pending(i, j) == old(self).pending(i, j),
    ;

    /// Flush the accumulated changes to the underlying device: afterwards
    /// the displayed state equals the previously pending state, and the
    /// pending state is untouched.
    fn flush(&mut self) -> (r: Result<(), MidiError>)
        requires
            old(self).wf(),
        ensures
            final(self).wf(),
            final(self).spec_width() == old(self).spec_width(),
            final(self).spec_height() == old(self).spec_height(),
            forall|i: int, j: int| final(self).spec_valid(i, j) == old(self).spec_valid(i, j),
            final(self).spec_lowest_visible_brightness() == old(self).spec_lowest_visible_brightness(),
            r is Ok,
            forall|i: int, j: int|
                old(self).spec_valid(i, j) ==> final(self).displayed(i, j) == old(self).pending(i, j)
                    && final(self).pending(i, j) == old(self).pending(i, j),
    ;

    /// The wire frames queued by the flushes so far and not yet taken,
    /// oldest first, across all the devices this canvas composes.
    spec fn wire_frames(&self) -> Seq<Seq<u8>>;

    /// Hand the transport every queued wire frame, oldest first, across
    /// all the devices this canvas composes. The canvas's own state is
    /// untouched.
    fn take_wire_frames(&mut self) -> (r: Vec<Vec<u8>>)
        requires
            old(self).wf(),
        ensures
            r.deep_view() == old(self).wire_frames(),
            final(self).wire_frames() == Seq::<Seq<u8>>::empty(),
            final(self).wf(),
            final(self).spec_width() == old(self).spec_width(),
            final(self).spec_height() == old(self).spec_height(),
            forall|i: int, j: int| final(self).spec_valid(i, j) == old(self).spec_valid(i, j),
            final(self).spec_lowest_visible_brightness() == old(self).spec_lowest_visible_brightness(),
            forall|i: int, j: int|
                old(self).spec_valid(i, j) ==> final(self).displayed(i, j) == old(self).displayed(i, j)
                    && final(self).pending(i, j) == old(self).pending(i, j),
    ;

    /// The lowest visible brightness, used to calibrate brightness across
    /// devices in a composed layout.
    fn lowest_visible_brightness(&self) -> (r: i32)
        requires
            self.wf(),
        ensures
            r == self.spec_lowest_visible_brightness(),
    ;

    /// The displayed color at a pad, or nothing when out of bounds.
    fn get(&self, pad: Pad) -> (r: Option<Color>)
        requires
            self.wf(),
        ensures
            r == if pad.x >= 0 && pad.y >= 0 && self.spec_valid(pad.x as int, pad.y as int) {
                Some(self.displayed(pad.x as int, pad.y as int))
            } else {
                Option::<Color>::None
            },
    {
        match pad.to_u32() {
            Some((x, y)) => self.low_level_get(x, y),
            None => None,
        }
    }

    /// The pending color at a pad, or nothing when out of bounds.
    fn get_pending(&self, pad: Pad) -> (r: Option<Color>)
        requires
            self.wf(),
        ensures
            r == if pad.x >= 0 && pad.y >= 0 && self.spec_valid(pad.x as int, pad.y as int) {
                Some(self.pending(pad.x as int, pad.y as int))
            } else {
                Option::<Color>::None
            },
    {
        match pad.to_u32() {
            Some((x, y)) => self.low_level_get_pending(x, y),
            None => None,
        }
    }

    /// Set the pending color at a pad; nothing happens (and nothing is
    /// returned) when the pad is out of bounds.
    fn set(&mut self, pad: Pad, color: Color) -> (r: Option<()>)
        requires
            old(self).wf(),
            bounded(color, COLOR_BOUND as int),
        ensures
            final(self).wf(),
            final(self).spec_width() == old(self).spec_width(),
            final(self).spec_height() == old(self).spec_height(),
            forall|i: int, j: int| final(self).spec_valid(i, j) == old(self).spec_valid(i, j),
            final(self).spec_lowest_visible_brightness() == old(self).spec_lowest_visible_brightness(),
            forall|i: int, j: int|
                old(self).spec_valid(i, j) ==> final(self).displayed(i, j) == old(self).displayed(i, j),
            r == if pad.x >= 0 && pad.y >= 0 && old(self).spec_valid(pad.x as int, pad.y as int) {
                Some(())
            } else {
                Option::<()>::None
            },
            r is Some ==> final(self).pending(pad.x as int, pad.y as int) == color,
            forall|i: int, j: int|
                old(self).spec_valid(i, j) && !(i == pad.x as int && j == pad.y as int)
                    ==> final(self).pending(i, j) == old(self).pending(i, j),
    {
        match pad.to_u32() {
            Some((x, y)) => {
                if self.low_level_set_pending(x, y, color) {
                    Some(())
                } else {
                    None
                }
            },
            None => None,
        }
    }

    /// Light the pad with the given color, except when it already pends
    /// exactly that color; then turn it off instead.
    fn toggle(&mut self, pad: Pad, color: Color) -> (r: Option<()>)
        requires
            old(self).wf(),
            bounded(color, COLOR_BOUND as int),
        ensures
            final(self).wf(),
            final(self).spec_width() == old(self).spec_width(),
            final(self).spec_height() == old(self).spec_height(),
            forall|i: int, j: int| final(self).spec_valid(i, j) == old(self).spec_valid(i, j),
            final(self).spec_lowest_visible_brightness() == old(self).spec_lowest_visible_brightness(),
            forall|i: int, j: int|
                old(self).spec_valid(i, j) ==> final(self).displayed(i, j) == old(self).displayed(i, j),
            r == if pad.x >= 0 && pad.y >= 0 && old(self).spec_valid(pad.x as int, pad.y as int) {
                Some(())
            } else {
                Option::<()>::None
            },
            r is Some ==> final(self).pending(pad.x as int, pad.y as int) == (if old(self).pending(pad.x as int, pad.y as int) == color {
                Color { r: 0i32, g: 0i32, b: 0i32 }
            } else {
                color
            }),
            forall|i: int, j: int|
                old(self).spec_valid(i, j) && !(i == pad.x as int && j == pad.y as int)
                    ==> final(self).pending(i, j) == old(self).pending(i, j),
    {
        let current = self.get_pending(pad);
        match current {
            Some(c) => {
                if c == color {
                    self.set(pad, Color::black())
                } else {
                    self.set(pad, color)
                }
            },
            None => None,
        }
    }

    /// Whether the pad is an actual cell of this canvas.
    fn is_valid(&self, pad: Pad) -> (r: bool)
        requires
            self.wf(),
        ensures
            r == (pad.x >= 0 && pad.y >= 0 && self.spec_valid(pad.x as int, pad.y as int)),
    {
        match pad.to_u32() {
            Some((x, y)) => self.low_level_get(x, y).is_some(),
            None => false,
        }
    }

    /// Set every valid pad to black.
    fn clear(&mut self)
        requires
            old(self).wf(),
        ensures
            final(self).wf(),
            final(self).spec_width() == old(self).spec_width(),
            final(self).spec_height() == old(self).spec_height(),
            forall|i: int, j: int| final(self).spec_valid(i, j) == old(self).spec_valid(i, j),
            final(self).spec_lowest_visible_brightness() == old(self).spec_lowest_visible_brightness(),
            forall|i: int, j: int|
                old(self).spec_valid(i, j) ==> final(self).displayed(i, j) == old(self).displayed(i, j),
            forall|i: int, j: int|
                old(self).spec_valid(i, j) ==> final(self).pending(i, j) == (Color {
                    r: 0i32,
                    g: 0i32,
                    b: 0i32,
                }),
    {
        let (width, height) = self.bounding_box();
        let mut y: u32 = 0;
        while y < height
            invariant
                self.wf(),
                self.spec_width() == old(self).spec_width(),
                self.spec_height() == old(self).spec_height(),
                forall|i: int, j: int| self.spec_valid(i, j) == old(self).spec_valid(i, j),
                self.spec_lowest_visible_brightness() == old(self).spec_lowest_visible_brightness(),
                forall|i: int, j: int|
                    old(self).spec_valid(i, j) ==> self.displayed(i, j) == old(self).displayed(i, j),
                0 <= y <= height,
                height == self.spec_height(),
                width == self.spec_width(),
                forall|i: int, j: int|
                    old(self).spec_valid(i, j) && 0 <= j < y ==> self.pending(i, j) == (Color {
                        r: 0i32,
                        g: 0i32,
                        b: 0i32,
                    }),
                forall|i: int, j: int|
                    old(self).spec_valid(i, j) && !(0 <= j < y) ==> self.pending(i, j) == old(
                        self,
                    ).pending(i, j),
            decreases height - y,
        {
            let mut x: u32 = 0;
            while x < width
                invariant
                    self.wf(),
                    self.spec_width() == old(self).spec_width(),
                    self.spec_height() == old(self).spec_height(),
                    forall|i: int, j: int| self.spec_valid(i, j) == old(self).spec_valid(i, j),
                    self.spec_lowest_visible_brightness() == old(self).spec_lowest_visible_brightness(),
                    forall|i: int, j: int|
                        old(self).spec_valid(i, j) ==> self.displayed(i, j) == old(self).displayed(i, j),
                    0 <= x <= width,
                    0 <= y < height,
                    height == self.spec_height(),
                    width == self.spec_width(),
                    forall|i: int, j: int|
                        old(self).spec_valid(i, j) && 0 <= j < y ==> self.pending(i, j) == (Color {
                            r: 0i32,
                            g: 0i32,
                            b: 0i32,
                        }),
                    forall|i: int, j: int|
                        old(self).spec_valid(i, j) && j == y && 0 <= i < x ==> self.pending(i, j)
                            == (Color { r: 0i32, g: 0i32, b: 0i32 }),
                    forall|i: int, j: int|
                        old(self).spec_valid(i, j) && !(0 <= j < y) && !(j == y && 0 <= i < x)
                            ==> self.pending(i, j) == old(self).pending(i, j),
                decreases width - x,
            {
                self.low_level_set_pending(x, y, Color::black());
                x = x + 1;
            }
            proof {
                assert forall|i: int, j: int|
                    old(self).spec_valid(i, j) && 0 <= j < y + 1 implies self.pending(i, j) == (Color {
                    r: 0i32,
                    g: 0i32,
                    b: 0i32,
                }) by {
                    if j == y {
                        assert(self.spec_valid(i, j) == old(self).spec_valid(i, j));
                        self.lemma_valid_in_box(i, j);
                    }
                }
            }
            y = y + 1;
        }
        proof {
            assert forall|i: int, j: int| old(self).spec_valid(i, j) implies self.pending(i, j)
                == (Color { r: 0i32, g: 0i32, b: 0i32 }) by {
                assert(self.spec_valid(i, j) == old(self).spec_valid(i, j));
                self.lemma_valid_in_box(i, j);
            }
        }
    }
}

/// The valid pads among the first `n` cells of the row-major scan of the
/// canvas's bounding box.
pub open spec fn valid_pads_prefix<C: Canvas>(c: &C, n: int) -> Seq<Pad>
    decreases n,
{
    if n <= 0 {
        Seq::empty()
    } else {
        let i = n - 1;
        let w = c.spec_width() as int;
        let x = i % w;
        let y = i / w;
        if c.spec_valid(x, y) {
            valid_pads_prefix(c, i).push(Pad { x: x as i32, y: y as i32 })
        } else {
            valid_pads_prefix(c, i)
        }
    }
}

/// Every valid pad of the canvas, in row-major scan order.
pub open spec fn valid_pads<C: Canvas>(c: &C) -> Seq<Pad> {
    valid_pads_prefix(c, (c.spec_width() as int) * (c.spec_height() as int))
}

/// An iterator over the valid pads of a canvas, pre-computed at creation:
/// consuming it does not observe later mutation of the canvas.
pub struct CanvasIterator {
    /// The pads, in row-major scan order.
    pub pads: Vec<Pad>,
    /// How many pads have been handed out so far.
    pub position: usize,
}

impl CanvasIterator {
    /// Collect the valid pads of the canvas.
    pub fn new<C: Canvas>(canvas: &C) -> (r: CanvasIterator)
        requires
            canvas.wf(),
        ensures
            r.pads@ == valid_pads(canvas),
            r.position == 0,
    {
        let (width, height) = canvas.bounding_box();
        let ghost w = width as int;
        let mut pads: Vec<Pad> = Vec::new();
        let mut y: u32 = 0;
        while y < height
            invariant
                canvas.wf(),
                width == canvas.spec_width(),
                height == canvas.spec_height(),
                0 <= y <= height,
                pads@ == valid_pads_prefix(canvas, y as int * w),
                w == width as int,
            decreases height - y,
        {
            let mut x: u32 = 0;
            while x < width
                invariant
                    canvas.wf(),
                    width == canvas.spec_width(),
                    height == canvas.spec_height(),
                    0 <= x <= width,
                    0 <= y < height,
                    pads@ == valid_pads_prefix(canvas, y as int * w + x as int),
                    w == width as int,
                decreases width - x,
            {
                proof {
                    lemma_scan_index(x as int, y as int, w);
                    assert(y as int * w + x as int + 1 - 1 == y as int * w + x as int);
                }
                if canvas.low_level_get(x, y).is_some() {
                    pads.push(Pad { x: x as i32, y: y as i32 });
                }
                x = x + 1;
            }
            proof {
                assert(y as int * w + w == (y as int + 1) * w) by (nonlinear_arith);
            }
            y = y + 1;
        }
        proof {
            assert(y as int * w == (canvas.spec_width() as int) * (
            canvas.spec_height() as int)) by (nonlinear_arith)
                requires
                    y as int == canvas.spec_height() as int && w == canvas.spec_width() as int,
            ;
        }
        CanvasIterator { pads, position: 0 }
    }

    /// The next pad, or nothing once every pad has been handed out.
    pub fn next(&mut self) -> (r: Option<Pad>)
        ensures
            final(self).pads == old(self).pads,
            r == if old(self).position < old(self).pads@.len() {
                Some(old(self).pads@[old(self).position as int])
            } else {
                Option::<Pad>::None
            },
            final(self).position == if old(self).position < old(self).pads@.len() {
                old(self).position + 1
            } else {
                old(self).position as int
            },
    {
        if self.position < self.pads.len() {
            let pad = self.pads[self.position];
            self.position = self.position + 1;
            Some(pad)
        } else {
            None
        }
    }

    /// How many pads the iterator holds in total.
    pub fn len(&self) -> (r: usize)
        ensures
            r == self.pads@.len(),
    {
        self.pads.len()
    }
}

/// The row-major scan index of `(x, y)` splits back into `x` and `y`.
pub(crate) proof fn lemma_scan_index(x: int, y: int, w: int)
    requires
        0 <= x < w,
        0 <= y,
    ensures
        (y * w + x) % w == x,
        (y * w + x) / w == y,
{
    vstd::arithmetic::div_mod::lemma_fundamental_div_mod_converse(y * w + x, w, y, x);
}

/// A canvas's pad enumeration holds exactly its valid pads: membership in
/// `valid_pads` coincides with validity of the coordinate.
pub proof fn lemma_valid_pads_complete<C: Canvas>(c: &C, x: int, y: int)
    requires
        0 <= x < c.spec_width() as int,
        0 <= y < c.spec_height() as int,
        c.spec_width() as int <= i32::MAX as int,
        c.spec_height() as int <= i32::MAX as int,
    ensures
        valid_pads(c).contains(Pad { x: x as i32, y: y as i32 }) == c.spec_valid(x, y),
{
    let w = c.spec_width() as int;
    let h = c.spec_height() as int;
    lemma_scan_index(x, y, w);
    assert(y * w + x < w * h) by (nonlinear_arith)
        requires
            0 <= x < w && 0 <= y < h,
    ;
    lemma_valid_pads_prefix_membership(c, w * h, x, y);
}

/// Membership in a scan prefix: the pad for `(x, y)` appears in the first
/// `n` scan cells exactly when its scan index lies below `n` and the cell
/// is valid.
proof fn lemma_valid_pads_prefix_membership<C: Canvas>(c: &C, n: int, x: int, y: int)
    requires
        0 <= x < c.spec_width() as int,
        0 <= y <= i32::MAX as int,
        0 <= n <= (c.spec_width() as int) * (c.spec_height() as int),
        c.spec_width() as int <= i32::MAX as int,
        c.spec_height() as int <= i32::MAX as int,
    ensures
        valid_pads_prefix(c, n).contains(Pad { x: x as i32, y: y as i32 }) == (y * (
        c.spec_width() as int) + x < n && c.spec_valid(x, y)),
    decreases n,
{
    let w = c.spec_width() as int;
    let h = c.spec_height() as int;
    let idx = y * w + x;
    lemma_scan_index(x, y, w);
    if n <= 0 {
        assert(y * w + x >= 0) by (nonlinear_arith)
            requires
                0 <= x && 0 <= y && w > 0,
        ;
    } else {
        let i = n - 1;
        let xi = i % w;
        let yi = i / w;
        lemma_valid_pads_prefix_membership(c, i, x, y);
        vstd::arithmetic::div_mod::lemma_mod_division_less_than_divisor(i, w);
        vstd::arithmetic::div_mod::lemma_div_is_ordered(0, i, w);
        vstd::arithmetic::div_mod::lemma_div_of0(w);
        // the scan row of cell i stays below the bounding box height
        assert(w * (h - 1) + (w - 1) == w * h - 1) by (nonlinear_arith);
        vstd::arithmetic::div_mod::lemma_div_is_ordered(i, w * h - 1, w);
        vstd::arithmetic::div_mod::lemma_fundamental_div_mod_converse(
            w * h - 1,
            w,
            h - 1,
            w - 1,
        );
        assert(0 <= yi <= h - 1);
        // cell i is the cell at (xi, yi)
        vstd::arithmetic::div_mod::lemma_fundamental_div_mod(i, w);
        assert(w * yi == yi * w) by (nonlinear_arith);
        assert(i == yi * w + xi);
        let q = Pad { x: x as i32, y: y as i32 };
        let prev = valid_pads_prefix(c, i);
        let same = xi == x && yi == y;
        if same {
            assert(idx == i);
        } else {
            assert(idx != i) by {
                if idx == i {
                    vstd::arithmetic::div_mod::lemma_fundamental_div_mod_converse(idx, w, y, x);
                }
            }
        }
        if c.spec_valid(xi, yi) {
            let p = Pad { x: xi as i32, y: yi as i32 };
            assert(valid_pads_prefix(c, n) == prev.push(p));
            if same {
                assert(valid_pads_prefix(c, n)[prev.len() as int] == q);
                assert(valid_pads_prefix(c, n).contains(q));
            } else {
                assert(q != p);
                assert(valid_pads_prefix(c, n).contains(q) == prev.contains(q)) by {
                    if prev.contains(q) {
                        let k = choose|k: int| 0 <= k < prev.len() && prev[k] == q;
                        assert(prev.push(p)[k] == q);
                    } else if prev.push(p).contains(q) {
                        let k = choose|k: int|
                            0 <= k < prev.push(p).len() && prev.push(p)[k] == q;
                        assert(0 <= k < prev.len() + 1);
                        if k < prev.len() {
                            assert(prev[k] == q);
                        }
                    }
                }
            }
        } else {
            assert(valid_pads_prefix(c, n) == prev);
            if same {
                assert(!c.spec_valid(x, y));
            }
        }
    }
}

/// The pads of a scan prefix carry scan indices below the prefix length.
proof fn lemma_valid_pads_prefix_index_bound<C: Canvas>(c: &C, n: int, t: int)
    requires
        1 <= c.spec_width() as int <= i32::MAX as int,
        c.spec_height() as int <= i32::MAX as int,
        0 <= n <= (c.spec_width() as int) * (c.spec_height() as int),
        0 <= t < valid_pads_prefix(c, n).len(),
    ensures
        ({
            let p = valid_pads_prefix(c, n)[t];
            0 <= p.x && 0 <= p.y && (p.y as int) * (c.spec_width() as int) + p.x < n
        }),
    decreases n,
{
    let w = c.spec_width() as int;
    let h = c.spec_height() as int;
    if n > 0 {
        let i = n - 1;
        let x = i % w;
        let y = i / w;
        let prev = valid_pads_prefix(c, i);
        vstd::arithmetic::div_mod::lemma_fundamental_div_mod(i, w);
        vstd::arithmetic::div_mod::lemma_mod_division_less_than_divisor(i, w);
        vstd::arithmetic::div_mod::lemma_div_is_ordered(0, i, w);
        vstd::arithmetic::div_mod::lemma_div_of0(w);
        assert(w * (h - 1) + (w - 1) == w * h - 1) by (nonlinear_arith);
        vstd::arithmetic::div_mod::lemma_div_is_ordered(i, w * h - 1, w);
        vstd::arithmetic::div_mod::lemma_fundamental_div_mod_converse(
            w * h - 1,
            w,
            h - 1,
            w - 1,
        );
        assert((i / w) * w == w * (i / w)) by (nonlinear_arith);
        if c.spec_valid(x, y) && t == prev.len() {
        } else {
            lemma_valid_pads_prefix_index_bound(c, i, t);
        }
    }
}

/// A canvas's pad enumeration lists every cell at most once.
pub proof fn lemma_valid_pads_distinct<C: Canvas>(c: &C, t1: int, t2: int)
    requires
        c.spec_width() as int <= i32::MAX as int,
        c.spec_height() as int <= i32::MAX as int,
        0 <= t1 < t2 < valid_pads(c).len(),
    ensures
        valid_pads(c)[t1] != valid_pads(c)[t2],
{
    let w = c.spec_width() as int;
    let h = c.spec_height() as int;
    if w == 0 {
        assert(w * h == 0) by (nonlinear_arith)
            requires
                w == 0,
        ;
    }
    lemma_valid_pads_distinct_prefix(c, w * h, t1, t2);
}

proof fn lemma_valid_pads_distinct_prefix<C: Canvas>(c: &C, n: int, t1: int, t2: int)
    requires
        1 <= c.spec_width() as int <= i32::MAX as int,
        c.spec_height() as int <= i32::MAX as int,
        0 <= n <= (c.spec_width() as int) * (c.spec_height() as int),
        0 <= t1 < t2 < valid_pads_prefix(c, n).len(),
    ensures
        valid_pads_prefix(c, n)[t1] != valid_pads_prefix(c, n)[t2],
    decreases n,
{
    let w = c.spec_width() as int;
    if n > 0 {
        let i = n - 1;
        let x = i % w;
        let y = i / w;
        let prev = valid_pads_prefix(c, i);
        if c.spec_valid(x, y) && t2 == prev.len() {
            lemma_valid_pads_prefix_index_bound(c, i, t1);
            let p1 = prev[t1];
            if p1 == valid_pads_prefix(c, n)[t2] {
                // equal pads would share a scan index, but the new pad's
                // index is the largest so far
                let h = c.spec_height() as int;
                vstd::arithmetic::div_mod::lemma_fundamental_div_mod(i, w);
                vstd::arithmetic::div_mod::lemma_mod_division_less_than_divisor(i, w);
                vstd::arithmetic::div_mod::lemma_div_is_ordered(0, i, w);
                vstd::arithmetic::div_mod::lemma_div_of0(w);
                assert(w * (h - 1) + (w - 1) == w * h - 1) by (nonlinear_arith);
                vstd::arithmetic::div_mod::lemma_div_is_ordered(i, w * h - 1, w);
                vstd::arithmetic::div_mod::lemma_fundamental_div_mod_converse(
                    w * h - 1,
                    w,
                    h - 1,
                    w - 1,
                );
                assert((i / w) * w == w * (i / w)) by (nonlinear_arith);
                assert(p1.x as int == x && p1.y as int == y);
                assert((p1.y as int) * w + p1.x == i);
            }
        } else {
            lemma_valid_pads_distinct_prefix(c, i, t1, t2);
        }
    }
}

} // verus!
