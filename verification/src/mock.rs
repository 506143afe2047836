//! An in-memory-only canvas over a pair of color buffers, for demos and
//! for canvas-level code that must not depend on physical hardware.

use vstd::prelude::*;

use crate::canvas::{Canvas, CanvasIterator};
use crate::color::{bounded, Color, COLOR_BOUND, COLOR_UNIT};
use crate::errors::MidiError;
use crate::util::Array2d;

verus! {

/// A canvas backed purely by memory: flushing copies the pending buffer
/// into the displayed buffer and touches no hardware.
pub struct MockCanvas {
    curr_buf: Array2d<Color>,
    new_buf: Array2d<Color>,
}

impl MockCanvas {
    /// A fully rectangular in-memory canvas of the given size.
    pub fn new(width: u32, height: u32) -> (r: MockCanvas)
        requires
            (width as int) * (height as int) <= u32::MAX as int,
        ensures
            r.wf(),
            r.spec_width() == width,
            r.spec_height() == height,
            forall|i: int, j: int|
                r.spec_valid(i, j) == (0 <= i < width as int && 0 <= j < height as int),
            r.spec_lowest_visible_brightness() == COLOR_UNIT / 64,
            forall|i: int, j: int|
                r.spec_valid(i, j) ==> r.displayed(i, j) == (Color { r: 0i32, g: 0i32, b: 0i32 })
                    && r.pending(i, j) == (Color { r: 0i32, g: 0i32, b: 0i32 }),
    {
        MockCanvas {
            curr_buf: Array2d::new(width, height, Color::black()),
            new_buf: Array2d::new(width, height, Color::black()),
        }
    }

    /// The valid pads of this canvas, in row-major scan order.
    pub fn iter(&self) -> (r: CanvasIterator)
        requires
            self.wf(),
        ensures
            r.pads@ == crate::canvas::valid_pads(self),
            r.position == 0,
    {
        CanvasIterator::new(self)
    }
}

impl Canvas for MockCanvas {
    closed spec fn spec_width(&self) -> u32 {
        self.curr_buf.spec_width()
    }

    closed spec fn spec_height(&self) -> u32 {
        self.curr_buf.spec_height()
    }

    closed spec fn wf(&self) -> bool {
        &&& self.curr_buf.wf()
        &&& self.new_buf.wf()
        &&& self.new_buf.spec_width() == self.curr_buf.spec_width()
        &&& self.new_buf.spec_height() == self.curr_buf.spec_height()
        &&& forall|i: int, j: int|
            self.curr_buf.in_bounds(i, j) ==> bounded(
                #[trigger] self.curr_buf.at(i, j),
                COLOR_BOUND as int,
            ) && bounded(self.new_buf.at(i, j), COLOR_BOUND as int)
    }

    closed spec fn spec_valid(&self, x: int, y: int) -> bool {
        self.curr_buf.in_bounds(x, y)
    }

    closed spec fn displayed(&self, x: int, y: int) -> Color {
        self.curr_buf.at(x, y)
    }

    closed spec fn pending(&self, x: int, y: int) -> Color {
        self.new_buf.at(x, y)
    }

    closed spec fn spec_lowest_visible_brightness(&self) -> i32 {
        (COLOR_UNIT / 64) as i32
    }

    closed spec fn wire_frames(&self) -> Seq<Seq<u8>> {
        Seq::empty()
    }

    proof fn lemma_valid_in_box(&self, x: int, y: int) {
    }

    proof fn lemma_cell_bounded(&self, x: int, y: int) {
        let ghost witness = self.curr_buf.at(x, y);
    }

    fn bounding_box(&self) -> (r: (u32, u32)) {
        (self.curr_buf.width(), self.curr_buf.height())
    }

    fn low_level_get(&self, x: u32, y: u32) -> (r: Option<Color>) {
        self.curr_buf.get(x, y)
    }

    fn low_level_get_pending(&self, x: u32, y: u32) -> (r: Option<Color>) {
        self.new_buf.get(x, y)
    }

    fn low_level_set_pending(&mut self, x: u32, y: u32, color: Color) -> (r: bool) {
        let r = self.new_buf.set(x, y, color);
        proof {
            assert forall|i: int, j: int| self.curr_buf.in_bounds(i, j) implies bounded(
                #[trigger] self.curr_buf.at(i, j),
                COLOR_BOUND as int,
            ) && bounded(self.new_buf.at(i, j), COLOR_BOUND as int) by {
                assert(old(self).curr_buf.at(i, j) == self.curr_buf.at(i, j));
                if !(i == x as int && j == y as int) {
                    assert(bounded(old(self).new_buf.at(i, j), COLOR_BOUND as int));
                }
            }
        }
        r
    }

    fn flush(&mut self) -> (r: Result<(), MidiError>) {
        self.curr_buf = self.new_buf.duplicate();
        proof {
            assert forall|i: int, j: int| self.curr_buf.in_bounds(i, j) implies bounded(
                #[trigger] self.curr_buf.at(i, j),
                COLOR_BOUND as int,
            ) && bounded(self.new_buf.at(i, j), COLOR_BOUND as int) by {
                let ghost witness = old(self).curr_buf.at(i, j);
                assert(self.curr_buf.at(i, j) == self.new_buf.at(i, j));
                assert(bounded(old(self).new_buf.at(i, j), COLOR_BOUND as int));
            }
        }
        Ok(())
    }

    fn take_wire_frames(&mut self) -> (r: Vec<Vec<u8>>) {
        let r: Vec<Vec<u8>> = Vec::new();
        proof {
            assert(r.deep_view() =~= Seq::<Seq<u8>>::empty());
        }
        r
    }

    fn lowest_visible_brightness(&self) -> (r: i32) {
        COLOR_UNIT / 64
    }
}

} // verus!
