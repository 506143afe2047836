//! A canvas wrapper that fills the holes of an irregularly shaped canvas
//! with inert "virtual pixels", so callers can treat the canvas as a
//! perfect rectangle.

use vstd::prelude::*;

use crate::canvas::Canvas;
use crate::color::{bounded, Color, COLOR_BOUND};
use crate::errors::MidiError;
use crate::util::Array2d;

verus! {

/// A wrapper around any canvas whose reads and writes at real cells go to
/// the inner canvas, while reads and writes in the gaps go to a private
/// buffer pair that is never flushed to hardware — the virtual pixels
/// simply remember whatever was written.
pub struct PaddingCanvas<C: Canvas> {
    inner: C,
    curr_buf: Array2d<Color>,
    new_buf: Array2d<Color>,
}

impl<C: Canvas> PaddingCanvas<C> {
    /// Wrap the given canvas in a padding canvas.
    pub fn from(inner: C) -> (r: PaddingCanvas<C>)
        requires
            inner.wf(),
            (inner.spec_width() as int) * (inner.spec_height() as int) <= u32::MAX as int,
        ensures
            r.wf(),
            r.spec_width() == inner.spec_width(),
            r.spec_height() == inner.spec_height(),
            forall|i: int, j: int|
                r.spec_valid(i, j) == (0 <= i < inner.spec_width() as int && 0 <= j
                    < inner.spec_height() as int),
            forall|i: int, j: int|
                inner.spec_valid(i, j) ==> r.displayed(i, j) == inner.displayed(i, j)
                    && r.pending(i, j) == inner.pending(i, j),
    {
        let (width, height) = inner.bounding_box();
        PaddingCanvas {
            inner,
            curr_buf: Array2d::new(width, height, Color::black()),
            new_buf: Array2d::new(width, height, Color::black()),
        }
    }

    /// The valid pads of this canvas, in row-major scan order.
    pub fn iter(&self) -> (r: crate::canvas::CanvasIterator)
        requires
            self.wf(),
        ensures
            r.pads@ == crate::canvas::valid_pads(self),
            r.position == 0,
    {
        crate::canvas::CanvasIterator::new(self)
    }
}

impl<C: Canvas> Canvas for PaddingCanvas<C> {
    closed spec fn spec_width(&self) -> u32 {
        self.curr_buf.spec_width()
    }

    closed spec fn spec_height(&self) -> u32 {
        self.curr_buf.spec_height()
    }

    closed spec fn wf(&self) -> bool {
        &&& self.inner.wf()
        &&& self.curr_buf.wf()
        &&& self.new_buf.wf()
        &&& self.curr_buf.spec_width() == self.inner.spec_width()
        &&& self.curr_buf.spec_height() == self.inner.spec_height()
        &&& self.new_buf.spec_width() == self.inner.spec_width()
        &&& self.new_buf.spec_height() == self.inner.spec_height()
        &&& forall|i: int, j: int|
            self.curr_buf.in_bounds(i, j) ==> bounded(
                #[trigger] self.curr_buf.at(i, j),
                COLOR_BOUND as int,
            ) && bounded(self.new_buf.at(i, j), COLOR_BOUND as int)
    }

    closed spec fn spec_valid(&self, x: int, y: int) -> bool {
        self.curr_buf.in_bounds(x, y)
    }

    closed spec fn displayed(&self, x: int, y: int) -> Color {
        if self.inner.spec_valid(x, y) {
            self.inner.displayed(x, y)
        } else {
            self.curr_buf.at(x, y)
        }
    }

    closed spec fn pending(&self, x: int, y: int) -> Color {
        if self.inner.spec_valid(x, y) {
            self.inner.pending(x, y)
        } else {
            self.new_buf.at(x, y)
        }
    }

    closed spec fn spec_lowest_visible_brightness(&self) -> i32 {
        self.inner.spec_lowest_visible_brightness()
    }

    closed spec fn wire_frames(&self) -> Seq<Seq<u8>> {
        self.inner.wire_frames()
    }

    proof fn lemma_valid_in_box(&self, x: int, y: int) {
    }

    proof fn lemma_cell_bounded(&self, x: int, y: int) {
        let ghost witness = self.curr_buf.at(x, y);
        if self.inner.spec_valid(x, y) {
            self.inner.lemma_cell_bounded(x, y);
        }
    }

    fn bounding_box(&self) -> (r: (u32, u32)) {
        (self.curr_buf.width(), self.curr_buf.height())
    }

    fn low_level_get(&self, x: u32, y: u32) -> (r: Option<Color>) {
        match self.inner.low_level_get(x, y) {
            Some(color) => {
                proof {
                    self.inner.lemma_valid_in_box(x as int, y as int);
                }
                Some(color)
            },
            None => self.curr_buf.get(x, y),
        }
    }

    fn low_level_get_pending(&self, x: u32, y: u32) -> (r: Option<Color>) {
        match self.inner.low_level_get_pending(x, y) {
            Some(color) => {
                proof {
                    self.inner.lemma_valid_in_box(x as int, y as int);
                }
                Some(color)
            },
            None => self.new_buf.get(x, y),
        }
    }

    fn low_level_set_pending(&mut self, x: u32, y: u32, color: Color) -> (r: bool) {
        if self.inner.low_level_set_pending(x, y, color) {
            proof {
                self.inner.lemma_valid_in_box(x as int, y as int);
                assert forall|i: int, j: int| self.curr_buf.in_bounds(i, j) implies bounded(
                    #[trigger] self.curr_buf.at(i, j),
                    COLOR_BOUND as int,
                ) && bounded(self.new_buf.at(i, j), COLOR_BOUND as int) by {
                    assert(old(self).curr_buf.at(i, j) == self.curr_buf.at(i, j));
                }
            }
            true
        } else {
            let r = self.new_buf.set(x, y, color);
            proof {
                assert forall|i: int, j: int| self.curr_buf.in_bounds(i, j) implies bounded(
                    #[trigger] self.curr_buf.at(i, j),
                    COLOR_BOUND as int,
                ) && bounded(self.new_buf.at(i, j), COLOR_BOUND as int) by {
                    assert(old(self).curr_buf.at(i, j) == self.curr_buf.at(i, j));
                    if !(i == x as int && j == y as int) {
                        assert(bounded(old(self).new_buf.at(i, j), COLOR_BOUND as int));
                    }
                }
            }
            r
        }
    }

    fn flush(&mut self) -> (r: Result<(), MidiError>) {
        self.curr_buf = self.new_buf.duplicate();
        let r = self.inner.flush();
        proof {
            assert forall|i: int, j: int| self.curr_buf.in_bounds(i, j) implies bounded(
                #[trigger] self.curr_buf.at(i, j),
                COLOR_BOUND as int,
            ) && bounded(self.new_buf.at(i, j), COLOR_BOUND as int) by {
                let ghost witness = old(self).curr_buf.at(i, j);
                assert(self.curr_buf.at(i, j) == self.new_buf.at(i, j));
                assert(bounded(old(self).new_buf.at(i, j), COLOR_BOUND as int));
            }
        }
        r
    }

    fn take_wire_frames(&mut self) -> (r: Vec<Vec<u8>>) {
        self.inner.take_wire_frames()
    }

    fn lowest_visible_brightness(&self) -> (r: i32) {
        self.inner.lowest_visible_brightness()
    }
}

} // verus!
