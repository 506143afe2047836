//! The per-device contract that turns a low-level device driver into a
//! full canvas, and the generic canvas implementation driven by it.

use vstd::prelude::*;

use crate::canvas::{Canvas, CanvasMessage};
use crate::color::{Color, COLOR_BOUND, COLOR_UNIT};
use crate::errors::MidiError;
use crate::midi_io::{InputDevice, OutputDevice};
use crate::util::Array2d;

verus! {

/// What the generic canvas needs to know about one device: its bounding
/// box, its color depth, which cells exist, how to flush a batch of
/// changes, and how to translate its input messages.
pub trait DeviceSpec: Sized {
    /// The input handler type.
    type Input: InputDevice;

    /// The output handler type.
    type Output: OutputDevice;

    /// The width of the device's bounding box.
    spec fn spec_width() -> u32;

    /// The height of the device's bounding box.
    spec fn spec_height() -> u32;

    /// How many distinct levels the device can show per color channel.
    spec fn spec_color_precision() -> u16;

    /// Whether the device has a button at `(x, y)`.
    spec fn spec_valid(x: int, y: int) -> bool;

    /// The device's shape is sane: the color precision fits a byte, the
    /// grid is small, and valid cells lie inside the bounding box.
    proof fn lemma_shape()
        ensures
            1 <= Self::spec_color_precision() <= 255,
            1 <= Self::spec_width(),
            1 <= Self::spec_height(),
            (Self::spec_width() as int) * (Self::spec_height() as int) <= u32::MAX as int,
            forall|x: int, y: int|
                Self::spec_valid(x, y) ==> 0 <= x < Self::spec_width() as int && 0 <= y
                    < Self::spec_height() as int,
    ;

    fn bounding_box_width() -> (r: u32)
        ensures
            r == Self::spec_width(),
    ;

    fn bounding_box_height() -> (r: u32)
        ensures
            r == Self::spec_height(),
    ;

    fn color_precision() -> (r: u16)
        ensures
            r == Self::spec_color_precision(),
    ;

    /// Whether the point at the given coordinates is in bounds.
    fn is_valid(x: u32, y: u32) -> (r: bool)
        ensures
            r == Self::spec_valid(x as int, y as int),
    ;

    /// The exact wire frames one flush of the given changes queues, as a
    /// function of the pending grid and the change list.
    spec fn flush_frames_spec(
        pending: Array2d<Color>,
        changes: Seq<(u32, u32, (u8, u8, u8))>,
    ) -> Seq<Seq<u8>>;

    /// Flush the given changes to the output. `changes` lists the cells
    /// that differ since the last flush as `(x, y, (r, g, b))` with the
    /// color already quantized to this device's precision; `pending` is
    /// the full pending grid, for devices that prefer to re-stream
    /// everything.
    fn flush(
        output: &mut Self::Output,
        pending: &Array2d<Color>,
        changes: &Vec<(u32, u32, (u8, u8, u8))>,
    ) -> (r: Result<(), MidiError>)
        requires
            pending.wf(),
            pending.spec_width() == Self::spec_width(),
            pending.spec_height() == Self::spec_height(),
            changes@.len() <= (Self::spec_width() as int) * (Self::spec_height() as int),
            forall|i: int, j: int|
                pending.in_bounds(i, j) ==> crate::color::bounded(
                    #[trigger] pending.at(i, j),
                    crate::color::COLOR_BOUND as int,
                ),
            forall|k: int|
                0 <= k < changes@.len() ==> Self::spec_valid(
                    (#[trigger] changes@[k]).0 as int,
                    changes@[k].1 as int,
                ) && changes@[k].2.0 < Self::spec_color_precision() && changes@[k].2.1
                    < Self::spec_color_precision() && changes@[k].2.2
                    < Self::spec_color_precision(),
        ensures
            r is Ok,
            final(output).frames() == old(output).frames() + Self::flush_frames_spec(
                *pending,
                changes@,
            ),
    ;

    /// What each device message means on the canvas: presses and
    /// releases at the button's absolute coordinates, anything else
    /// nothing.
    spec fn convert_message_spec(msg: <Self::Input as InputDevice>::Message) -> Option<
        CanvasMessage,
    >;

    /// Translate a device message into a canvas message, or nothing when
    /// it has no canvas equivalent.
    fn convert_message(msg: <Self::Input as InputDevice>::Message) -> (r: Option<CanvasMessage>)
        ensures
            r == Self::convert_message_spec(msg),
    ;

    /// Device-specific setup when a canvas takes the output over.
    fn setup(output: &mut Self::Output) -> (r: Result<(), MidiError>)
        ensures
            r is Ok,
    ;
}

} // verus!

verus! {

/// The change list one flush hands the device: among the first `n` cells
/// of the row-major scan, the valid ones whose displayed and pending
/// colors quantize differently, each with its quantized pending color.
pub open spec fn device_changes_spec<Spec: DeviceSpec>(
    curr: Array2d<Color>,
    new: Array2d<Color>,
    n: int,
) -> Seq<(u32, u32, (u8, u8, u8))>
    decreases n,
{
    if n <= 0 {
        Seq::empty()
    } else {
        let i = n - 1;
        let w = Spec::spec_width() as int;
        let x = i % w;
        let y = i / w;
        let prev = device_changes_spec::<Spec>(curr, new, i);
        let p = Spec::spec_color_precision() as int;
        if Spec::spec_valid(x, y) && crate::color::quantize_spec(curr.at(x, y), p)
            != crate::color::quantize_spec(new.at(x, y), p) {
            prev.push(
                (
                    x as u32,
                    y as u32,
                    (
                        crate::color::quantize_spec(new.at(x, y), p).0 as u8,
                        crate::color::quantize_spec(new.at(x, y), p).1 as u8,
                        crate::color::quantize_spec(new.at(x, y), p).2 as u8,
                    ),
                ),
            )
        } else {
            prev
        }
    }
}

/// A generic canvas implementation for any device with a [`DeviceSpec`]:
/// it owns the device's output and two state buffers, diffs them on every
/// flush, and hands the device the quantized changes.
#[verifier::reject_recursive_types(Spec)]
pub struct DeviceCanvas<Spec: DeviceSpec> {
    /// The low-level output the canvas drives.
    pub output: Spec::Output,
    curr_state: Array2d<Color>,
    new_state: Array2d<Color>,
}

impl<Spec: DeviceSpec> DeviceCanvas<Spec> {
    /// Take over a device output as a canvas: run the device's setup and
    /// start with both state buffers dark.
    pub fn new(output: Spec::Output) -> (r: Result<DeviceCanvas<Spec>, MidiError>)
        ensures
            r matches Ok(c) ==> c.wf() && (forall|i: int, j: int|
                Spec::spec_valid(i, j) ==> c.displayed(i, j) == (Color {
                    r: 0i32,
                    g: 0i32,
                    b: 0i32,
                }) && c.pending(i, j) == (Color { r: 0i32, g: 0i32, b: 0i32 })),
            r is Ok,
    {
        let mut output = output;
        let setup_result = Spec::setup(&mut output);
        match setup_result {
            Ok(()) => (),
            Err(e) => {
                return Err(e);
            },
        }
        proof {
            Spec::lemma_shape();
        }
        let width = Spec::bounding_box_width();
        let height = Spec::bounding_box_height();
        let curr_state = Array2d::new(width, height, Color::black());
        let new_state = Array2d::new(width, height, Color::black());
        let c = DeviceCanvas { output, curr_state, new_state };
        proof {
            assert forall|i: int, j: int| Spec::spec_valid(i, j) implies c.displayed(i, j)
                == (Color { r: 0i32, g: 0i32, b: 0i32 }) && c.pending(i, j) == (Color {
                r: 0i32,
                g: 0i32,
                b: 0i32,
            }) by {
                Spec::lemma_shape();
            }
        }
        Ok(c)
    }

    /// The full displayed grid, for contracts about flushing.
    pub closed spec fn displayed_grid(&self) -> Array2d<Color> {
        self.curr_state
    }

    /// The full pending grid, for contracts about flushing.
    pub closed spec fn pending_grid(&self) -> Array2d<Color> {
        self.new_state
    }

    /// The grids agree with the per-cell canvas views.
    pub proof fn lemma_grid_views(&self, x: int, y: int)
        requires
            self.wf(),
            Spec::spec_valid(x, y),
        ensures
            self.displayed_grid().at(x, y) == self.displayed(x, y),
            self.pending_grid().at(x, y) == self.pending(x, y),
    {
    }

    /// The valid pads of this canvas, in row-major scan order.
    pub fn iter(&self) -> (r: crate::canvas::CanvasIterator)
        requires
            self.wf(),
        ensures
            r.pads@ == crate::canvas::valid_pads(self),
            r.position == 0,
    {
        crate::canvas::CanvasIterator::new(self)
    }
}

impl<Spec: DeviceSpec> Canvas for DeviceCanvas<Spec> {
    closed spec fn spec_width(&self) -> u32 {
        Spec::spec_width()
    }

    closed spec fn spec_height(&self) -> u32 {
        Spec::spec_height()
    }

    closed spec fn wf(&self) -> bool {
        &&& self.curr_state.wf()
        &&& self.new_state.wf()
        &&& self.curr_state.spec_width() == Spec::spec_width()
        &&& self.curr_state.spec_height() == Spec::spec_height()
        &&& self.new_state.spec_width() == Spec::spec_width()
        &&& self.new_state.spec_height() == Spec::spec_height()
        &&& forall|i: int, j: int|
            self.curr_state.in_bounds(i, j) ==> crate::color::bounded(
                #[trigger] self.curr_state.at(i, j),
                COLOR_BOUND as int,
            ) && crate::color::bounded(self.new_state.at(i, j), COLOR_BOUND as int)
    }

    closed spec fn spec_valid(&self, x: int, y: int) -> bool {
        Spec::spec_valid(x, y)
    }

    closed spec fn displayed(&self, x: int, y: int) -> Color {
        self.curr_state.at(x, y)
    }

    closed spec fn pending(&self, x: int, y: int) -> Color {
        self.new_state.at(x, y)
    }

    closed spec fn spec_lowest_visible_brightness(&self) -> i32 {
        (COLOR_UNIT as int / Spec::spec_color_precision() as int) as i32
    }

    closed spec fn wire_frames(&self) -> Seq<Seq<u8>> {
        self.output.frames()
    }

    proof fn lemma_valid_in_box(&self, x: int, y: int) {
        Spec::lemma_shape();
    }

    proof fn lemma_cell_bounded(&self, x: int, y: int) {
        Spec::lemma_shape();
        let ghost witness = self.curr_state.at(x, y);
    }

    fn bounding_box(&self) -> (r: (u32, u32)) {
        (Spec::bounding_box_width(), Spec::bounding_box_height())
    }

    fn low_level_get(&self, x: u32, y: u32) -> (r: Option<Color>) {
        proof {
            Spec::lemma_shape();
        }
        if Spec::is_valid(x, y) {
            self.curr_state.get(x, y)
        } else {
            None
        }
    }

    fn low_level_get_pending(&self, x: u32, y: u32) -> (r: Option<Color>) {
        proof {
            Spec::lemma_shape();
        }
        if Spec::is_valid(x, y) {
            self.new_state.get(x, y)
        } else {
            None
        }
    }

    fn low_level_set_pending(&mut self, x: u32, y: u32, color: Color) -> (r: bool) {
        proof {
            Spec::lemma_shape();
        }
        if Spec::is_valid(x, y) {
            self.new_state.set(x, y, color);
            proof {
                assert forall|i: int, j: int| self.curr_state.in_bounds(i, j) implies
                    crate::color::bounded(
                    #[trigger] self.curr_state.at(i, j),
                    COLOR_BOUND as int,
                ) && crate::color::bounded(self.new_state.at(i, j), COLOR_BOUND as int) by {
                    assert(old(self).curr_state.at(i, j) == self.curr_state.at(i, j));
                    if !(i == x as int && j == y as int) {
                        assert(crate::color::bounded(
                            old(self).new_state.at(i, j),
                            COLOR_BOUND as int,
                        ));
                    }
                }
            }
            true
        } else {
            false
        }
    }

    fn flush(&mut self) -> (r: Result<(), MidiError>)
        ensures
            ({
                let changes = device_changes_spec::<Spec>(
                    old(self).displayed_grid(),
                    old(self).pending_grid(),
                    (Spec::spec_width() as int) * (Spec::spec_height() as int),
                );
                final(self).wire_frames() == old(self).wire_frames() + (if changes.len()
                    == 0 {
                    Seq::<Seq<u8>>::empty()
                } else {
                    Spec::flush_frames_spec(old(self).pending_grid(), changes)
                })
            }),
    {
        proof {
            Spec::lemma_shape();
        }
        let width = Spec::bounding_box_width();
        let height = Spec::bounding_box_height();
        let precision: u16 = Spec::color_precision();
        let precision8: u8 = precision as u8;
        let ghost w = Spec::spec_width() as int;
        let mut changes: Vec<(u32, u32, (u8, u8, u8))> = Vec::new();
        let ghost mut idx: int = 0;
        let mut y: u32 = 0;
        while y < height
            invariant
                self == old(self),
                self.wf(),
                width == Spec::spec_width(),
                height == Spec::spec_height(),
                w == Spec::spec_width() as int,
                precision8 == Spec::spec_color_precision(),
                1 <= precision8 <= 255,
                0 <= y <= height,
                idx == y as int * w,
                changes@ == device_changes_spec::<Spec>(
                    self.displayed_grid(),
                    self.pending_grid(),
                    idx,
                ),
                changes@.len() <= idx,
                idx <= (Spec::spec_width() as int) * (Spec::spec_height() as int),
                forall|k: int|
                    0 <= k < changes@.len() ==> Spec::spec_valid(
                        (#[trigger] changes@[k]).0 as int,
                        changes@[k].1 as int,
                    ) && changes@[k].2.0 < Spec::spec_color_precision() && changes@[k].2.1
                        < Spec::spec_color_precision() && changes@[k].2.2
                        < Spec::spec_color_precision(),
            decreases height - y,
        {
            let mut x: u32 = 0;
            while x < width
                invariant
                    self == old(self),
                    self.wf(),
                    width == Spec::spec_width(),
                    height == Spec::spec_height(),
                    w == Spec::spec_width() as int,
                    precision8 == Spec::spec_color_precision(),
                    1 <= precision8 <= 255,
                    0 <= x <= width,
                    0 <= y < height,
                    idx == y as int * w + x as int,
                    changes@ == device_changes_spec::<Spec>(
                        self.displayed_grid(),
                        self.pending_grid(),
                        idx,
                    ),
                    changes@.len() <= idx,
                    forall|k: int|
                        0 <= k < changes@.len() ==> Spec::spec_valid(
                            (#[trigger] changes@[k]).0 as int,
                            changes@[k].1 as int,
                        ) && changes@[k].2.0 < Spec::spec_color_precision() && changes@[k].2.1
                            < Spec::spec_color_precision() && changes@[k].2.2
                            < Spec::spec_color_precision(),
                decreases width - x,
            {
                proof {
                    crate::canvas::lemma_scan_index(x as int, y as int, w);
                    Spec::lemma_shape();
                }
                if Spec::is_valid(x, y) {
                    let old_color = match self.curr_state.get(x, y) {
                        Some(c) => c,
                        None => Color::black(),  // unreachable: the cell is in bounds
                    };
                    let new_color = match self.new_state.get(x, y) {
                        Some(c) => c,
                        None => Color::black(),  // unreachable: the cell is in bounds
                    };
                    let old_q = old_color.quantize(precision8);
                    let new_q = new_color.quantize(precision8);
                    if old_q.0 != new_q.0 || old_q.1 != new_q.1 || new_q.2 != old_q.2 {
                        changes.push((x, y, new_q));
                    }
                }
                proof {
                    assert(changes@ =~= device_changes_spec::<Spec>(
                        self.displayed_grid(),
                        self.pending_grid(),
                        idx + 1,
                    ));
                    idx = idx + 1;
                }
                x = x + 1;
            }
            proof {
                assert(y as int * w + w == (y as int + 1) * w) by (nonlinear_arith);
                vstd::arithmetic::mul::lemma_mul_inequality(
                    y as int + 1,
                    Spec::spec_height() as int,
                    w,
                );
                vstd::arithmetic::mul::lemma_mul_is_commutative(
                    Spec::spec_height() as int,
                    w,
                );
            }
            y = y + 1;
        }
        proof {
            vstd::arithmetic::mul::lemma_mul_is_commutative(Spec::spec_height() as int, w);
            assert(idx == (Spec::spec_width() as int) * (Spec::spec_height() as int));
        }
        if changes.len() > 0 {
            proof {
                assert forall|i: int, j: int| self.new_state.in_bounds(i, j) implies
                    crate::color::bounded(
                    #[trigger] self.new_state.at(i, j),
                    COLOR_BOUND as int,
                ) by {
                    assert(self.curr_state.in_bounds(i, j));
                    let ghost witness = self.curr_state.at(i, j);
                }
            }
            let flush_result = Spec::flush(&mut self.output, &self.new_state, &changes);
            match flush_result {
                Ok(()) => (),
                Err(e) => {
                    return Err(e);
                },
            }
        }
        self.curr_state = self.new_state.duplicate();
        proof {
            assert forall|i: int, j: int| self.curr_state.in_bounds(i, j) implies
                crate::color::bounded(
                #[trigger] self.curr_state.at(i, j),
                COLOR_BOUND as int,
            ) && crate::color::bounded(self.new_state.at(i, j), COLOR_BOUND as int) by {
                let ghost witness = old(self).curr_state.at(i, j);
                assert(self.curr_state.at(i, j) == self.new_state.at(i, j));
                assert(crate::color::bounded(old(self).new_state.at(i, j), COLOR_BOUND as int));
            }
        }
        Ok(())
    }

    fn take_wire_frames(&mut self) -> (r: Vec<Vec<u8>>) {
        let r = self.output.take_frames();
        proof {
            assert(self.curr_state == old(self).curr_state);
            assert(self.new_state == old(self).new_state);
            assert forall|i: int, j: int| self.curr_state.in_bounds(i, j) implies
                crate::color::bounded(
                #[trigger] self.curr_state.at(i, j),
                COLOR_BOUND as int,
            ) && crate::color::bounded(self.new_state.at(i, j), COLOR_BOUND as int) by {
                assert(self.curr_state.at(i, j) == old(self).curr_state.at(i, j));
                assert(self.new_state.at(i, j) == old(self).new_state.at(i, j));
                let ghost witness = old(self).curr_state.at(i, j);
            }
        }
        r
    }

    fn lowest_visible_brightness(&self) -> (r: i32) {
        proof {
            Spec::lemma_shape();
        }
        let precision: u16 = Spec::color_precision();
        let r: i32 = COLOR_UNIT / (precision as i32);
        proof {
            vstd::arithmetic::div_mod::lemma_div_is_ordered(
                0,
                COLOR_UNIT as int,
                precision as int,
            );
            vstd::arithmetic::div_mod::lemma_div_nonincreasing(
                COLOR_UNIT as int,
                precision as int,
            );
        }
        r
    }
}

} // verus!
