//! The canvas composition layer: several independently addressed canvases
//! tiled into one, with per-device placement, rotation, and brightness
//! normalization.

use vstd::prelude::*;

use std::collections::HashMap;

use crate::canvas::{Canvas, CanvasMessage};
use crate::color::{bounded, Color, COLOR_BOUND, COLOR_UNIT};
use crate::errors::MidiError;

verus! {

broadcast use vstd::std_specs::hash::group_hash_axioms;

/// How a placed device is turned relative to the layout.
#[derive(Debug, Eq, PartialEq, Hash, Copy, Clone, Structural)]
pub enum Rotation {
    /// Not rotated.
    Upright,
    /// Turned a quarter to the left.
    Left,
    /// Turned a quarter to the right.
    Right,
    /// Turned upside down.
    UpsideDown,
}

/// The rotation that undoes a rotation.
pub open spec fn inverse_spec(r: Rotation) -> Rotation {
    match r {
        Rotation::Upright => Rotation::Upright,
        Rotation::UpsideDown => Rotation::UpsideDown,
        Rotation::Left => Rotation::Right,
        Rotation::Right => Rotation::Left,
    }
}

/// Where a rotation sends a local coordinate.
pub open spec fn translate_spec(r: Rotation, x: int, y: int) -> (int, int) {
    match r {
        Rotation::Upright => (x, y),
        Rotation::UpsideDown => (-x, -y),
        Rotation::Left => (-y, x),
        Rotation::Right => (y, -x),
    }
}

impl Rotation {
    /// The rotation that undoes this one.
    pub fn inverse(self) -> (r: Rotation)
        ensures
            r == inverse_spec(self),
    {
        match self {
            Rotation::Upright => Rotation::Upright,
            Rotation::UpsideDown => Rotation::UpsideDown,
            Rotation::Left => Rotation::Right,
            Rotation::Right => Rotation::Left,
        }
    }

    /// Map a local coordinate into this rotation's orientation.
    pub fn translate(self, x: i32, y: i32) -> (r: (i32, i32))
        requires
            i32::MIN < x,
            i32::MIN < y,
        ensures
            (r.0 as int, r.1 as int) == translate_spec(self, x as int, y as int),
    {
        match self {
            Rotation::Upright => (x, y),
            Rotation::UpsideDown => (-x, -y),
            Rotation::Left => (-y, x),
            Rotation::Right => (y, -x),
        }
    }
}

/// Translating a coordinate through a rotation and back through its
/// inverse returns the original coordinate, for every rotation.
pub proof fn lemma_rotation_roundtrip(r: Rotation, x: int, y: int)
    ensures
        ({
            let (gx, gy) = translate_spec(r, x, y);
            translate_spec(inverse_spec(r), gx, gy) == (x, y)
        }),
{
}

/// One component of the brightness rescaling: a linear map that keeps one
/// whole unit fixed while stretching the space below it from the source
/// brightness floor onto the target brightness floor.
pub open spec fn transform_component_spec(c: int, source: int, target: int) -> int {
    (c - COLOR_UNIT as int) * (COLOR_UNIT as int - target) / (COLOR_UNIT as int - source)
        + COLOR_UNIT as int
}

/// Rescale a color from one brightness floor to another. Full brightness
/// is a fixed point of the transform; a component whose rescaled value
/// would leave the library's working color bound is capped there.
pub fn transform_color(color: Color, source: i32, target: i32) -> (c: Color)
    requires
        bounded(color, COLOR_BOUND as int),
        0 <= source < COLOR_UNIT,
        0 <= target <= COLOR_UNIT,
    ensures
        c.r == capped_transform_spec(color.r as int, source as int, target as int),
        c.g == capped_transform_spec(color.g as int, source as int, target as int),
        c.b == capped_transform_spec(color.b as int, source as int, target as int),
        bounded(c, COLOR_BOUND as int),
{
    Color {
        r: transform_component(color.r, source, target),
        g: transform_component(color.g, source, target),
        b: transform_component(color.b, source, target),
    }
}

/// The brightness transform with its result capped at the working color
/// bound. A value that stays within the bound is transformed exactly.
pub open spec fn capped_transform_spec(c: int, source: int, target: int) -> int {
    let t = transform_component_spec(c, source, target);
    if t < -(COLOR_BOUND as int) {
        -(COLOR_BOUND as int)
    } else if t > COLOR_BOUND as int {
        COLOR_BOUND as int
    } else {
        t
    }
}

fn transform_component(c: i32, source: i32, target: i32) -> (k: i32)
    requires
        -(COLOR_BOUND as int) <= c <= COLOR_BOUND,
        0 <= source < COLOR_UNIT,
        0 <= target <= COLOR_UNIT,
    ensures
        k == capped_transform_spec(c as int, source as int, target as int),
        -(COLOR_BOUND as int) <= k <= COLOR_BOUND as int,
{
    proof {
        let cc = c as int - COLOR_UNIT as int;
        let tt = COLOR_UNIT as int - target as int;
        assert(-(COLOR_BOUND as int) * 2 * (COLOR_UNIT as int) <= cc * tt <= (COLOR_BOUND as int)
            * 2 * (COLOR_UNIT as int)) by (nonlinear_arith)
            requires
                -(COLOR_BOUND as int) - (COLOR_UNIT as int) <= cc <= COLOR_BOUND as int + (
                COLOR_UNIT as int) && 0 <= tt <= COLOR_UNIT as int && COLOR_UNIT as int
                    <= COLOR_BOUND as int,
        ;
    }
    let num: i64 = ((c as i64) - (COLOR_UNIT as i64)) * ((COLOR_UNIT as i64) - (target as i64));
    let den: i64 = (COLOR_UNIT as i64) - (source as i64);
    let q: i64 = Color::div_floor(num, den);
    proof {
        lemma_div_magnitude(num as int, den as int);
    }
    let k64: i64 = q + (COLOR_UNIT as i64);
    clamp_to_bound(k64)
}

/// Cap a value at the working color bound; the layout stores only bounded
/// colors in the sub-canvases.
fn clamp_to_bound(v: i64) -> (k: i32)
    ensures
        -(COLOR_BOUND as int) <= v <= COLOR_BOUND ==> k == v,
        k == if v < -(COLOR_BOUND as i64) {
            -COLOR_BOUND as int
        } else if v > COLOR_BOUND as i64 {
            COLOR_BOUND as int
        } else {
            v as int
        },
{
    if v < -(COLOR_BOUND as i64) {
        -COLOR_BOUND
    } else if v > COLOR_BOUND as i64 {
        COLOR_BOUND
    } else {
        v as i32
    }
}

/// The magnitude of a quotient stays within the magnitude of the
/// dividend, for positive divisors.
proof fn lemma_div_magnitude(n: int, d: int)
    requires
        d >= 1,
    ensures
        n >= 0 ==> 0 <= n / d <= n,
        n < 0 ==> n <= n / d <= 0,
{
    if n >= 0 {
        vstd::arithmetic::div_mod::lemma_div_is_ordered(0, n, d);
        vstd::arithmetic::div_mod::lemma_div_nonincreasing(n, d);
        vstd::arithmetic::div_mod::lemma_div_of0(d);
    } else {
        vstd::arithmetic::div_mod::lemma_div_is_ordered(n, 0, d);
        vstd::arithmetic::div_mod::lemma_div_of0(d);
        assert(n * d <= n) by (nonlinear_arith)
            requires
                n < 0 && d >= 1,
        ;
        vstd::arithmetic::div_mod::lemma_div_is_ordered(n * d, n, d);
        vstd::arithmetic::div_mod::lemma_div_multiples_vanish(n, d);
        assert(n * d == d * n) by (nonlinear_arith);
    }
}

/// Full brightness is a fixed point of the brightness transform: a white
/// component stays exactly white under every threshold pair.
pub proof fn lemma_transform_white_fixed(source: int, target: int)
    requires
        0 <= source < COLOR_UNIT as int,
        0 <= target <= COLOR_UNIT as int,
    ensures
        transform_component_spec(COLOR_UNIT as int, source, target) == COLOR_UNIT as int,
        capped_transform_spec(COLOR_UNIT as int, source, target) == COLOR_UNIT as int,
{
    let tt = COLOR_UNIT as int - target;
    let ss = COLOR_UNIT as int - source;
    assert(0 * tt == 0) by (nonlinear_arith);
    vstd::arithmetic::div_mod::lemma_div_of0(ss);
}

/// A whole color put through the capped brightness transform.
pub open spec fn transformed_color_spec(c: Color, source: int, target: int) -> Color {
    Color {
        r: capped_transform_spec(c.r as int, source, target) as i32,
        g: capped_transform_spec(c.g as int, source, target) as i32,
        b: capped_transform_spec(c.b as int, source, target) as i32,
    }
}

/// The local, rotation-compensated coordinate of a global cell under a
/// device's placement.
pub open spec fn local_coord_spec(
    gx: int,
    gy: int,
    rotation: Rotation,
    x_offset: int,
    y_offset: int,
) -> (int, int) {
    translate_spec(inverse_spec(rotation), gx - x_offset, gy - y_offset)
}

/// One placed device: its canvas, its rotation, and its placement offset.
struct LayoutDevice<C: Canvas> {
    canvas: C,
    rotation: Rotation,
    x: u32,
    y: u32,
    /// The device's brightness floor, read once at placement and kept in
    /// `0..COLOR_UNIT`.
    brightness: i32,
}

/// The bookkeeping of one occupied global coordinate.
struct Pixel {
    device_index: usize,
    color_new: Color,
    color_old: Color,
}

/// The error an ill-placed device raises when it is added.
#[derive(Debug, Eq, PartialEq, Clone, Copy, Structural)]
pub enum LayoutError {
    /// Two placed devices would own the same global coordinate.
    Overlap { x: u32, y: u32 },
    /// A device cell would land outside the unsigned global coordinate
    /// space.
    OutOfRange,
}

/// The packed map key of a global coordinate.
pub open spec fn coord_key(x: int, y: int) -> u64 {
    (x * 0x1_0000_0000 + y) as u64
}

/// Whether every valid cell of a canvas lands on a representable global
/// coordinate, with room for the one-cell margin the bounding box needs.
pub open spec fn placement_in_range<C: Canvas>(
    c: &C,
    rotation: Rotation,
    x_offset: int,
    y_offset: int,
) -> bool {
    forall|i: int, j: int|
        c.spec_valid(i, j) ==> ((#[trigger] global_coord_spec(
            i,
            j,
            rotation,
            x_offset,
            y_offset,
        )) matches Some(g) && g.0 < u32::MAX && g.1 < u32::MAX)
}

/// Where a pad lands globally, for placements that are in range.
pub open spec fn global_of(p: crate::pad::Pad, rotation: Rotation, x_offset: int, y_offset: int) -> (
    u32,
    u32,
) {
    match global_coord_spec(p.x as int, p.y as int, rotation, x_offset, y_offset) {
        Some(g) => g,
        None => (0u32, 0u32),
    }
}

/// The layout width needed to cover the first `t` placed pads, starting
/// from the layout's present width.
pub open spec fn grown_width_spec(
    pads: Seq<crate::pad::Pad>,
    rotation: Rotation,
    x_offset: int,
    y_offset: int,
    base: int,
    t: int,
) -> int
    decreases t,
{
    if t <= 0 {
        base
    } else {
        let prev = grown_width_spec(pads, rotation, x_offset, y_offset, base, t - 1);
        match global_coord_spec(
            pads[t - 1].x as int,
            pads[t - 1].y as int,
            rotation,
            x_offset,
            y_offset,
        ) {
            Some(g) => if g.0 + 1 > prev {
                g.0 + 1
            } else {
                prev
            },
            None => prev,
        }
    }
}

/// The layout height needed to cover the first `t` placed pads.
pub open spec fn grown_height_spec(
    pads: Seq<crate::pad::Pad>,
    rotation: Rotation,
    x_offset: int,
    y_offset: int,
    base: int,
    t: int,
) -> int
    decreases t,
{
    if t <= 0 {
        base
    } else {
        let prev = grown_height_spec(pads, rotation, x_offset, y_offset, base, t - 1);
        match global_coord_spec(
            pads[t - 1].x as int,
            pads[t - 1].y as int,
            rotation,
            x_offset,
            y_offset,
        ) {
            Some(g) => if g.1 + 1 > prev {
                g.1 + 1
            } else {
                prev
            },
            None => prev,
        }
    }
}

/// Distinct local cells land on distinct global coordinates: the
/// placement map is injective.
proof fn lemma_global_injective(
    rotation: Rotation,
    x_offset: int,
    y_offset: int,
    x1: int,
    y1: int,
    x2: int,
    y2: int,
)
    requires
        !(x1 == x2 && y1 == y2),
        global_coord_spec(x1, y1, rotation, x_offset, y_offset) is Some,
        global_coord_spec(x2, y2, rotation, x_offset, y_offset) is Some,
    ensures
        global_coord_spec(x1, y1, rotation, x_offset, y_offset) != global_coord_spec(
            x2,
            y2,
            rotation,
            x_offset,
            y_offset,
        ),
{
    lemma_rotation_roundtrip(rotation, x1, y1);
    lemma_rotation_roundtrip(rotation, x2, y2);
}

/// Translating a coordinate back through a rotation's inverse and then
/// forward again returns the original coordinate.
proof fn lemma_rotation_forward_roundtrip(r: Rotation, x: int, y: int)
    ensures
        ({
            let (lx, ly) = translate_spec(inverse_spec(r), x, y);
            translate_spec(r, lx, ly) == (x, y)
        }),
{
}

/// Distinct global cells land on distinct local coordinates of their
/// device: the flush writes each local cell at most once.
proof fn lemma_local_injective(
    rotation: Rotation,
    x_offset: int,
    y_offset: int,
    g1x: int,
    g1y: int,
    g2x: int,
    g2y: int,
)
    requires
        !(g1x == g2x && g1y == g2y),
    ensures
        local_coord_spec(g1x, g1y, rotation, x_offset, y_offset) != local_coord_spec(
            g2x,
            g2y,
            rotation,
            x_offset,
            y_offset,
        ),
{
    lemma_rotation_forward_roundtrip(rotation, g1x - x_offset, g1y - y_offset);
    lemma_rotation_forward_roundtrip(rotation, g2x - x_offset, g2y - y_offset);
}

/// Several canvases lined up on a table and used as one: each device is
/// placed at an offset with a rotation, input coordinates are translated
/// into the shared space, and colors are rescaled per device so mixed
/// hardware looks uniform.
pub struct CanvasLayout<C: Canvas> {
    devices: Vec<LayoutDevice<C>>,
    coordinate_map: HashMap<u64, Pixel>,
    width: u32,
    height: u32,
    light_threshold: i32,
}

impl<C: Canvas> CanvasLayout<C> {
    /// An empty layout with the default brightness floor of a quarter
    /// unit.
    pub fn new() -> (r: CanvasLayout<C>)
        ensures
            r.wf(),
            r.spec_width() == 0,
            r.spec_height() == 0,
            forall|i: int, j: int| !r.spec_valid(i, j),
            r.spec_lowest_visible_brightness() == COLOR_UNIT / 4,
    {
        CanvasLayout {
            devices: Vec::new(),
            coordinate_map: HashMap::new(),
            width: 0,
            height: 0,
            light_threshold: COLOR_UNIT / 4,
        }
    }

    /// The layout's own brightness floor, advertised to anything that
    /// composes this layout further.
    pub fn light_threshold(&self) -> (r: i32)
        ensures
            r == self.spec_lowest_visible_brightness(),
    {
        self.light_threshold
    }

    /// Change the layout's brightness floor.
    pub fn set_light_threshold(&mut self, value: i32)
        requires
            old(self).wf(),
            0 <= value < COLOR_UNIT,
        ensures
            final(self).wf(),
            final(self).spec_lowest_visible_brightness() == value,
            final(self).spec_width() == old(self).spec_width(),
            final(self).spec_height() == old(self).spec_height(),
            forall|i: int, j: int|
                final(self).spec_valid(i, j) == old(self).spec_valid(i, j),
            forall|i: int, j: int|
                old(self).spec_valid(i, j) ==> final(self).pending(i, j) == old(self).pending(
                    i,
                    j,
                ) && final(self).displayed(i, j) == old(self).displayed(i, j),
    {
        self.light_threshold = value;
    }

    /// The number of placed devices.
    pub closed spec fn spec_device_count(&self) -> int {
        self.devices@.len() as int
    }

    /// Which placed device (by placement order) owns a global cell.
    pub closed spec fn spec_owner(&self, x: int, y: int) -> int {
        self.coordinate_map@[coord_key(x, y)].device_index as int
    }

    /// A placed device's canvas.
    pub closed spec fn spec_device_canvas(&self, d: int) -> C {
        self.devices@[d].canvas
    }

    /// A placed device's rotation.
    pub closed spec fn spec_device_rotation(&self, d: int) -> Rotation {
        self.devices@[d].rotation
    }

    /// A placed device's placement offset.
    pub closed spec fn spec_device_offset(&self, d: int) -> (u32, u32) {
        (self.devices@[d].x, self.devices@[d].y)
    }

    /// A placed device's brightness floor, as stored at placement.
    pub closed spec fn spec_device_brightness(&self, d: int) -> i32 {
        self.devices@[d].brightness
    }

    /// What the flush writes into the owning device for one global cell:
    /// its pending color, rescaled from the layout's floor to the
    /// device's.
    pub open spec fn distributed_color(&self, i: int, j: int) -> Color {
        transformed_color_spec(
            self.pending(i, j),
            self.spec_lowest_visible_brightness() as int,
            self.spec_device_brightness(self.spec_owner(i, j)) as int,
        )
    }

    /// Where the flush writes one global cell: the owner's local,
    /// rotation-compensated coordinate.
    pub open spec fn distributed_local(&self, i: int, j: int) -> (int, int) {
        local_coord_spec(
            i,
            j,
            self.spec_device_rotation(self.spec_owner(i, j)),
            self.spec_device_offset(self.spec_owner(i, j)).0 as int,
            self.spec_device_offset(self.spec_owner(i, j)).1 as int,
        )
    }

    /// Whether the flush's write for a global cell actually lands on the
    /// owning device: the local coordinate is representable, non-negative
    /// and a real cell of that device.
    pub open spec fn distribution_lands(&self, i: int, j: int) -> bool {
        let d = self.spec_owner(i, j);
        let l = self.distributed_local(i, j);
        &&& -(i32::MAX as int) <= i - self.spec_device_offset(d).0 <= i32::MAX as int
        &&& -(i32::MAX as int) <= j - self.spec_device_offset(d).1 <= i32::MAX as int
        &&& 0 <= l.0
        &&& 0 <= l.1
        &&& self.spec_device_canvas(d).spec_valid(l.0, l.1)
    }

    /// The number of placed devices.
    pub fn device_count(&self) -> (r: usize)
        ensures
            r == self.spec_device_count(),
    {
        self.devices.len()
    }

    /// Add a device to the layout at an offset, with a rotation. Every
    /// cell the device reports as valid claims its global coordinate;
    /// claiming a coordinate that is already owned is a configuration
    /// error and is rejected, before anything changes. A placement whose
    /// cells would leave the unsigned coordinate space, or grow the
    /// bounding box past it, is likewise rejected.
    pub fn add(&mut self, x_offset: u32, y_offset: u32, rotation: Rotation, canvas: C) -> (r:
        Result<(), LayoutError>)
        requires
            old(self).wf(),
            canvas.wf(),
            canvas.spec_width() <= i32::MAX,
            canvas.spec_height() <= i32::MAX,
            (canvas.spec_width() as int) * (canvas.spec_height() as int) <= u32::MAX as int,
        ensures
            final(self).wf(),
            // a rejection changes nothing
            r is Err ==> *final(self) == *old(self),
            r matches Err(LayoutError::Overlap { x, y }) ==> old(self).spec_valid(
                x as int,
                y as int,
            ),
            r matches Err(LayoutError::OutOfRange) ==> !placement_in_range(
                &canvas,
                rotation,
                x_offset as int,
                y_offset as int,
            ) || grown_width_spec(
                crate::canvas::valid_pads(&canvas),
                rotation,
                x_offset as int,
                y_offset as int,
                old(self).spec_width() as int,
                crate::canvas::valid_pads(&canvas).len() as int,
            ) * grown_height_spec(
                crate::canvas::valid_pads(&canvas),
                rotation,
                x_offset as int,
                y_offset as int,
                old(self).spec_height() as int,
                crate::canvas::valid_pads(&canvas).len() as int,
            ) > u32::MAX as int,
            // a well-placed device is always accepted
            (placement_in_range(&canvas, rotation, x_offset as int, y_offset as int)
                && grown_width_spec(
                crate::canvas::valid_pads(&canvas),
                rotation,
                x_offset as int,
                y_offset as int,
                old(self).spec_width() as int,
                crate::canvas::valid_pads(&canvas).len() as int,
            ) * grown_height_spec(
                crate::canvas::valid_pads(&canvas),
                rotation,
                x_offset as int,
                y_offset as int,
                old(self).spec_height() as int,
                crate::canvas::valid_pads(&canvas).len() as int,
            ) <= u32::MAX as int && (forall|i: int, j: int|
                canvas.spec_valid(i, j) ==> !old(self).spec_valid(
                    global_of(
                        crate::pad::Pad { x: i as i32, y: j as i32 },
                        rotation,
                        x_offset as int,
                        y_offset as int,
                    ).0 as int,
                    global_of(
                        crate::pad::Pad { x: i as i32, y: j as i32 },
                        rotation,
                        x_offset as int,
                        y_offset as int,
                    ).1 as int,
                ))) ==> r is Ok,
            // acceptance means no claimed cell was already owned
            r is Ok ==> forall|i: int, j: int|
                canvas.spec_valid(i, j) ==> ((#[trigger] global_coord_spec(
                    i,
                    j,
                    rotation,
                    x_offset as int,
                    y_offset as int,
                )) matches Some(g) && !old(self).spec_valid(g.0 as int, g.1 as int)),
            // every prior cell keeps its colors and its owner
            r is Ok ==> forall|i: int, j: int|
                old(self).spec_valid(i, j) ==> final(self).spec_valid(i, j)
                    && final(self).displayed(i, j) == old(self).displayed(i, j)
                    && final(self).pending(i, j) == old(self).pending(i, j)
                    && final(self).spec_owner(i, j) == old(self).spec_owner(i, j),
            // every valid cell of the new canvas claims its global
            // coordinate, carrying the canvas's colors and owned by the
            // new device's index
            r is Ok ==> forall|i: int, j: int|
                #[trigger] canvas.spec_valid(i, j) ==> ({
                    let g = global_of(
                        crate::pad::Pad { x: i as i32, y: j as i32 },
                        rotation,
                        x_offset as int,
                        y_offset as int,
                    );
                    &&& final(self).spec_valid(g.0 as int, g.1 as int)
                    &&& final(self).displayed(g.0 as int, g.1 as int) == canvas.displayed(i, j)
                    &&& final(self).pending(g.0 as int, g.1 as int) == canvas.pending(i, j)
                    &&& final(self).spec_owner(g.0 as int, g.1 as int) == old(
                        self,
                    ).spec_device_count()
                    &&& g.0 < final(self).spec_width()
                    &&& g.1 < final(self).spec_height()
                }),
            r is Ok ==> final(self).spec_device_count() == old(self).spec_device_count() + 1
                && final(self).spec_width() >= old(self).spec_width()
                && final(self).spec_height() >= old(self).spec_height()
                && final(self).spec_lowest_visible_brightness() == old(self).spec_lowest_visible_brightness(),
    {
        let ghost xo = x_offset as int;
        let ghost yo = y_offset as int;
        // first pass: every valid cell of the new canvas must land on a
        // free, representable global coordinate, and the grown bounding
        // box must stay within the coordinate space
        let mut iter = crate::canvas::CanvasIterator::new(&canvas);
        let ghost pads = iter.pads@;
        let total = iter.len();
        let mut cand_w: u32 = self.width;
        let mut cand_h: u32 = self.height;
        let mut seen: usize = 0;
        while seen < total
            invariant
                0 <= seen <= total,
                total == iter.pads@.len(),
                iter.position == seen,
                iter.pads@ == pads,
                pads == crate::canvas::valid_pads(&canvas),
                canvas.wf(),
                canvas.spec_width() <= i32::MAX,
                canvas.spec_height() <= i32::MAX,
                self == old(self),
                self.wf(),
                xo == x_offset as int,
                yo == y_offset as int,
                cand_w as int == grown_width_spec(
                    pads,
                    rotation,
                    xo,
                    yo,
                    old(self).spec_width() as int,
                    seen as int,
                ),
                cand_h as int == grown_height_spec(
                    pads,
                    rotation,
                    xo,
                    yo,
                    old(self).spec_height() as int,
                    seen as int,
                ),
                cand_w >= self.width,
                cand_h >= self.height,
                forall|t: int|
                    0 <= t < seen ==> ((#[trigger] global_coord_spec(
                        pads[t].x as int,
                        pads[t].y as int,
                        rotation,
                        xo,
                        yo,
                    )) matches Some(g) && !self.coordinate_map@.contains_key(
                        coord_key(g.0 as int, g.1 as int),
                    ) && g.0 < u32::MAX && g.1 < u32::MAX && g.0 < cand_w && g.1 < cand_h),
            decreases total - seen,
        {
            let pad = match iter.next() {
                Some(p) => p,
                None => {
                    return Err(LayoutError::OutOfRange);  // unreachable: the position is in range
                },
            };
            proof {
                lemma_valid_pad_coords(&canvas, pads, seen as int);
            }
            match to_global(pad.x as u32, pad.y as u32, rotation, x_offset, y_offset) {
                Some((gx, gy)) => {
                    if gx == u32::MAX || gy == u32::MAX {
                        proof {
                            assert(!placement_in_range(&canvas, rotation, xo, yo));
                        }
                        return Err(LayoutError::OutOfRange);
                    }
                    if self.coordinate_map.contains_key(&coord_key_exec(gx, gy)) {
                        proof {
                            lemma_coord_key_split(gx as int, gy as int);
                        }
                        return Err(LayoutError::Overlap { x: gx, y: gy });
                    }
                    if gx + 1 > cand_w {
                        cand_w = gx + 1;
                    }
                    if gy + 1 > cand_h {
                        cand_h = gy + 1;
                    }
                },
                None => {
                    proof {
                        assert(!placement_in_range(&canvas, rotation, xo, yo));
                    }
                    return Err(LayoutError::OutOfRange);
                },
            }
            seen = seen + 1;
        }
        proof {
            assert((cand_w as int) * (cand_h as int) <= (u32::MAX as int) * (u32::MAX as int))
                by (nonlinear_arith)
                requires
                    0 <= cand_w as int <= u32::MAX as int && 0 <= cand_h as int
                        <= u32::MAX as int,
            ;
        }
        if (cand_w as u64) * (cand_h as u64) > u32::MAX as u64 {
            return Err(LayoutError::OutOfRange);
        }
        // second pass: claim every coordinate, remembering the canvas's
        // own colors, under the new device's index
        let brightness_raw = canvas.lowest_visible_brightness();
        let brightness: i32 = if brightness_raw < 0 {
            0
        } else if brightness_raw > COLOR_UNIT {
            COLOR_UNIT
        } else {
            brightness_raw
        };
        let index = self.devices.len();
        self.width = cand_w;
        self.height = cand_h;
        proof {
            assert forall|k: u64| #[trigger]
                self.coordinate_map@.contains_key(k) implies pixel_wf(
                self.coordinate_map@[k],
                self.devices@.len() as int,
                self.width as int,
                self.height as int,
                k,
            ) by {
                assert(pixel_wf(
                    old(self).coordinate_map@[k],
                    old(self).devices@.len() as int,
                    old(self).width as int,
                    old(self).height as int,
                    k,
                ));
            }
        }
        let mut iter2 = crate::canvas::CanvasIterator::new(&canvas);
        let total2 = iter2.len();
        let mut placed: usize = 0;
        let ghost prev_map = self.coordinate_map@;
        while placed < total2
            invariant
                0 <= placed <= total2,
                total2 == iter2.pads@.len(),
                iter2.position == placed,
                iter2.pads@ == pads,
                pads == crate::canvas::valid_pads(&canvas),
                canvas.wf(),
                canvas.spec_width() <= i32::MAX,
                canvas.spec_height() <= i32::MAX,
                0 <= brightness <= COLOR_UNIT,
                xo == x_offset as int,
                yo == y_offset as int,
                self.devices == old(self).devices,
                self.width == cand_w,
                self.height == cand_h,
                self.light_threshold == old(self).light_threshold,
                old(self).wf(),
                prev_map == old(self).coordinate_map@,
                index == self.devices@.len(),
                (self.width as int) * (self.height as int) <= u32::MAX as int,
                0 <= self.light_threshold < COLOR_UNIT,
                forall|i: int|
                    0 <= i < self.devices@.len() ==> (#[trigger] self.devices@[i]).canvas.wf()
                        && 0 <= self.devices@[i].brightness <= COLOR_UNIT,
                forall|k: u64| #[trigger]
                    self.coordinate_map@.contains_key(k) ==> pixel_wf(
                        self.coordinate_map@[k],
                        index as int + 1,
                        self.width as int,
                        self.height as int,
                        k,
                    ),
                forall|t: int|
                    0 <= t < pads.len() ==> ((#[trigger] global_coord_spec(
                        pads[t].x as int,
                        pads[t].y as int,
                        rotation,
                        xo,
                        yo,
                    )) matches Some(g) && !prev_map.contains_key(
                        coord_key(g.0 as int, g.1 as int),
                    ) && g.0 < u32::MAX && g.1 < u32::MAX && g.0 < cand_w && g.1 < cand_h),
                forall|k: u64| #[trigger]
                    prev_map.contains_key(k) ==> self.coordinate_map@.contains_key(k)
                        && self.coordinate_map@[k] == prev_map[k],
                forall|t: int| #![trigger pads[t]]
                    0 <= t < placed ==> ({
                        let g = global_of(pads[t], rotation, xo, yo);
                        &&& self.coordinate_map@.contains_key(coord_key(g.0 as int, g.1 as int))
                        &&& self.coordinate_map@[coord_key(g.0 as int, g.1 as int)]
                            == (Pixel {
                            device_index: index,
                            color_new: canvas.pending(pads[t].x as int, pads[t].y as int),
                            color_old: canvas.displayed(pads[t].x as int, pads[t].y as int),
                        })
                    }),
            decreases total2 - placed,
        {
            let pad = match iter2.next() {
                Some(p) => p,
                None => {
                    proof {
                        // unreachable: the position is below the length
                        assert(false);
                    }
                    return Err(LayoutError::OutOfRange);
                },
            };
            proof {
                lemma_valid_pad_coords(&canvas, pads, placed as int);
                canvas.lemma_cell_bounded(pad.x as int, pad.y as int);
            }
            let x = pad.x as u32;
            let y = pad.y as u32;
            if let Some((gx, gy)) = to_global(x, y, rotation, x_offset, y_offset) {
                let color_new = match canvas.low_level_get_pending(x, y) {
                    Some(c) => c,
                    None => Color::black(),  // unreachable: the pad is valid
                };
                let color_old = match canvas.low_level_get(x, y) {
                    Some(c) => c,
                    None => Color::black(),  // unreachable: the pad is valid
                };
                let ghost pre_map2 = self.coordinate_map@;
                proof {
                    assert forall|k: u64| #[trigger] pre_map2.contains_key(k) implies pixel_wf(
                        pre_map2[k],
                        index as int + 1,
                        self.width as int,
                        self.height as int,
                        k,
                    ) by {
                        assert(self.coordinate_map@.contains_key(k));
                        assert(self.coordinate_map@[k] == pre_map2[k]);
                    }
                    lemma_coord_key_split(gx as int, gy as int);
                    assert((global_coord_spec(
                        pads[placed as int].x as int,
                        pads[placed as int].y as int,
                        rotation,
                        xo,
                        yo,
                    )) matches Some(g) && !prev_map.contains_key(
                        coord_key(g.0 as int, g.1 as int),
                    ));
                    assert(!prev_map.contains_key(coord_key(gx as int, gy as int)));
                }
                self.coordinate_map.insert(
                    coord_key_exec(gx, gy),
                    Pixel { device_index: index, color_new, color_old },
                );
                proof {
                    let kk = coord_key(gx as int, gy as int);
                    assert forall|k: u64| #[trigger]
                        prev_map.contains_key(k) implies self.coordinate_map@.contains_key(k)
                        && self.coordinate_map@[k] == prev_map[k] by {
                        assert(k != kk);
                        assert(pre_map2.contains_key(k) && pre_map2[k] == prev_map[k]);
                    }
                    assert forall|t: int| #![trigger pads[t]] 0 <= t < placed + 1 implies ({
                        let g = global_of(pads[t], rotation, xo, yo);
                        &&& self.coordinate_map@.contains_key(coord_key(g.0 as int, g.1 as int))
                        &&& self.coordinate_map@[coord_key(g.0 as int, g.1 as int)]
                            == (Pixel {
                            device_index: index,
                            color_new: canvas.pending(pads[t].x as int, pads[t].y as int),
                            color_old: canvas.displayed(pads[t].x as int, pads[t].y as int),
                        })
                    }) by {
                        if t < placed {
                            let g = global_of(pads[t], rotation, xo, yo);
                            lemma_valid_pad_coords(&canvas, pads, t);
                            crate::canvas::lemma_valid_pads_distinct(&canvas, t, placed as int);
                            lemma_global_injective(
                                rotation,
                                xo,
                                yo,
                                pads[t].x as int,
                                pads[t].y as int,
                                pads[placed as int].x as int,
                                pads[placed as int].y as int,
                            );
                            lemma_coord_key_injective(
                                g.0 as int,
                                g.1 as int,
                                gx as int,
                                gy as int,
                            );
                            assert(pre_map2.contains_key(coord_key(g.0 as int, g.1 as int)));
                        }
                    }
                    assert forall|k: u64| #[trigger]
                        self.coordinate_map@.contains_key(k) implies pixel_wf(
                        self.coordinate_map@[k],
                        index as int + 1,
                        self.width as int,
                        self.height as int,
                        k,
                    ) by {
                        if k != kk {
                            assert(pre_map2.contains_key(k));
                            assert(self.coordinate_map@[k] == pre_map2[k]);
                        }
                    }
                }
            }
            placed = placed + 1;
        }
        let ghost pre_push = *self;
        proof {
            assert forall|k: u64| #[trigger]
                pre_push.coordinate_map@.contains_key(k) implies pixel_wf(
                pre_push.coordinate_map@[k],
                index as int + 1,
                pre_push.width as int,
                pre_push.height as int,
                k,
            ) by {
                assert(self.coordinate_map@.contains_key(k));
                assert(self.coordinate_map@[k] == pre_push.coordinate_map@[k]);
            }
            assert forall|i: int|
                0 <= i < pre_push.devices@.len() implies (
            #[trigger] pre_push.devices@[i]).canvas.wf() && 0 <= pre_push.devices@[i].brightness
                <= COLOR_UNIT by {
                assert(self.devices@[i].canvas.wf());
                assert(0 <= self.devices@[i].brightness <= COLOR_UNIT);
            }
            // the per-cell clauses, from the per-pad facts through the
            // enumeration's completeness
            assert forall|i: int, j: int| #[trigger] canvas.spec_valid(i, j) implies ({
                let g = global_of(
                    crate::pad::Pad { x: i as i32, y: j as i32 },
                    rotation,
                    xo,
                    yo,
                );
                &&& (global_coord_spec(i, j, rotation, xo, yo)) matches Some(g2)
                    && !old(self).spec_valid(g2.0 as int, g2.1 as int)
                &&& self.spec_valid(g.0 as int, g.1 as int)
                &&& self.displayed(g.0 as int, g.1 as int) == canvas.displayed(i, j)
                &&& self.pending(g.0 as int, g.1 as int) == canvas.pending(i, j)
                &&& self.spec_owner(g.0 as int, g.1 as int) == index as int
                &&& g.0 < self.width
                &&& g.1 < self.height
            }) by {
                canvas.lemma_valid_in_box(i, j);
                crate::canvas::lemma_valid_pads_complete(&canvas, i, j);
                let p = crate::pad::Pad { x: i as i32, y: j as i32 };
                assert(pads.contains(p));
                let t = choose|t: int| 0 <= t < pads.len() && pads[t] == p;
                assert((global_coord_spec(
                    pads[t].x as int,
                    pads[t].y as int,
                    rotation,
                    xo,
                    yo,
                )) matches Some(g2) && !prev_map.contains_key(
                    coord_key(g2.0 as int, g2.1 as int),
                ) && g2.0 < u32::MAX && g2.1 < u32::MAX && g2.0 < cand_w && g2.1 < cand_h);
                assert(0 <= t < placed);
                let g = global_of(pads[t], rotation, xo, yo);
                assert(self.coordinate_map@.contains_key(coord_key(g.0 as int, g.1 as int)));
                lemma_coord_key_split(g.0 as int, g.1 as int);
            }
        }
        self.devices.push(
            LayoutDevice { canvas, rotation, x: x_offset, y: y_offset, brightness },
        );
        proof {
            assert(self.coordinate_map@ == pre_push.coordinate_map@);
            assert(self.width == pre_push.width && self.height == pre_push.height);
            assert forall|k: u64| #[trigger]
                self.coordinate_map@.contains_key(k) implies pixel_wf(
                self.coordinate_map@[k],
                self.devices@.len() as int,
                self.width as int,
                self.height as int,
                k,
            ) by {
                assert(pre_push.coordinate_map@.contains_key(k));
                assert(pixel_wf(
                    pre_push.coordinate_map@[k],
                    index as int + 1,
                    pre_push.width as int,
                    pre_push.height as int,
                    k,
                ));
            }
            assert forall|i: int|
                0 <= i < self.devices@.len() implies (#[trigger] self.devices@[i]).canvas.wf()
                && 0 <= self.devices@[i].brightness <= COLOR_UNIT by {
                if i < pre_push.devices@.len() {
                    assert(pre_push.devices@[i].canvas.wf());
                    assert(0 <= pre_push.devices@[i].brightness <= COLOR_UNIT);
                }
            }
        }
        Ok(())
    }

    /// A placed device's rotation and offset, for wiring its input
    /// messages back into the shared space.
    pub fn device_placement(&self, d: usize) -> (r: (u32, u32, Rotation))
        requires
            d < self.spec_device_count(),
        ensures
            r.0 == self.spec_device_offset(d as int).0,
            r.1 == self.spec_device_offset(d as int).1,
            r.2 == self.spec_device_rotation(d as int),
    {
        let device = &self.devices[d];
        (device.x, device.y, device.rotation)
    }

    /// The valid pads of this layout, in row-major scan order.
    pub fn iter(&self) -> (r: crate::canvas::CanvasIterator)
        requires
            self.wf(),
        ensures
            r.pads@ == crate::canvas::valid_pads(self),
            r.position == 0,
    {
        crate::canvas::CanvasIterator::new(self)
    }
}

/// Where a device's local coordinate lands in the shared space, under a
/// rotation and an offset; nothing if it would leave the unsigned
/// coordinate space.
pub fn to_global(x: u32, y: u32, rotation: Rotation, x_offset: u32, y_offset: u32) -> (r: Option<
    (u32, u32),
>)
    requires
        x <= i32::MAX,
        y <= i32::MAX,
    ensures
        r == global_coord_spec(x as int, y as int, rotation, x_offset as int, y_offset as int),
{
    let (rx, ry) = rotation.translate(x as i32, y as i32);
    let gx: i64 = (rx as i64) + (x_offset as i64);
    let gy: i64 = (ry as i64) + (y_offset as i64);
    if 0 <= gx && gx <= u32::MAX as i64 && 0 <= gy && gy <= u32::MAX as i64 {
        Some((gx as u32, gy as u32))
    } else {
        None
    }
}

/// Translate an input message from a placed device's local space into
/// the layout's shared space, applying the placement's rotation and
/// offset; nothing when the translated coordinate would leave the
/// unsigned space.
pub fn translate_canvas_message(
    message: CanvasMessage,
    rotation: Rotation,
    x_offset: u32,
    y_offset: u32,
) -> (r: Option<CanvasMessage>)
    requires
        crate::canvas::message_x_spec(message) <= i32::MAX,
        crate::canvas::message_y_spec(message) <= i32::MAX,
    ensures
        r == match global_coord_spec(
            crate::canvas::message_x_spec(message) as int,
            crate::canvas::message_y_spec(message) as int,
            rotation,
            x_offset as int,
            y_offset as int,
        ) {
            Some(g) => Some(
                if message is Press {
                    CanvasMessage::Press { x: g.0, y: g.1 }
                } else {
                    CanvasMessage::Release { x: g.0, y: g.1 }
                },
            ),
            None => None::<CanvasMessage>,
        },
{
    let x = message.x();
    let y = message.y();
    match to_global(x, y, rotation, x_offset, y_offset) {
        Some((gx, gy)) => {
            if message.is_press() {
                Some(CanvasMessage::Press { x: gx, y: gy })
            } else {
                Some(CanvasMessage::Release { x: gx, y: gy })
            }
        },
        None => None,
    }
}

/// Whether a packed key lies inside a bounding box.
pub open spec fn key_in_box(k: u64, width: int, height: int) -> bool {
    0 <= k as int / 0x1_0000_0000 < width && 0 <= k as int % 0x1_0000_0000 < height
}

/// The well-formedness of one pixel record.
spec fn pixel_wf(p: Pixel, device_count: int, width: int, height: int, k: u64) -> bool {
    p.device_index < device_count && bounded(p.color_new, COLOR_BOUND as int) && bounded(
        p.color_old,
        COLOR_BOUND as int,
    ) && key_in_box(k, width, height)
}

/// Where a local coordinate lands globally, if it stays representable.
pub open spec fn global_coord_spec(
    x: int,
    y: int,
    rotation: Rotation,
    x_offset: int,
    y_offset: int,
) -> Option<(u32, u32)> {
    let (rx, ry) = translate_spec(rotation, x, y);
    let gx = rx + x_offset;
    let gy = ry + y_offset;
    if 0 <= gx <= u32::MAX as int && 0 <= gy <= u32::MAX as int {
        Some(((gx as u32), (gy as u32)))
    } else {
        None
    }
}

/// Pack a global coordinate into its map key.
fn coord_key_exec(x: u32, y: u32) -> (r: u64)
    ensures
        r == coord_key(x as int, y as int),
{
    (x as u64) * 0x1_0000_0000 + (y as u64)
}

/// The packed key splits back into its coordinate.
proof fn lemma_coord_key_split(x: int, y: int)
    requires
        0 <= x <= u32::MAX as int,
        0 <= y <= u32::MAX as int,
    ensures
        coord_key(x, y) as int / 0x1_0000_0000 == x,
        coord_key(x, y) as int % 0x1_0000_0000 == y,
{
    vstd::arithmetic::div_mod::lemma_fundamental_div_mod_converse(
        x * 0x1_0000_0000 + y,
        0x1_0000_0000,
        x,
        y,
    );
}

/// A pad handed out by a canvas's iterator has the canvas's validity and
/// non-negative coordinates.
proof fn lemma_valid_pad_coords<C: Canvas>(c: &C, pads: Seq<crate::pad::Pad>, i: int)
    requires
        c.wf(),
        pads == crate::canvas::valid_pads(c),
        0 <= i < pads.len(),
        c.spec_width() <= i32::MAX,
        c.spec_height() <= i32::MAX,
    ensures
        0 <= pads[i].x,
        0 <= pads[i].y,
        pads[i].x < c.spec_width(),
        pads[i].y < c.spec_height(),
        c.spec_valid(pads[i].x as int, pads[i].y as int),
{
    lemma_valid_pads_prefix_coords(
        c,
        (c.spec_width() as int) * (c.spec_height() as int),
        pads,
        i,
    );
}

proof fn lemma_valid_pads_prefix_coords<C: Canvas>(
    c: &C,
    n: int,
    pads: Seq<crate::pad::Pad>,
    i: int,
)
    requires
        c.wf(),
        pads == crate::canvas::valid_pads_prefix(c, n),
        0 <= i < pads.len(),
        0 <= n <= (c.spec_width() as int) * (c.spec_height() as int),
        c.spec_width() <= i32::MAX,
        c.spec_height() <= i32::MAX,
    ensures
        0 <= pads[i].x,
        0 <= pads[i].y,
        pads[i].x < c.spec_width(),
        pads[i].y < c.spec_height(),
        c.spec_valid(pads[i].x as int, pads[i].y as int),
    decreases n,
{
    let w = c.spec_width() as int;
    let h = c.spec_height() as int;
    if n <= 0 {
    } else {
        assert(w >= 1) by (nonlinear_arith)
            requires
                0 < n <= w * h && w >= 0 && h >= 0,
        ;
        let idx = n - 1;
        let x = idx % w;
        let y = idx / w;
        let prev = crate::canvas::valid_pads_prefix(c, idx);
        if c.spec_valid(x, y) {
            if i < prev.len() {
                lemma_valid_pads_prefix_coords(c, idx, prev, i);
            } else {
                vstd::arithmetic::div_mod::lemma_mod_division_less_than_divisor(idx, w);
                vstd::arithmetic::div_mod::lemma_div_is_ordered(0, idx, w);
                vstd::arithmetic::div_mod::lemma_div_of0(w);
                c.lemma_valid_in_box(x, y);
            }
        } else {
            lemma_valid_pads_prefix_coords(c, idx, prev, i);
        }
    }
}

/// The concatenated wire queues of the first `n` placed devices, in
/// placement order.
spec fn wire_concat<C: Canvas>(devices: Seq<LayoutDevice<C>>, n: int) -> Seq<Seq<u8>>
    decreases n,
{
    if n <= 0 {
        Seq::empty()
    } else {
        wire_concat(devices, n - 1) + devices[n - 1].canvas.wire_frames()
    }
}

/// A concatenation of empty wire queues is empty.
proof fn lemma_wire_concat_empty<C: Canvas>(devices: Seq<LayoutDevice<C>>, n: int)
    requires
        0 <= n <= devices.len(),
        forall|i: int|
            0 <= i < n ==> (#[trigger] devices[i]).canvas.wire_frames() == Seq::<Seq<u8>>::empty(),
    ensures
        wire_concat(devices, n) == Seq::<Seq<u8>>::empty(),
    decreases n,
{
    if n > 0 {
        lemma_wire_concat_empty(devices, n - 1);
        assert(wire_concat(devices, n) =~= Seq::<Seq<u8>>::empty());
    }
}

impl<C: Canvas> Canvas for CanvasLayout<C> {
    closed spec fn spec_width(&self) -> u32 {
        self.width
    }

    closed spec fn spec_height(&self) -> u32 {
        self.height
    }

    closed spec fn wf(&self) -> bool {
        &&& forall|k: u64| #[trigger]
            self.coordinate_map@.contains_key(k) ==> pixel_wf(
                self.coordinate_map@[k],
                self.devices@.len() as int,
                self.width as int,
                self.height as int,
                k,
            )
        &&& forall|i: int|
            0 <= i < self.devices@.len() ==> (#[trigger] self.devices@[i]).canvas.wf() && 0
                <= self.devices@[i].brightness <= COLOR_UNIT
        &&& 0 <= self.light_threshold < COLOR_UNIT
        &&& (self.width as int) * (self.height as int) <= u32::MAX as int
    }

    closed spec fn spec_valid(&self, x: int, y: int) -> bool {
        self.coordinate_map@.contains_key(coord_key(x, y)) && 0 <= x <= u32::MAX && 0 <= y
            <= u32::MAX
    }

    closed spec fn displayed(&self, x: int, y: int) -> Color {
        self.coordinate_map@[coord_key(x, y)].color_old
    }

    closed spec fn pending(&self, x: int, y: int) -> Color {
        self.coordinate_map@[coord_key(x, y)].color_new
    }

    closed spec fn spec_lowest_visible_brightness(&self) -> i32 {
        self.light_threshold
    }

    closed spec fn wire_frames(&self) -> Seq<Seq<u8>> {
        wire_concat(self.devices@, self.devices@.len() as int)
    }

    proof fn lemma_valid_in_box(&self, x: int, y: int) {
        lemma_coord_key_split(x, y);
    }

    proof fn lemma_cell_bounded(&self, x: int, y: int) {
    }

    fn bounding_box(&self) -> (r: (u32, u32)) {
        (self.width, self.height)
    }

    fn low_level_get(&self, x: u32, y: u32) -> (r: Option<Color>) {
        proof {
            lemma_coord_key_split(x as int, y as int);
        }
        match self.coordinate_map.get(&coord_key_exec(x, y)) {
            Some(pixel) => Some(pixel.color_old),
            None => None,
        }
    }

    fn low_level_get_pending(&self, x: u32, y: u32) -> (r: Option<Color>) {
        proof {
            lemma_coord_key_split(x as int, y as int);
        }
        match self.coordinate_map.get(&coord_key_exec(x, y)) {
            Some(pixel) => Some(pixel.color_new),
            None => None,
        }
    }

    fn low_level_set_pending(&mut self, x: u32, y: u32, color: Color) -> (r: bool) {
        proof {
            lemma_coord_key_split(x as int, y as int);
        }
        let key = coord_key_exec(x, y);
        let (device_index, color_old) = match self.coordinate_map.get(&key) {
            Some(pixel) => (pixel.device_index, pixel.color_old),
            None => {
                return false;
            },
        };
        self.coordinate_map.insert(
            key,
            Pixel { device_index, color_new: color, color_old },
        );
        proof {
            assert forall|k: u64| #[trigger]
                self.coordinate_map@.contains_key(k) implies pixel_wf(
                self.coordinate_map@[k],
                self.devices@.len() as int,
                self.width as int,
                self.height as int,
                k,
            ) by {
                if k != coord_key(x as int, y as int) {
                    assert(old(self).coordinate_map@.contains_key(k));
                }
            }
            assert forall|i: int, j: int|
                old(self).spec_valid(i, j) && !(i == x as int && j == y as int) implies self
                .pending(i, j) == old(self).pending(i, j) by {
                lemma_coord_key_injective(i, j, x as int, y as int);
            }
            assert forall|i: int, j: int|
                old(self).spec_valid(i, j) implies self.displayed(i, j) == old(self).displayed(
                i,
                j,
            ) by {
                if !(i == x as int && j == y as int) {
                    lemma_coord_key_injective(i, j, x as int, y as int);
                }
            }
        }
        true
    }

    fn flush(&mut self) -> (r: Result<(), MidiError>)
        ensures
            final(self).spec_device_count() == old(self).spec_device_count(),
            forall|d: int|
                0 <= d < old(self).spec_device_count()
                    ==> #[trigger] final(self).spec_device_rotation(d) == old(self).spec_device_rotation(d)
                    && final(self).spec_device_offset(d) == old(self).spec_device_offset(d)
                    && final(self).spec_device_brightness(d) == old(self).spec_device_brightness(d),
            // the distribution: every owned cell's pending color, rescaled
            // to the owning device's brightness floor, ends up displayed
            // (and pending) on that device at the inverse-rotated local
            // coordinate — the per-device flushes run only after every
            // cell has been distributed
            forall|gi: int, gj: int| #![trigger old(self).spec_owner(gi, gj)]
                old(self).spec_valid(gi, gj) && old(self).distribution_lands(gi, gj) ==> ({
                    let d = old(self).spec_owner(gi, gj);
                    let l = old(self).distributed_local(gi, gj);
                    final(self).spec_device_canvas(d).displayed(l.0, l.1)
                        == old(self).distributed_color(gi, gj)
                        && final(self).spec_device_canvas(d).pending(l.0, l.1)
                        == old(self).distributed_color(gi, gj)
                }),
    {
        let threshold = self.light_threshold;
        let width = self.width;
        let height = self.height;
        // distribute every pending pixel into its owning device's buffer,
        // rescaled to that device's brightness floor
        let mut y: u32 = 0;
        while y < height
            invariant
                0 <= y <= height,
                width == self.width,
                height == self.height,
                threshold == self.light_threshold,
                self.light_threshold == old(self).light_threshold,
                self.wf(),
                self.coordinate_map@.dom() == old(self).coordinate_map@.dom(),
                self.devices@.len() == old(self).devices@.len(),
                forall|k: u64| #[trigger]
                    self.coordinate_map@.contains_key(k) ==> self.coordinate_map@[k].device_index
                        == old(self).coordinate_map@[k].device_index
                        && self.coordinate_map@[k].color_new == old(
                        self,
                    ).coordinate_map@[k].color_new,
                forall|k: u64| #[trigger]
                    self.coordinate_map@.contains_key(k) && (k as int / 0x1_0000_0000 >= width
                        as int || k as int % 0x1_0000_0000 >= y as int) ==> (
                    self.coordinate_map@[k].color_old == old(
                        self,
                    ).coordinate_map@[k].color_old),
                forall|k: u64| #[trigger]
                    self.coordinate_map@.contains_key(k) && k as int / 0x1_0000_0000 < width
                        as int && k as int % 0x1_0000_0000 < y as int ==> (
                    self.coordinate_map@[k].color_old == self.coordinate_map@[k].color_new),
                forall|gi: int, gj: int| #![trigger old(self).spec_owner(gi, gj)]
                    old(self).spec_valid(gi, gj) && 0 <= gi && 0 <= gj < y && old(self).distribution_lands(
                        gi,
                        gj,
                    ) ==> ({
                        let d = old(self).spec_owner(gi, gj);
                        let l = old(self).distributed_local(gi, gj);
                        self.devices@[d].canvas.pending(l.0, l.1) == old(
                            self,
                        ).distributed_color(gi, gj)
                    }),
                forall|d: int|
                    0 <= d < self.devices@.len() ==> (#[trigger] self.devices@[d]).rotation
                        == old(self).devices@[d].rotation && self.devices@[d].x == old(
                        self,
                    ).devices@[d].x && self.devices@[d].y == old(self).devices@[d].y
                        && self.devices@[d].brightness == old(self).devices@[d].brightness,
                forall|dd: int, lx: int, ly: int|
                    0 <= dd < self.devices@.len() ==> (#[trigger] self.devices@[dd].canvas.spec_valid(
                        lx,
                        ly,
                    )) == old(self).devices@[dd].canvas.spec_valid(lx, ly),
            decreases height - y,
        {
            let mut x: u32 = 0;
            while x < width
                invariant
                    0 <= x <= width,
                    0 <= y < height,
                    width == self.width,
                    height == self.height,
                    threshold == self.light_threshold,
                    self.light_threshold == old(self).light_threshold,
                    self.wf(),
                    self.coordinate_map@.dom() == old(self).coordinate_map@.dom(),
                    self.devices@.len() == old(self).devices@.len(),
                    forall|k: u64| #[trigger]
                        self.coordinate_map@.contains_key(k) ==> self
                            .coordinate_map@[k].device_index == old(
                        self,
                        ).coordinate_map@[k].device_index && self.coordinate_map@[k].color_new
                            == old(self).coordinate_map@[k].color_new,
                    forall|k: u64| #[trigger]
                        self.coordinate_map@.contains_key(k) && (k as int % 0x1_0000_0000 > y
                            as int || (k as int % 0x1_0000_0000 == y as int && k as int
                            / 0x1_0000_0000 >= x as int) || k as int / 0x1_0000_0000 >= width
                            as int) ==> (self.coordinate_map@[k].color_old == old(
                        self,
                        ).coordinate_map@[k].color_old),
                    forall|k: u64| #[trigger]
                        self.coordinate_map@.contains_key(k) && k as int / 0x1_0000_0000 < width
                            as int && (k as int % 0x1_0000_0000 < y as int || (k as int
                            % 0x1_0000_0000 == y as int && k as int / 0x1_0000_0000 < x as int))
                            ==> (self.coordinate_map@[k].color_old == self
                            .coordinate_map@[k].color_new),
                    forall|gi: int, gj: int| #![trigger old(self).spec_owner(gi, gj)]
                        old(self).spec_valid(gi, gj) && 0 <= gi && 0 <= gj && (gj < y || (gj == y && gi < x)) && old(self).distribution_lands(
                            gi,
                            gj,
                        ) ==> ({
                            let d = old(self).spec_owner(gi, gj);
                            let l = old(self).distributed_local(gi, gj);
                            self.devices@[d].canvas.pending(l.0, l.1) == old(
                                self,
                            ).distributed_color(gi, gj)
                        }),
                    forall|d: int|
                    0 <= d < self.devices@.len() ==> (#[trigger] self.devices@[d]).rotation
                            == old(self).devices@[d].rotation && self.devices@[d].x == old(
                            self,
                    ).devices@[d].x && self.devices@[d].y == old(self).devices@[d].y
                            && self.devices@[d].brightness == old(self).devices@[d].brightness,
                    forall|dd: int, lx: int, ly: int|
                        0 <= dd < self.devices@.len() ==> (#[trigger] self.devices@[dd].canvas.spec_valid(
                            lx,
                            ly,
                        )) == old(self).devices@[dd].canvas.spec_valid(lx, ly),
                decreases width - x,
            {
                proof {
                    lemma_coord_key_split(x as int, y as int);
                }
                let key = coord_key_exec(x, y);
                let entry = match self.coordinate_map.get(&key) {
                    Some(pixel) => Some(
                        (pixel.device_index, pixel.color_new, pixel.color_old),
                    ),
                    None => None,
                };
                if let Some((device_index, color_new, _color_old)) = entry {
                    let device_brightness = self.devices[device_index].brightness;
                    let transformed = if threshold < COLOR_UNIT {
                        transform_color(color_new, threshold, device_brightness)
                    } else {
                        color_new
                    };
                    let ghost pre = *self;
                    proof {
                        assert forall|gi: int, gj: int| #![trigger old(self).spec_owner(gi, gj)]
                            old(self).spec_valid(gi, gj) && 0 <= gi && 0 <= gj && (gj < y as int
                                || (gj == y as int && gi < x as int)) && old(
                            self,
                        ).distribution_lands(gi, gj) implies ({
                            let dd = old(self).spec_owner(gi, gj);
                            let l = old(self).distributed_local(gi, gj);
                            pre.devices@[dd].canvas.pending(l.0, l.1) == old(
                                self,
                            ).distributed_color(gi, gj)
                        }) by {
                            let dd = old(self).spec_owner(gi, gj);
                            assert(pre.devices@[dd] == self.devices@[dd]);
                        }
                        assert forall|i: int|
                            0 <= i < pre.devices@.len() implies (
                        #[trigger] pre.devices@[i]).canvas.wf() && pre.devices@[i].rotation
                            == old(self).devices@[i].rotation && pre.devices@[i].x == old(
                            self,
                        ).devices@[i].x && pre.devices@[i].y == old(self).devices@[i].y
                            && pre.devices@[i].brightness == old(self).devices@[i].brightness by {
                            assert(pre.devices@[i] == self.devices@[i]);
                            assert(self.devices@[i].canvas.wf());
                        }
                        assert forall|dd: int, plx: int, ply: int|
                            0 <= dd < pre.devices@.len() implies (
                        #[trigger] pre.devices@[dd].canvas.spec_valid(plx, ply)) == old(
                            self,
                        ).devices@[dd].canvas.spec_valid(plx, ply) by {
                            assert(pre.devices@[dd] == self.devices@[dd]);
                            assert(self.devices@[dd].canvas.spec_valid(plx, ply) == old(
                                self,
                            ).devices@[dd].canvas.spec_valid(plx, ply));
                        }
                    }
                    let device = &mut self.devices[device_index];
                    let rotation = device.rotation;
                    let dx = device.x;
                    let dy = device.y;
                    // translate the global coordinate back into the
                    // device's local, rotation-compensated coordinate
                    let lx: i64 = (x as i64) - (dx as i64);
                    let ly: i64 = (y as i64) - (dy as i64);
                    if -(i32::MAX as i64) <= lx && lx <= i32::MAX as i64 && -(i32::MAX as i64)
                        <= ly && ly <= i32::MAX as i64 {
                        let (rx, ry) = rotation.inverse().translate(lx as i32, ly as i32);
                        if rx >= 0 && ry >= 0 {
                            let wrote = device.canvas.low_level_set_pending(
                                rx as u32,
                                ry as u32,
                                transformed,
                            );
                            proof {
                        assert forall|gi: int, gj: int| #![trigger old(self).spec_owner(gi, gj)]
                                old(self).spec_valid(gi, gj) && 0 <= gi && 0 <= gj && (gj < y as int
                                    || (gj == y as int && gi < x as int + 1)) && old(
                                self,
                            ).distribution_lands(gi, gj) implies ({
                                let dd = old(self).spec_owner(gi, gj);
                                let l = old(self).distributed_local(gi, gj);
                                self.devices@[dd].canvas.pending(l.0, l.1) == old(
                                    self,
                                ).distributed_color(gi, gj)
                            }) by {
                                let dd = old(self).spec_owner(gi, gj);
                                let l = old(self).distributed_local(gi, gj);
                                if gi == x as int && gj == y as int {
                                    lemma_coord_key_split(gi, gj);
                                    assert(dd == device_index as int);
                                    assert(old(self).spec_device_rotation(dd) == rotation);
                                    assert(old(self).spec_device_offset(dd) == ((dx, dy)));
                                    assert(l == (rx as int, ry as int));
                                    assert(old(self).pending(gi, gj) == color_new);
                                    assert(old(self).spec_device_brightness(dd)
                                        == device_brightness);
                                    assert(transformed == transformed_color_spec(
                                        color_new,
                                        threshold as int,
                                        device_brightness as int,
                                    ));
                                    assert(wrote);
                                } else {
                                    assert(pre.devices@[dd].canvas.pending(l.0, l.1) == old(
                                        self,
                                    ).distributed_color(gi, gj));
                                    if dd == device_index as int {
                                        lemma_local_injective(
                                            rotation,
                                            dx as int,
                                            dy as int,
                                            gi,
                                            gj,
                                            x as int,
                                            y as int,
                                        );
                                    } else {
                                        assert(self.devices@[dd] == pre.devices@[dd]);
                                    }
                                }
                            }
                            }
                        } else {
                            proof {
                        assert forall|gi: int, gj: int| #![trigger old(self).spec_owner(gi, gj)]
                                old(self).spec_valid(gi, gj) && 0 <= gi && 0 <= gj && (gj < y as int
                                    || (gj == y as int && gi < x as int + 1)) && old(
                                self,
                            ).distribution_lands(gi, gj) implies ({
                                let dd = old(self).spec_owner(gi, gj);
                                let l = old(self).distributed_local(gi, gj);
                                self.devices@[dd].canvas.pending(l.0, l.1) == old(
                                    self,
                                ).distributed_color(gi, gj)
                            }) by {
                                let dd = old(self).spec_owner(gi, gj);
                                let l = old(self).distributed_local(gi, gj);
                                if gi == x as int && gj == y as int {
                                    lemma_coord_key_split(gi, gj);
                                    assert(dd == device_index as int);
                                    assert(old(self).spec_device_rotation(dd) == rotation);
                                    assert(old(self).spec_device_offset(dd) == ((dx, dy)));
                                    // no write happened, and none was owed:
                                    // the local coordinate is negative
                                    assert(l == (rx as int, ry as int));
                                    assert(false);
                                } else {
                                    assert(pre.devices@[dd].canvas.pending(l.0, l.1) == old(
                                        self,
                                    ).distributed_color(gi, gj));
                                    if dd == device_index as int {
                                        assert(self.devices@[dd] == pre.devices@[dd]);
                                    } else {
                                        assert(self.devices@[dd] == pre.devices@[dd]);
                                    }
                                }
                            }
                            }
                        }
                    } else {
                        proof {
                        assert forall|gi: int, gj: int| #![trigger old(self).spec_owner(gi, gj)]
                            old(self).spec_valid(gi, gj) && 0 <= gi && 0 <= gj && (gj < y as int
                                || (gj == y as int && gi < x as int + 1)) && old(
                            self,
                        ).distribution_lands(gi, gj) implies ({
                            let dd = old(self).spec_owner(gi, gj);
                            let l = old(self).distributed_local(gi, gj);
                            self.devices@[dd].canvas.pending(l.0, l.1) == old(
                                self,
                            ).distributed_color(gi, gj)
                        }) by {
                            let dd = old(self).spec_owner(gi, gj);
                            let l = old(self).distributed_local(gi, gj);
                            if gi == x as int && gj == y as int {
                                lemma_coord_key_split(gi, gj);
                                assert(dd == device_index as int);
                                assert(old(self).spec_device_offset(dd) == ((dx, dy)));
                                // no write happened, and none was owed: the
                                // offset difference leaves the signed range
                                assert(false);
                            } else {
                                assert(pre.devices@[dd].canvas.pending(l.0, l.1) == old(
                                    self,
                                ).distributed_color(gi, gj));
                                if dd == device_index as int {
                                    assert(self.devices@[dd] == pre.devices@[dd]);
                                } else {
                                    assert(self.devices@[dd] == pre.devices@[dd]);
                                }
                            }
                        }
                        }
                    }
                    self.coordinate_map.insert(
                        key,
                        Pixel { device_index, color_new, color_old: color_new },
                    );
                    proof {
                        assert forall|k: u64| #[trigger]
                            self.coordinate_map@.contains_key(k) implies pixel_wf(
                            self.coordinate_map@[k],
                            self.devices@.len() as int,
                            self.width as int,
                            self.height as int,
                            k,
                        ) by {
                            if k != coord_key(x as int, y as int) {
                                assert(old(self).coordinate_map@.contains_key(k));
                            }
                        }
                    }
                }
                x = x + 1;
            }
            y = y + 1;
        }
        // only now flush every placed device in order
        let device_count = self.devices.len();
        let mut d: usize = 0;
        while d < device_count
            invariant
                0 <= d <= device_count,
                device_count == self.devices@.len(),
                self.wf(),
                self.width == old(self).width,
                self.height == old(self).height,
                self.light_threshold == old(self).light_threshold,
                self.coordinate_map@.dom() == old(self).coordinate_map@.dom(),
                self.devices@.len() == old(self).devices@.len(),
                forall|k: u64| #[trigger]
                    self.coordinate_map@.contains_key(k) ==> self.coordinate_map@[k].device_index
                        == old(self).coordinate_map@[k].device_index
                        && self.coordinate_map@[k].color_new == old(
                        self,
                    ).coordinate_map@[k].color_new,
                forall|k: u64| #[trigger]
                    self.coordinate_map@.contains_key(k) ==> (self.coordinate_map@[k].color_old
                        == self.coordinate_map@[k].color_new),
                forall|i: int|
                    0 <= i < self.devices@.len() ==> (#[trigger] self.devices@[i]).rotation
                        == old(self).devices@[i].rotation && self.devices@[i].x == old(
                        self,
                    ).devices@[i].x && self.devices@[i].y == old(self).devices@[i].y
                        && self.devices@[i].brightness == old(self).devices@[i].brightness,
                forall|dd: int, lx: int, ly: int|
                    0 <= dd < self.devices@.len() ==> (#[trigger] self.devices@[dd].canvas.spec_valid(
                        lx,
                        ly,
                    )) == old(self).devices@[dd].canvas.spec_valid(lx, ly),
                forall|gi: int, gj: int| #![trigger old(self).spec_owner(gi, gj)]
                    old(self).spec_valid(gi, gj) && old(self).distribution_lands(gi, gj)
                        ==> ({
                        let dev = old(self).spec_owner(gi, gj);
                        let l = old(self).distributed_local(gi, gj);
                        &&& (dev < d ==> self.devices@[dev].canvas.displayed(l.0, l.1) == old(
                            self,
                        ).distributed_color(gi, gj))
                        &&& self.devices@[dev].canvas.pending(l.0, l.1) == old(
                            self,
                        ).distributed_color(gi, gj)
                    }),
            decreases device_count - d,
        {
            let ghost pre = *self;
            proof {
                assert forall|gi: int, gj: int| #![trigger old(self).spec_owner(gi, gj)]
                    old(self).spec_valid(gi, gj) && old(self).distribution_lands(gi, gj)
                    implies ({
                    let dev = old(self).spec_owner(gi, gj);
                    let l = old(self).distributed_local(gi, gj);
                    &&& (dev < d as int ==> pre.devices@[dev].canvas.displayed(l.0, l.1) == old(
                        self,
                    ).distributed_color(gi, gj))
                    &&& pre.devices@[dev].canvas.pending(l.0, l.1) == old(
                        self,
                    ).distributed_color(gi, gj)
                }) by {
                    let dev = old(self).spec_owner(gi, gj);
                    assert(pre.devices@[dev] == self.devices@[dev]);
                }
                assert forall|i: int|
                    0 <= i < pre.devices@.len() implies (#[trigger] pre.devices@[i]).canvas.wf()
                    by {
                    assert(pre.devices@[i] == self.devices@[i]);
                    assert(self.devices@[i].canvas.wf());
                }
                assert forall|dd: int, plx: int, ply: int|
                    0 <= dd < pre.devices@.len() implies (
                #[trigger] pre.devices@[dd].canvas.spec_valid(plx, ply)) == old(
                    self,
                ).devices@[dd].canvas.spec_valid(plx, ply) by {
                    assert(pre.devices@[dd] == self.devices@[dd]);
                    assert(self.devices@[dd].canvas.spec_valid(plx, ply) == old(
                        self,
                    ).devices@[dd].canvas.spec_valid(plx, ply));
                }
            }
            let device = &mut self.devices[d];
            let _ = device.canvas.flush();
            proof {
                assert forall|i: int|
                    0 <= i < self.devices@.len() implies (#[trigger] self.devices@[i]).canvas.wf()
                    && 0 <= self.devices@[i].brightness <= COLOR_UNIT && self.devices@[i].rotation
                    == pre.devices@[i].rotation && self.devices@[i].x == pre.devices@[i].x
                    && self.devices@[i].y == pre.devices@[i].y && self.devices@[i].brightness
                    == pre.devices@[i].brightness by {
                    if i != d as int {
                        assert(self.devices@[i] == pre.devices@[i]);
                        assert(pre.devices@[i].canvas.wf());
                    }
                }
                assert forall|gi: int, gj: int| #![trigger old(self).spec_owner(gi, gj)]
                    old(self).spec_valid(gi, gj) && old(self).distribution_lands(gi, gj)
                    implies ({
                    let dev = old(self).spec_owner(gi, gj);
                    let l = old(self).distributed_local(gi, gj);
                    &&& (dev < d as int + 1 ==> self.devices@[dev].canvas.displayed(l.0, l.1)
                        == old(self).distributed_color(gi, gj))
                    &&& self.devices@[dev].canvas.pending(l.0, l.1) == old(
                        self,
                    ).distributed_color(gi, gj)
                }) by {
                    let dev = old(self).spec_owner(gi, gj);
                    let l = old(self).distributed_local(gi, gj);
                    assert(pre.devices@[dev].canvas.pending(l.0, l.1) == old(
                        self,
                    ).distributed_color(gi, gj));
                    if dev != d as int {
                        assert(self.devices@[dev] == pre.devices@[dev]);
                        if dev < d as int {
                            assert(pre.devices@[dev].canvas.displayed(l.0, l.1) == old(
                                self,
                            ).distributed_color(gi, gj));
                        }
                    } else {
                        // the flush just made the distributed pending
                        // color visible on this device
                        assert(pre.devices@[dev].canvas.spec_valid(l.0, l.1));
                    }
                }
            }
            d = d + 1;
        }
        proof {
            assert forall|i: int, j: int| old(self).spec_valid(i, j) implies self.displayed(i, j)
                == old(self).pending(i, j) && self.pending(i, j) == old(self).pending(i, j) by {
                let k = coord_key(i, j);
                assert(self.coordinate_map@.contains_key(k));
            }
        }
        Ok(())
    }

    fn take_wire_frames(&mut self) -> (r: Vec<Vec<u8>>) {
        let mut frames: Vec<Vec<u8>> = Vec::new();
        let device_count = self.devices.len();
        proof {
            assert(frames.deep_view() =~= wire_concat(old(self).devices@, 0));
        }
        let mut d: usize = 0;
        while d < device_count
            invariant
                0 <= d <= device_count,
                device_count == self.devices@.len(),
                self.wf(),
                self.width == old(self).width,
                self.height == old(self).height,
                self.light_threshold == old(self).light_threshold,
                self.coordinate_map@ == old(self).coordinate_map@,
                self.devices@.len() == old(self).devices@.len(),
                frames.deep_view() == wire_concat(old(self).devices@, d as int),
                forall|i: int|
                    0 <= i < d ==> (#[trigger] self.devices@[i]).canvas.wire_frames()
                        == Seq::<Seq<u8>>::empty(),
                forall|i: int|
                    d <= i < self.devices@.len() ==> #[trigger] self.devices@[i] == old(
                        self,
                    ).devices@[i],
            decreases device_count - d,
        {
            let ghost pre = *self;
            let ghost pre_frames = frames.deep_view();
            let device = &mut self.devices[d];
            let mut taken = device.canvas.take_wire_frames();
            let ghost taken_view = taken.deep_view();
            frames.append(&mut taken);
            proof {
                assert(taken_view == pre.devices@[d as int].canvas.wire_frames());
                assert(pre.devices@[d as int] == old(self).devices@[d as int]);
                assert forall|i: int|
                    0 <= i < frames.deep_view().len() implies #[trigger] frames.deep_view()[i]
                    == (pre_frames + taken_view)[i] by {}
                assert(frames.deep_view() =~= pre_frames + taken_view);
                assert(frames.deep_view() =~= wire_concat(old(self).devices@, d as int + 1));
                assert forall|i: int|
                    0 <= i < self.devices@.len() implies (#[trigger] self.devices@[i]).canvas.wf()
                    && 0 <= self.devices@[i].brightness <= COLOR_UNIT by {
                    if i != d as int {
                        assert(self.devices@[i] == pre.devices@[i]);
                        assert(pre.devices@[i].canvas.wf());
                    }
                }
            }
            d = d + 1;
        }
        proof {
            lemma_wire_concat_empty(self.devices@, self.devices@.len() as int);
        }
        frames
    }

    fn lowest_visible_brightness(&self) -> (r: i32) {
        self.light_threshold
    }
}

/// Distinct coordinates pack to distinct keys.
proof fn lemma_coord_key_injective(i: int, j: int, x: int, y: int)
    requires
        0 <= i <= u32::MAX as int,
        0 <= j <= u32::MAX as int,
        0 <= x <= u32::MAX as int,
        0 <= y <= u32::MAX as int,
        !(i == x && j == y),
    ensures
        coord_key(i, j) != coord_key(x, y),
{
    lemma_coord_key_split(i, j);
    lemma_coord_key_split(x, y);
}

} // verus!
