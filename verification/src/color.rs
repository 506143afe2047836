use vstd::prelude::*;

verus! {

/// One whole brightness unit: the fixed-point representation of the value 1.0.
///
/// Canvas colors are stored as signed fixed-point numbers in units of
/// `1 / COLOR_UNIT`. A component of `COLOR_UNIT` is full brightness, `0` is
/// dark. Components may lie outside `0..=COLOR_UNIT`; they are only brought
/// into range by [`Color::clamp`] or [`Color::quantize`].
pub const COLOR_UNIT: i32 = 4096;

/// A bound on the color components (and mixing proportions) that the
/// arithmetic helpers accept, chosen so that all intermediate products fit
/// comfortably in 64 bits. It corresponds to a brightness of 256.0.
pub const COLOR_BOUND: i32 = 1048576;

/// A display-space color with red, green and blue components in fixed-point
/// units of `1 / COLOR_UNIT` (see [`COLOR_UNIT`]).
///
/// Out-of-range components are tolerated and only resolved when the color is
/// handed to a device, via [`Color::clamp`] / [`Color::quantize`].
#[derive(Debug, Copy, Clone, PartialEq, Eq, Structural)]
pub struct Color {
    pub r: i32,
    pub g: i32,
    pub b: i32,
}

/// The largest of three values.
pub open spec fn max3(a: int, b: int, c: int) -> int {
    if a >= b && a >= c {
        a
    } else if b >= c {
        b
    } else {
        c
    }
}

/// What clamping does to one component: when the color's largest component
/// `m` exceeds one unit, every component is rescaled by `COLOR_UNIT / m`
/// (preserving the hue), and finally clipped into `0..=COLOR_UNIT`.
pub open spec fn clamp_component_spec(c: int, m: int) -> int {
    let scaled = if m > COLOR_UNIT as int {
        (c * (COLOR_UNIT as int)) / m
    } else {
        c
    };
    if scaled < 0 {
        0
    } else if scaled > COLOR_UNIT as int {
        COLOR_UNIT as int
    } else {
        scaled
    }
}

/// The clamped form of a whole color.
pub open spec fn clamp_spec(c: Color) -> Color {
    let m = max3(c.r as int, c.g as int, c.b as int);
    Color {
        r: clamp_component_spec(c.r as int, m) as i32,
        g: clamp_component_spec(c.g as int, m) as i32,
        b: clamp_component_spec(c.b as int, m) as i32,
    }
}

/// What quantization does to one already-clamped component: scale the
/// component from `0..=COLOR_UNIT` to `0..range` and floor, capping the
/// result at `range - 1`.
pub open spec fn quantize_component_spec(c: int, range: int) -> int {
    let q = (c * range) / (COLOR_UNIT as int);
    if q > range - 1 {
        range - 1
    } else {
        q
    }
}

/// The quantized form of a whole color, as an RGB triple in `0..range`.
pub open spec fn quantize_spec(c: Color, range: int) -> (int, int, int) {
    let k = clamp_spec(c);
    (
        quantize_component_spec(k.r as int, range),
        quantize_component_spec(k.g as int, range),
        quantize_component_spec(k.b as int, range),
    )
}

/// The hue wheel, one revolution per `COLOR_UNIT`, split into six linear
/// segments: red, yellow, green, cyan, blue, magenta and back to red.
pub open spec fn from_hue_spec(h: int) -> Color {
    let phase = (6 * h) % (6 * (COLOR_UNIT as int));
    let seg = phase / (COLOR_UNIT as int);
    let frac = phase % (COLOR_UNIT as int);
    if seg == 0 {
        Color { r: COLOR_UNIT, g: frac as i32, b: 0 }
    } else if seg == 1 {
        Color { r: (COLOR_UNIT - frac) as i32, g: COLOR_UNIT, b: 0 }
    } else if seg == 2 {
        Color { r: 0, g: COLOR_UNIT, b: frac as i32 }
    } else if seg == 3 {
        Color { r: 0, g: (COLOR_UNIT - frac) as i32, b: COLOR_UNIT }
    } else if seg == 4 {
        Color { r: frac as i32, g: 0, b: COLOR_UNIT }
    } else {
        Color { r: COLOR_UNIT, g: 0, b: (COLOR_UNIT - frac) as i32 }
    }
}

/// The fractional part of a fixed-point value, keeping the sign of the
/// input (as the floating-point `fract` operation does).
pub open spec fn fract_spec(h: int) -> int {
    if h >= 0 {
        h % (COLOR_UNIT as int)
    } else {
        -((-h) % (COLOR_UNIT as int))
    }
}

/// The triangle-wave keyframe blend of [`Color::red_green_color`]: ramps up
/// over the first quarter, holds one unit through the middle half, and ramps
/// back down over the last quarter.
pub open spec fn triangle_wave_spec(x: int) -> int {
    if x < (COLOR_UNIT as int) / 4 {
        4 * x
    } else if x >= 3 * ((COLOR_UNIT as int) / 4) {
        4 * (COLOR_UNIT as int) - 4 * x
    } else {
        COLOR_UNIT as int
    }
}

/// The linear interpolation of [`Color::mix`], applied to one component:
/// `o` weighted by `p` and `s` by `COLOR_UNIT - p`, in fixed point.
pub open spec fn mix_component_spec(s: int, o: int, p: int) -> int {
    (o * p + s * ((COLOR_UNIT as int) - p)) / (COLOR_UNIT as int)
}

/// `true` when every component of `c` lies within `COLOR_BOUND` of zero.
pub open spec fn bounded(c: Color, bound: int) -> bool {
    -bound <= c.r <= bound && -bound <= c.g <= bound && -bound <= c.b <= bound
}

impl Color {
    /// Create a new color from the given red, green and blue components, in
    /// fixed-point units of `1 / COLOR_UNIT`.
    pub fn new(r: i32, g: i32, b: i32) -> (c: Color)
        ensures
            c == (Color { r, g, b }),
    {
        Color { r, g, b }
    }

    pub fn black() -> (c: Color)
        ensures
            c == (Color { r: 0i32, g: 0i32, b: 0i32 }),
    {
        Color { r: 0, g: 0, b: 0 }
    }

    pub fn white() -> (c: Color)
        ensures
            c == (Color { r: COLOR_UNIT, g: COLOR_UNIT, b: COLOR_UNIT }),
    {
        Color { r: COLOR_UNIT, g: COLOR_UNIT, b: COLOR_UNIT }
    }

    pub fn red() -> (c: Color)
        ensures
            c == (Color { r: COLOR_UNIT, g: 0i32, b: 0i32 }),
    {
        Color { r: COLOR_UNIT, g: 0, b: 0 }
    }

    pub fn green() -> (c: Color)
        ensures
            c == (Color { r: 0i32, g: COLOR_UNIT, b: 0i32 }),
    {
        Color { r: 0, g: COLOR_UNIT, b: 0 }
    }

    pub fn blue() -> (c: Color)
        ensures
            c == (Color { r: 0i32, g: 0i32, b: COLOR_UNIT }),
    {
        Color { r: 0, g: 0, b: COLOR_UNIT }
    }

    pub fn cyan() -> (c: Color)
        ensures
            c == (Color { r: 0i32, g: COLOR_UNIT, b: COLOR_UNIT }),
    {
        Color { r: 0, g: COLOR_UNIT, b: COLOR_UNIT }
    }

    pub fn magenta() -> (c: Color)
        ensures
            c == (Color { r: COLOR_UNIT, g: 0i32, b: COLOR_UNIT }),
    {
        Color { r: COLOR_UNIT, g: 0, b: COLOR_UNIT }
    }

    pub fn yellow() -> (c: Color)
        ensures
            c == (Color { r: COLOR_UNIT, g: COLOR_UNIT, b: 0i32 }),
    {
        Color { r: COLOR_UNIT, g: COLOR_UNIT, b: 0 }
    }

    /// Creates a color from a hue, starting at red for hue `0`, running once
    /// around the color wheel as the hue grows by `COLOR_UNIT`, and
    /// repeating from there; any hue, positive or negative, is accepted.
    pub fn from_hue(hue: i32) -> (c: Color)
        ensures
            c == from_hue_spec(hue as int),
    {
        let t6: i64 = (hue as i64) * 6;
        let six_units: i64 = 6 * (COLOR_UNIT as i64);
        proof {
            vstd::arithmetic::div_mod::lemma_mod_division_less_than_divisor(
                t6 as int,
                six_units as int,
            );
        }
        let phase64: i64 = match t6.checked_rem_euclid(six_units) {
            Some(p) => p,
            None => 0,  // unreachable: the divisor is positive
        };
        assert(phase64 == (6 * hue) % (6 * (COLOR_UNIT as int)));
        let phase: u32 = phase64 as u32;
        let seg: u32 = phase / (COLOR_UNIT as u32);
        let frac32: u32 = phase % (COLOR_UNIT as u32);
        let frac: i32 = frac32 as i32;
        proof {
            vstd::arithmetic::div_mod::lemma_mod_division_less_than_divisor(
                phase as int,
                COLOR_UNIT as int,
            );
            lemma_phase_breakdown(phase64 as int);
        }
        if seg == 0 {
            Color { r: COLOR_UNIT, g: frac, b: 0 }
        } else if seg == 1 {
            Color { r: COLOR_UNIT - frac, g: COLOR_UNIT, b: 0 }
        } else if seg == 2 {
            Color { r: 0, g: COLOR_UNIT, b: frac }
        } else if seg == 3 {
            Color { r: 0, g: COLOR_UNIT - frac, b: COLOR_UNIT }
        } else if seg == 4 {
            Color { r: frac, g: 0, b: COLOR_UNIT }
        } else {
            Color { r: COLOR_UNIT, g: 0, b: COLOR_UNIT - frac }
        }
    }

    /// A keyframe blend for devices without a blue channel: green at hue
    /// `0`, yellow at a quarter, red at a half, yellow at three quarters,
    /// and back to green — repeating with period `COLOR_UNIT`.
    pub fn red_green_color(hue: i32) -> (c: Color)
        ensures
            c.r == triangle_wave_spec(fract_spec(hue as int)),
            c.g == triangle_wave_spec(fract_spec(hue as int + (COLOR_UNIT as int) / 2)),
            c.b == 0,
    {
        let r = Self::triangle_wave(Self::fract64(hue as i64));
        let g = Self::triangle_wave(Self::fract64(hue as i64 + (COLOR_UNIT as i64) / 2));
        Color { r, g, b: 0 }
    }

    /// The sign-keeping fractional part of a fixed-point value.
    fn fract64(h: i64) -> (f: i32)
        requires
            i64::MIN < h,
        ensures
            f == fract_spec(h as int),
    {
        if h >= 0 {
            let m: i64 = h % (COLOR_UNIT as i64);
            m as i32
        } else {
            let m: i64 = (-h) % (COLOR_UNIT as i64);
            let f: i64 = -m;
            f as i32
        }
    }

    /// One evaluation of the triangle wave used by `red_green_color`.
    fn triangle_wave(x: i32) -> (w: i32)
        requires
            -(COLOR_UNIT as int) <= x <= COLOR_UNIT,
        ensures
            w == triangle_wave_spec(x as int),
    {
        if x < COLOR_UNIT / 4 {
            4 * x
        } else if x >= 3 * (COLOR_UNIT / 4) {
            4 * COLOR_UNIT - 4 * x
        } else {
            COLOR_UNIT
        }
    }

    /// Clamp to `0..=COLOR_UNIT` per component. When a component exceeds one
    /// unit, all three components are scaled down by the same factor first,
    /// so the color's hue is preserved, and negative components are clipped
    /// to zero.
    pub fn clamp(self) -> (c: Color)
        requires
            bounded(self, COLOR_BOUND as int),
        ensures
            c == clamp_spec(self),
            0 <= c.r <= COLOR_UNIT,
            0 <= c.g <= COLOR_UNIT,
            0 <= c.b <= COLOR_UNIT,
    {
        let m: i32 = if self.r >= self.g && self.r >= self.b {
            self.r
        } else if self.g >= self.b {
            self.g
        } else {
            self.b
        };
        let r = Self::clamp_component(self.r, m);
        let g = Self::clamp_component(self.g, m);
        let b = Self::clamp_component(self.b, m);
        Color { r, g, b }
    }

    fn clamp_component(c: i32, m: i32) -> (k: i32)
        requires
            -(COLOR_BOUND as int) <= c <= COLOR_BOUND,
            c <= m <= COLOR_BOUND,
        ensures
            k == clamp_component_spec(c as int, m as int),
            0 <= k <= COLOR_UNIT,
    {
        if c <= 0 {
            proof {
                if m > COLOR_UNIT as int {
                    assert((c as int) * (COLOR_UNIT as int) <= 0) by (nonlinear_arith)
                        requires
                            c <= 0 && COLOR_UNIT as int > 0,
                    ;
                    vstd::arithmetic::div_mod::lemma_div_is_ordered(
                        (c as int) * (COLOR_UNIT as int),
                        0,
                        m as int,
                    );
                    vstd::arithmetic::div_mod::lemma_div_of0(m as int);
                }
            }
            0
        } else if m > COLOR_UNIT {
            proof {
                assert((c as int) * (COLOR_UNIT as int) <= (COLOR_BOUND as int) * (
                COLOR_UNIT as int)) by (nonlinear_arith)
                    requires
                        0 < c <= COLOR_BOUND as int && COLOR_UNIT as int > 0,
                ;
                assert((c as int) * (COLOR_UNIT as int) <= (m as int) * (COLOR_UNIT as int))
                    by (nonlinear_arith)
                    requires
                        c <= m as int && COLOR_UNIT as int > 0,
                ;
            }
            let prod: u64 = (c as u64) * (COLOR_UNIT as u64);
            let q: u64 = prod / (m as u64);
            proof {
                assert((c as int) * (COLOR_UNIT as int) >= 0) by (nonlinear_arith)
                    requires
                        c >= 0 && COLOR_UNIT as int >= 0,
                ;
                vstd::arithmetic::div_mod::lemma_div_is_ordered(0, prod as int, m as int);
                vstd::arithmetic::div_mod::lemma_div_is_ordered(
                    prod as int,
                    (COLOR_UNIT as int) * (m as int),
                    m as int,
                );
                vstd::arithmetic::div_mod::lemma_div_by_multiple(COLOR_UNIT as int, m as int);
                assert((m as int) * (COLOR_UNIT as int) == (COLOR_UNIT as int) * (m as int))
                    by (nonlinear_arith);
            }
            q as i32
        } else {
            // the color is already within one unit; only the lower clip applies
            c
        }
    }

    /// Clamp, then scale each component from `0..=COLOR_UNIT` down to
    /// `0..range`, flooring and capping at `range - 1`. This is the single
    /// conversion point from display-space colors to a device's native
    /// color depth.
    pub fn quantize(self, range: u8) -> (q: (u8, u8, u8))
        requires
            range >= 1,
            bounded(self, COLOR_BOUND as int),
        ensures
            (q.0 as int, q.1 as int, q.2 as int) == quantize_spec(self, range as int),
            q.0 < range,
            q.1 < range,
            q.2 < range,
    {
        let k = self.clamp();
        (
            Self::quantize_component(k.r, range),
            Self::quantize_component(k.g, range),
            Self::quantize_component(k.b, range),
        )
    }

    fn quantize_component(c: i32, range: u8) -> (q: u8)
        requires
            range >= 1,
            0 <= c <= COLOR_UNIT,
        ensures
            q == quantize_component_spec(c as int, range as int),
            q < range,
    {
        proof {
            assert((c as int) * (range as int) <= (COLOR_UNIT as int) * (range as int))
                by (nonlinear_arith)
                requires
                    0 <= c <= COLOR_UNIT as int && range as int >= 0,
            ;
            assert((c as int) * (range as int) >= 0) by (nonlinear_arith)
                requires
                    c >= 0 && range as int >= 0,
            ;
        }
        let prod: u32 = (c as u32) * (range as u32);
        let q: u32 = prod / (COLOR_UNIT as u32);
        proof {
            vstd::arithmetic::div_mod::lemma_div_is_ordered(0, prod as int, COLOR_UNIT as int);
            vstd::arithmetic::div_mod::lemma_div_is_ordered(
                prod as int,
                (COLOR_UNIT as int) * (range as int),
                COLOR_UNIT as int,
            );
            vstd::arithmetic::div_mod::lemma_div_multiples_vanish(
                range as int,
                COLOR_UNIT as int,
            );
            assert((COLOR_UNIT as int) * (range as int) == (range as int) * (COLOR_UNIT as int))
                by (nonlinear_arith);
        }
        if q > range as u32 - 1 {
            range - 1
        } else {
            q as u8
        }
    }

    /// Mix two colors; `proportion_of_other` is the weight of `other` in
    /// fixed-point units of `1 / COLOR_UNIT` (so `COLOR_UNIT` means "all of
    /// `other`").
    pub fn mix(self, other: Color, proportion_of_other: i32) -> (c: Color)
        requires
            bounded(self, COLOR_BOUND as int),
            bounded(other, COLOR_BOUND as int),
            -(COLOR_BOUND as int) <= proportion_of_other <= COLOR_BOUND,
        ensures
            c.r == mix_component_spec(self.r as int, other.r as int, proportion_of_other as int),
            c.g == mix_component_spec(self.g as int, other.g as int, proportion_of_other as int),
            c.b == mix_component_spec(self.b as int, other.b as int, proportion_of_other as int),
    {
        let r = Self::mix_component(self.r, other.r, proportion_of_other);
        let g = Self::mix_component(self.g, other.g, proportion_of_other);
        let b = Self::mix_component(self.b, other.b, proportion_of_other);
        Color { r, g, b }
    }

    fn mix_component(s: i32, o: i32, p: i32) -> (k: i32)
        requires
            -(COLOR_BOUND as int) <= s <= COLOR_BOUND,
            -(COLOR_BOUND as int) <= o <= COLOR_BOUND,
            -(COLOR_BOUND as int) <= p <= COLOR_BOUND,
        ensures
            k == mix_component_spec(s as int, o as int, p as int),
    {
        proof {
            let bb = (COLOR_BOUND as int) * (COLOR_BOUND as int);
            assert(-bb <= (o as int) * (p as int) <= bb) by (nonlinear_arith)
                requires
                    bb == (COLOR_BOUND as int) * (COLOR_BOUND as int)
                        && -(COLOR_BOUND as int) <= o as int <= COLOR_BOUND as int
                        && -(COLOR_BOUND as int) <= p as int <= COLOR_BOUND as int,
            ;
            assert(-2 * bb <= (s as int) * ((COLOR_UNIT as int) - (p as int)) <= 2 * bb)
                by (nonlinear_arith)
                requires
                    bb == (COLOR_BOUND as int) * (COLOR_BOUND as int)
                        && -(COLOR_BOUND as int) <= s as int <= COLOR_BOUND as int
                        && -(COLOR_BOUND as int) <= p as int <= COLOR_BOUND as int
                        && 0 < COLOR_UNIT as int <= COLOR_BOUND as int,
            ;
        }
        let num: i64 = (o as i64) * (p as i64) + (s as i64) * ((COLOR_UNIT as i64) - (p as i64));
        let q: i64 = Self::div_floor(num, COLOR_UNIT as i64);
        q as i32
    }

    /// Floor division of a bounded signed value by a positive divisor,
    /// matching the Euclidean division of the contracts.
    pub(crate) fn div_floor(n: i64, d: i64) -> (q: i64)
        requires
            0 < d <= 0x1_0000_0000,
            -0x2000_0000_0000_0000 < n < 0x2000_0000_0000_0000,
        ensures
            q == n as int / d as int,
    {
        let big: u64 = 0x2000_0000_0000_0000;
        let j: u64 = big / (d as u64) + 1;
        proof {
            vstd::arithmetic::div_mod::lemma_fundamental_div_mod(big as int, d as int);
            vstd::arithmetic::div_mod::lemma_mod_division_less_than_divisor(
                big as int,
                d as int,
            );
            vstd::arithmetic::div_mod::lemma_div_is_ordered(0, big as int, d as int);
            vstd::arithmetic::div_mod::lemma_div_nonincreasing(big as int, d as int);
            assert((j as int) * (d as int) == (d as int) * ((j as int) - 1) + d as int)
                by (nonlinear_arith);
        }
        let jd: i64 = (j as i64) * d;
        let shifted: i64 = n + jd;
        let q: u64 = (shifted as u64) / (d as u64);
        proof {
            vstd::arithmetic::div_mod::lemma_hoist_over_denominator(
                n as int,
                j as int,
                d as nat,
            );
            assert((j as int) * (d as int) == (d as int) * (j as int)) by (nonlinear_arith);
            vstd::arithmetic::div_mod::lemma_div_is_ordered(0, shifted as int, d as int);
            vstd::arithmetic::div_mod::lemma_div_nonincreasing(shifted as int, d as int);
        }
        (q as i64) - (j as i64)
    }

    /// Componentwise sum of two colors.
    pub fn add(self, other: Color) -> (c: Color)
        requires
            i32::MIN <= self.r + other.r <= i32::MAX,
            i32::MIN <= self.g + other.g <= i32::MAX,
            i32::MIN <= self.b + other.b <= i32::MAX,
        ensures
            c.r == self.r + other.r,
            c.g == self.g + other.g,
            c.b == self.b + other.b,
    {
        Color { r: self.r + other.r, g: self.g + other.g, b: self.b + other.b }
    }

    /// Componentwise difference of two colors.
    pub fn sub(self, other: Color) -> (c: Color)
        requires
            i32::MIN <= self.r - other.r <= i32::MAX,
            i32::MIN <= self.g - other.g <= i32::MAX,
            i32::MIN <= self.b - other.b <= i32::MAX,
        ensures
            c.r == self.r - other.r,
            c.g == self.g - other.g,
            c.b == self.b - other.b,
    {
        Color { r: self.r - other.r, g: self.g - other.g, b: self.b - other.b }
    }

    /// Scale a color by a plain integer factor.
    pub fn scale(self, factor: i32) -> (c: Color)
        requires
            i32::MIN <= self.r * factor <= i32::MAX,
            i32::MIN <= self.g * factor <= i32::MAX,
            i32::MIN <= self.b * factor <= i32::MAX,
        ensures
            c.r == self.r * factor,
            c.g == self.g * factor,
            c.b == self.b * factor,
    {
        Color { r: self.r * factor, g: self.g * factor, b: self.b * factor }
    }

    /// Divide each component by a positive integer divisor, flooring.
    pub fn div_by(self, divisor: i32) -> (c: Color)
        requires
            divisor > 0,
        ensures
            c.r == self.r as int / divisor as int,
            c.g == self.g as int / divisor as int,
            c.b == self.b as int / divisor as int,
    {
        Color {
            r: Self::div_component(self.r, divisor),
            g: Self::div_component(self.g, divisor),
            b: Self::div_component(self.b, divisor),
        }
    }

    fn div_component(c: i32, divisor: i32) -> (k: i32)
        requires
            divisor > 0,
        ensures
            k == c as int / divisor as int,
    {
        let q: i64 = Self::div_floor(c as i64, divisor as i64);
        proof {
            if c >= 0 {
                vstd::arithmetic::div_mod::lemma_div_is_ordered(0, c as int, divisor as int);
                vstd::arithmetic::div_mod::lemma_div_nonincreasing(c as int, divisor as int);
            } else {
                vstd::arithmetic::div_mod::lemma_div_is_ordered(c as int, 0, divisor as int);
                vstd::arithmetic::div_mod::lemma_div_of0(divisor as int);
                lemma_div_floor_lower(c as int, divisor as int);
            }
        }
        q as i32
    }

    /// Componentwise negation.
    pub fn neg(self) -> (c: Color)
        requires
            self.r > i32::MIN,
            self.g > i32::MIN,
            self.b > i32::MIN,
        ensures
            c.r == -self.r,
            c.g == -self.g,
            c.b == -self.b,
    {
        Color { r: -self.r, g: -self.g, b: -self.b }
    }
}

impl Color {
    /// Sum a list of colors componentwise, starting from black.
    pub fn sum(colors: &Vec<Color>) -> (c: Color)
        requires
            colors@.len() <= 1024,
            forall|k: int|
                0 <= k < colors@.len() ==> bounded(#[trigger] colors@[k], COLOR_BOUND as int),
        ensures
            (c.r as int, c.g as int, c.b as int) == color_sum_spec(colors@),
    {
        let mut acc = Color { r: 0, g: 0, b: 0 };
        let n = colors.len();
        let mut k: usize = 0;
        while k < n
            invariant
                0 <= k <= n,
                n == colors@.len(),
                n <= 1024,
                forall|m: int|
                    0 <= m < colors@.len() ==> bounded(#[trigger] colors@[m], COLOR_BOUND as int),
                (acc.r as int, acc.g as int, acc.b as int) == color_sum_spec(
                    colors@.take(k as int),
                ),
                -(k as int) * (COLOR_BOUND as int) <= acc.r <= (k as int) * (COLOR_BOUND as int),
                -(k as int) * (COLOR_BOUND as int) <= acc.g <= (k as int) * (COLOR_BOUND as int),
                -(k as int) * (COLOR_BOUND as int) <= acc.b <= (k as int) * (COLOR_BOUND as int),
            decreases n - k,
        {
            let next = colors[k];
            proof {
                assert(colors@.take(k + 1).drop_last() =~= colors@.take(k as int));
                assert(colors@.take(k + 1).last() == colors@[k as int]);
            }
            acc = Color { r: acc.r + next.r, g: acc.g + next.g, b: acc.b + next.b };
            k = k + 1;
        }
        proof {
            assert(colors@.take(n as int) =~= colors@);
        }
        acc
    }
}

/// The fold of [`Color::add`] over a sequence, starting from black.
pub open spec fn color_sum_spec(s: Seq<Color>) -> (int, int, int)
    decreases s.len(),
{
    if s.len() == 0 {
        (0int, 0int, 0int)
    } else {
        let rest = color_sum_spec(s.drop_last());
        (rest.0 + s.last().r, rest.1 + s.last().g, rest.2 + s.last().b)
    }
}

/// Splitting a hue phase in `0..6*COLOR_UNIT` into its segment and its
/// position within the segment.
proof fn lemma_phase_breakdown(phase: int)
    requires
        0 <= phase < 6 * (COLOR_UNIT as int),
    ensures
        0 <= phase / (COLOR_UNIT as int) < 6,
        0 <= phase % (COLOR_UNIT as int) < COLOR_UNIT as int,
{
    vstd::arithmetic::div_mod::lemma_mod_division_less_than_divisor(phase, COLOR_UNIT as int);
    vstd::arithmetic::div_mod::lemma_div_is_ordered(0, phase, COLOR_UNIT as int);
    vstd::arithmetic::div_mod::lemma_div_of0(COLOR_UNIT as int);
    if phase / (COLOR_UNIT as int) >= 6 {
        vstd::arithmetic::div_mod::lemma_fundamental_div_mod(phase, COLOR_UNIT as int);
        assert((COLOR_UNIT as int) * (phase / (COLOR_UNIT as int)) >= (COLOR_UNIT as int) * 6)
            by (nonlinear_arith)
            requires
                phase / (COLOR_UNIT as int) >= 6 && COLOR_UNIT as int > 0,
        ;
    }
}

/// A negative value divided by a positive divisor can fall no further than
/// the value itself.
proof fn lemma_div_floor_lower(x: int, d: int)
    requires
        x < 0,
        d >= 1,
    ensures
        x / d >= x,
{
    assert(x * d <= x) by (nonlinear_arith)
        requires
            x < 0 && d >= 1,
    ;
    vstd::arithmetic::div_mod::lemma_div_is_ordered(x * d, x, d);
    vstd::arithmetic::div_mod::lemma_div_multiples_vanish(x, d);
    assert(x * d == d * x) by (nonlinear_arith);
}

/// The hue wheel closes: hue `0`, one full positive revolution, and one full
/// negative revolution all land exactly on red.
pub proof fn lemma_hue_wheel_closes()
    ensures
        from_hue_spec(0) == (Color { r: COLOR_UNIT, g: 0i32, b: 0i32 }),
        from_hue_spec(COLOR_UNIT as int) == (Color { r: COLOR_UNIT, g: 0i32, b: 0i32 }),
        from_hue_spec(-(COLOR_UNIT as int)) == (Color { r: COLOR_UNIT, g: 0i32, b: 0i32 }),
{
    let six_units = 6 * (COLOR_UNIT as int);
    vstd::arithmetic::div_mod::lemma_mod_multiples_basic(0, six_units);
    vstd::arithmetic::div_mod::lemma_mod_multiples_basic(1, six_units);
    vstd::arithmetic::div_mod::lemma_mod_multiples_basic(-1, six_units);
    assert(0 * six_units == 0) by (nonlinear_arith);
    assert(1 * six_units == six_units) by (nonlinear_arith);
    assert((-1) * six_units == -six_units) by (nonlinear_arith);
    vstd::arithmetic::div_mod::lemma_div_of0(COLOR_UNIT as int);
    vstd::arithmetic::div_mod::lemma_mod_multiples_basic(0, COLOR_UNIT as int);
    assert(0 * (COLOR_UNIT as int) == 0) by (nonlinear_arith);
}

/// Quantization is range-correct: for any color and any `range` in
/// `1..=255`, every quantized component lies in `0..range`.
pub proof fn lemma_quantize_range_correct(c: Color, range: int)
    requires
        1 <= range <= 255,
    ensures
        0 <= quantize_spec(c, range).0 < range,
        0 <= quantize_spec(c, range).1 < range,
        0 <= quantize_spec(c, range).2 < range,
{
    let m = max3(c.r as int, c.g as int, c.b as int);
    lemma_quantize_component_range(c.r as int, m, range);
    lemma_quantize_component_range(c.g as int, m, range);
    lemma_quantize_component_range(c.b as int, m, range);
}

proof fn lemma_quantize_component_range(c: int, m: int, range: int)
    requires
        1 <= range <= 255,
        c <= m,
    ensures
        0 <= quantize_component_spec(clamp_component_spec(c, m), range) < range,
{
    let k = clamp_component_spec(c, m);
    assert(0 <= k <= COLOR_UNIT);
    let q = (k * range) / (COLOR_UNIT as int);
    vstd::arithmetic::div_mod::lemma_div_is_ordered(0, k * range, COLOR_UNIT as int);
    assert(k * range >= 0) by (nonlinear_arith)
        requires
            k >= 0 && range >= 1,
    ;
    assert(q >= 0);
}

} // verus!
