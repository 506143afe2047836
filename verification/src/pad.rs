use vstd::prelude::*;

verus! {

/// A 2-D point that represents a single pad on a grid of pads. For
/// convenience, the coordinates can be negative; whether a pad actually
/// lies on a given canvas is a per-canvas question.
#[derive(Copy, Clone, PartialEq, Eq, Debug, Hash, Structural)]
pub struct Pad {
    pub x: i32,
    pub y: i32,
}

impl Pad {
    /// A copy of this pad, moved upwards by `steps`.
    pub fn up(self, steps: i32) -> (p: Pad)
        requires
            i32::MIN <= self.y - steps <= i32::MAX,
        ensures
            p.x == self.x,
            p.y == self.y - steps,
    {
        Pad { x: self.x, y: self.y - steps }
    }

    /// A copy of this pad, moved downwards by `steps`.
    pub fn down(self, steps: i32) -> (p: Pad)
        requires
            i32::MIN <= self.y + steps <= i32::MAX,
        ensures
            p.x == self.x,
            p.y == self.y + steps,
    {
        Pad { x: self.x, y: self.y + steps }
    }

    /// A copy of this pad, moved left by `steps`.
    pub fn left(self, steps: i32) -> (p: Pad)
        requires
            i32::MIN <= self.x - steps <= i32::MAX,
        ensures
            p.x == self.x - steps,
            p.y == self.y,
    {
        Pad { x: self.x - steps, y: self.y }
    }

    /// A copy of this pad, moved right by `steps`.
    pub fn right(self, steps: i32) -> (p: Pad)
        requires
            i32::MIN <= self.x + steps <= i32::MAX,
        ensures
            p.x == self.x + steps,
            p.y == self.y,
    {
        Pad { x: self.x + steps, y: self.y }
    }

    /// A copy of this pad, moved by the given offset.
    pub fn offset(self, dx: i32, dy: i32) -> (p: Pad)
        requires
            i32::MIN <= self.x + dx <= i32::MAX,
            i32::MIN <= self.y + dy <= i32::MAX,
        ensures
            p.x == self.x + dx,
            p.y == self.y + dy,
    {
        Pad { x: self.x + dx, y: self.y + dy }
    }

    /// The four orthogonal neighbors of this pad, clockwise starting up.
    pub fn neighbors_4(self) -> (r: Vec<Pad>)
        requires
            i32::MIN < self.x < i32::MAX,
            i32::MIN < self.y < i32::MAX,
        ensures
            r@ == seq![
                (Pad { x: self.x, y: (self.y - 1) as i32 }),
                (Pad { x: (self.x + 1) as i32, y: self.y }),
                (Pad { x: self.x, y: (self.y + 1) as i32 }),
                (Pad { x: (self.x - 1) as i32, y: self.y }),
            ],
    {
        let r = vec![self.up(1), self.right(1), self.down(1), self.left(1)];
        proof {
            assert(r@ =~= seq![
                (Pad { x: self.x, y: (self.y - 1) as i32 }),
                (Pad { x: (self.x + 1) as i32, y: self.y }),
                (Pad { x: self.x, y: (self.y + 1) as i32 }),
                (Pad { x: (self.x - 1) as i32, y: self.y }),
            ]);
        }
        r
    }

    /// This pad itself followed by its four orthogonal neighbors.
    pub fn neighbors_5(self) -> (r: Vec<Pad>)
        requires
            i32::MIN < self.x < i32::MAX,
            i32::MIN < self.y < i32::MAX,
        ensures
            r@ == seq![
                self,
                (Pad { x: self.x, y: (self.y - 1) as i32 }),
                (Pad { x: (self.x + 1) as i32, y: self.y }),
                (Pad { x: self.x, y: (self.y + 1) as i32 }),
                (Pad { x: (self.x - 1) as i32, y: self.y }),
            ],
    {
        let r = vec![self, self.up(1), self.right(1), self.down(1), self.left(1)];
        proof {
            assert(r@ =~= seq![
                self,
                (Pad { x: self.x, y: (self.y - 1) as i32 }),
                (Pad { x: (self.x + 1) as i32, y: self.y }),
                (Pad { x: self.x, y: (self.y + 1) as i32 }),
                (Pad { x: (self.x - 1) as i32, y: self.y }),
            ]);
        }
        r
    }

    /// The eight surrounding neighbors of this pad, clockwise starting up.
    pub fn neighbors_8(self) -> (r: Vec<Pad>)
        requires
            i32::MIN < self.x < i32::MAX,
            i32::MIN < self.y < i32::MAX,
        ensures
            r@.len() == 8,
            r@[0] == (Pad { x: self.x, y: (self.y - 1) as i32 }),
            r@[1] == (Pad { x: (self.x + 1) as i32, y: (self.y - 1) as i32 }),
            r@[2] == (Pad { x: (self.x + 1) as i32, y: self.y }),
            r@[3] == (Pad { x: (self.x + 1) as i32, y: (self.y + 1) as i32 }),
            r@[4] == (Pad { x: self.x, y: (self.y + 1) as i32 }),
            r@[5] == (Pad { x: (self.x - 1) as i32, y: (self.y + 1) as i32 }),
            r@[6] == (Pad { x: (self.x - 1) as i32, y: self.y }),
            r@[7] == (Pad { x: (self.x - 1) as i32, y: (self.y - 1) as i32 }),
    {
        vec![
            self.up(1),
            self.up(1).right(1),
            self.right(1),
            self.right(1).down(1),
            self.down(1),
            self.down(1).left(1),
            self.left(1),
            self.left(1).up(1),
        ]
    }

    /// This pad itself followed by its eight surrounding neighbors.
    pub fn neighbors_9(self) -> (r: Vec<Pad>)
        requires
            i32::MIN < self.x < i32::MAX,
            i32::MIN < self.y < i32::MAX,
        ensures
            r@.len() == 9,
            r@[0] == self,
            r@[1] == (Pad { x: self.x, y: (self.y - 1) as i32 }),
            r@[2] == (Pad { x: (self.x + 1) as i32, y: (self.y - 1) as i32 }),
            r@[3] == (Pad { x: (self.x + 1) as i32, y: self.y }),
            r@[4] == (Pad { x: (self.x + 1) as i32, y: (self.y + 1) as i32 }),
            r@[5] == (Pad { x: self.x, y: (self.y + 1) as i32 }),
            r@[6] == (Pad { x: (self.x - 1) as i32, y: (self.y + 1) as i32 }),
            r@[7] == (Pad { x: (self.x - 1) as i32, y: self.y }),
            r@[8] == (Pad { x: (self.x - 1) as i32, y: (self.y - 1) as i32 }),
    {
        vec![
            self,
            self.up(1),
            self.up(1).right(1),
            self.right(1),
            self.right(1).down(1),
            self.down(1),
            self.down(1).left(1),
            self.left(1),
            self.left(1).up(1),
        ]
    }

    /// The coordinates as an unsigned pair, when both are non-negative.
    pub fn to_u32(self) -> (r: Option<(u32, u32)>)
        ensures
            r == if self.x >= 0 && self.y >= 0 {
                Some((self.x as u32, self.y as u32))
            } else {
                Option::<(u32, u32)>::None
            },
    {
        if self.x >= 0 && self.y >= 0 {
            Some((self.x as u32, self.y as u32))
        } else {
            None
        }
    }

    /// Wrap the pad around the edges of a `width` by `height` rectangle,
    /// by Euclidean modulo on both axes.
    pub fn wrap_edges(self, width: u32, height: u32) -> (p: Pad)
        requires
            1 <= width <= i32::MAX,
            1 <= height <= i32::MAX,
        ensures
            p.x == self.x as int % width as int,
            p.y == self.y as int % height as int,
            0 <= p.x < width,
            0 <= p.y < height,
    {
        proof {
            vstd::arithmetic::div_mod::lemma_mod_division_less_than_divisor(
                self.x as int,
                width as int,
            );
            vstd::arithmetic::div_mod::lemma_mod_division_less_than_divisor(
                self.y as int,
                height as int,
            );
        }
        let x: i32 = match self.x.checked_rem_euclid(width as i32) {
            Some(v) => v,
            None => 0,  // unreachable: the divisor is positive
        };
        let y: i32 = match self.y.checked_rem_euclid(height as i32) {
            Some(v) => v,
            None => 0,  // unreachable: the divisor is positive
        };
        Pad { x, y }
    }
}

} // verus!
