//! A small bounds-checked 2-D buffer, used internally wherever a component
//! needs its own private grid of cells.

use vstd::prelude::*;

verus! {

/// A fixed-size, row-major flat grid addressed by `(x, y)`.
pub struct Array2d<T> {
    width: u32,
    height: u32,
    vec: Vec<T>,
}

impl<T: Copy> Array2d<T> {
    /// The backing storage holds exactly one cell per coordinate.
    pub closed spec fn wf(&self) -> bool {
        self.vec@.len() == (self.width as int) * (self.height as int)
    }

    /// The cell stored at `(x, y)`.
    pub closed spec fn at(&self, x: int, y: int) -> T {
        self.vec@[y * (self.width as int) + x]
    }

    pub closed spec fn spec_width(&self) -> u32 {
        self.width
    }

    pub closed spec fn spec_height(&self) -> u32 {
        self.height
    }

    /// `true` when `(x, y)` addresses a cell of the grid.
    pub open spec fn in_bounds(&self, x: int, y: int) -> bool {
        0 <= x < self.spec_width() as int && 0 <= y < self.spec_height() as int
    }

    /// Create a grid of the given size with every cell set to `fill`.
    pub fn new(width: u32, height: u32, fill: T) -> (a: Array2d<T>)
        requires
            (width as int) * (height as int) <= u32::MAX as int,
        ensures
            a.wf(),
            a.spec_width() == width,
            a.spec_height() == height,
            forall|x: int, y: int| a.in_bounds(x, y) ==> a.at(x, y) == fill,
    {
        proof {
            lemma_cell_count(width as int, height as int);
        }
        let n: usize = (width as usize) * (height as usize);
        let mut vec: Vec<T> = Vec::new();
        let mut i: usize = 0;
        while i < n
            invariant
                i <= n,
                vec.len() == i,
                n == (width as int) * (height as int),
                forall|k: int| 0 <= k < i ==> vec[k] == fill,
            decreases n - i,
        {
            vec.push(fill);
            i = i + 1;
        }
        let a = Array2d { width, height, vec };
        proof {
            assert forall|x: int, y: int| a.in_bounds(x, y) implies a.at(x, y) == fill by {
                lemma_row_major_index(x, y, width as int, height as int);
            }
        }
        a
    }

    /// The cell at `(x, y)`, or nothing when the coordinate is out of
    /// bounds.
    pub fn get(&self, x: u32, y: u32) -> (r: Option<T>)
        requires
            self.wf(),
        ensures
            r == if self.in_bounds(x as int, y as int) {
                Some(self.at(x as int, y as int))
            } else {
                Option::<T>::None
            },
    {
        if x < self.width && y < self.height {
            proof {
                lemma_row_major_index(x as int, y as int, self.width as int, self.height as int);
                vstd::std_specs::vec::axiom_spec_len(&self.vec);
            }
            let idx: usize = (y as usize) * (self.width as usize) + (x as usize);
            Some(self.vec[idx])
        } else {
            None
        }
    }

    /// A mutable reference to the cell at `(x, y)`, which must be in
    /// bounds.
    pub fn get_mut(&mut self, x: u32, y: u32) -> (element: &mut T)
        requires
            old(self).wf(),
            old(self).in_bounds(x as int, y as int),
        ensures
            *element == old(self).at(x as int, y as int),
            final(self).wf(),
            final(self).spec_width() == old(self).spec_width(),
            final(self).spec_height() == old(self).spec_height(),
            final(self).at(x as int, y as int) == *final(element),
            forall|i: int, j: int|
                old(self).in_bounds(i, j) && !(i == x as int && j == y as int) ==> final(self).at(
                    i,
                    j,
                ) == old(self).at(i, j),
    {
        let ghost w = self.spec_width() as int;
        let ghost h = self.spec_height() as int;
        proof {
            lemma_row_major_index(x as int, y as int, w, h);
            vstd::std_specs::vec::axiom_spec_len(&self.vec);
            assert forall|i: int, j: int|
                #[trigger] self.in_bounds(i, j) && !(i == x as int && j == y as int) implies j * w
                + i != (y as int) * w + (x as int) && 0 <= j * w + i < w * h by {
                lemma_row_major_index(i, j, w, h);
                lemma_row_major_injective(i, j, x as int, y as int, w);
            }
        }
        let idx: usize = (y as usize) * (self.width as usize) + (x as usize);
        &mut self.vec[idx]
    }

    /// Overwrite the cell at `(x, y)`; reports whether the coordinate was
    /// in bounds (out-of-bounds writes change nothing).
    pub fn set(&mut self, x: u32, y: u32, value: T) -> (r: bool)
        requires
            old(self).wf(),
        ensures
            r == old(self).in_bounds(x as int, y as int),
            final(self).wf(),
            final(self).spec_width() == old(self).spec_width(),
            final(self).spec_height() == old(self).spec_height(),
            r ==> final(self).at(x as int, y as int) == value,
            forall|i: int, j: int|
                old(self).in_bounds(i, j) && !(i == x as int && j == y as int) ==> final(self).at(
                    i,
                    j,
                ) == old(self).at(i, j),
    {
        if x < self.width && y < self.height {
            let cell = self.get_mut(x, y);
            *cell = value;
            true
        } else {
            false
        }
    }

    /// An identical copy of the grid.
    pub fn duplicate(&self) -> (r: Array2d<T>)
        requires
            self.wf(),
        ensures
            r.wf(),
            r.spec_width() == self.spec_width(),
            r.spec_height() == self.spec_height(),
            forall|i: int, j: int| r.in_bounds(i, j) ==> r.at(i, j) == self.at(i, j),
    {
        let mut vec: Vec<T> = Vec::new();
        let n: usize = self.vec.len();
        let mut i: usize = 0;
        while i < n
            invariant
                n == self.vec@.len(),
                0 <= i <= n,
                vec@.len() == i,
                forall|k: int| 0 <= k < i ==> vec@[k] == self.vec@[k],
            decreases n - i,
        {
            vec.push(self.vec[i]);
            i = i + 1;
        }
        let r = Array2d { width: self.width, height: self.height, vec };
        proof {
            assert forall|i: int, j: int| r.in_bounds(i, j) implies r.at(i, j) == self.at(
                i,
                j,
            ) by {
                lemma_row_major_index(i, j, r.spec_width() as int, r.spec_height() as int);
            }
        }
        r
    }

    pub fn width(&self) -> (r: u32)
        ensures
            r == self.spec_width(),
    {
        self.width
    }

    pub fn height(&self) -> (r: u32)
        ensures
            r == self.spec_height(),
    {
        self.height
    }
}

/// A row-major index lands inside the backing storage.
proof fn lemma_row_major_index(x: int, y: int, width: int, height: int)
    requires
        0 <= x < width,
        0 <= y < height,
    ensures
        0 <= y * width + x < width * height,
{
    assert(y * width + x < width * height) by (nonlinear_arith)
        requires
            0 <= x < width && 0 <= y < height,
    ;
    assert(y * width >= 0) by (nonlinear_arith)
        requires
            y >= 0 && width >= 0,
    ;
}

/// Distinct coordinates have distinct row-major indices.
proof fn lemma_row_major_injective(i: int, j: int, x: int, y: int, width: int)
    requires
        0 <= i < width,
        0 <= x < width,
        0 <= j,
        0 <= y,
        !(i == x && j == y),
    ensures
        j * width + i != y * width + x,
{
    if j == y {
        assert(j * width + i != y * width + x);
    } else {
        assert(j * width + i != y * width + x) by (nonlinear_arith)
            requires
                0 <= i < width && 0 <= x < width && j != y,
        ;
    }
}

/// The cell count of a grid stays within the index type.
proof fn lemma_cell_count(width: int, height: int)
    requires
        0 <= width,
        0 <= height,
        width * height <= u32::MAX as int,
    ensures
        width * height >= 0,
{
    assert(width * height >= 0) by (nonlinear_arith)
        requires
            width >= 0 && height >= 0,
    ;
}

} // verus!
