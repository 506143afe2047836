//! The Minesweeper game on an 8 by 8 grid: mine generation, the flood
//! fill that uncovers empty regions, flag handling, and the win check.
//! The timing, lighting and audio around the game live with the caller;
//! this module is the game's rules.

use vstd::prelude::*;

use nanorand::Rng;

verus! {

/// Whether a coordinate pair occurs in a list of cells.
pub open spec fn has_cell(cells: Seq<(u8, u8)>, x: int, y: int) -> bool {
    exists|k: int| 0 <= k < cells.len() && cells[k] == ((x as u8), (y as u8))
}

/// Every listed cell lies on the 8 by 8 board.
pub open spec fn cells_in_board(cells: Seq<(u8, u8)>) -> bool {
    forall|k: int| 0 <= k < cells.len() ==> (#[trigger] cells[k]).0 <= 7 && cells[k].1 <= 7
}

/// No cell is listed twice.
pub open spec fn cells_distinct(cells: Seq<(u8, u8)>) -> bool {
    forall|i: int, j: int| 0 <= i < j < cells.len() ==> #[trigger] cells[i] != #[trigger] cells[j]
}

/// Whether some press record for the cell `(x, y)` carries `token`.
pub open spec fn has_press(pressed: Seq<(u8, u8, u64)>, x: int, y: int, token: u64) -> bool {
    exists|k: int|
        0 <= k < pressed.len() && (#[trigger] pressed[k]).0 == x && pressed[k].1 == y
            && pressed[k].2 == token
}

/// Whether any press record exists for the cell `(x, y)`.
pub open spec fn pressed_at(pressed: Seq<(u8, u8, u64)>, x: int, y: int) -> bool {
    exists|k: int|
        0 <= k < pressed.len() && (#[trigger] pressed[k]).0 == x && pressed[k].1 == y
}

/// No cell has two press records.
pub open spec fn press_cells_distinct(pressed: Seq<(u8, u8, u64)>) -> bool {
    forall|k: int, l: int|
        0 <= k < l < pressed.len() ==> !((#[trigger] pressed[k]).0 == (
        #[trigger] pressed[l]).0 && pressed[k].1 == pressed[l].1)
}

/// One if the board cell `(x, y)` exists and holds a mine.
pub open spec fn mine_at(mines: Seq<(u8, u8)>, x: int, y: int) -> int {
    if 0 <= x <= 7 && 0 <= y <= 7 && has_cell(mines, x, y) {
        1
    } else {
        0
    }
}

/// How many of the up to eight neighbors of `(x, y)` hold mines.
pub open spec fn neighbor_mine_count_spec(mines: Seq<(u8, u8)>, x: int, y: int) -> int {
    mine_at(mines, x - 1, y - 1) + mine_at(mines, x, y - 1) + mine_at(mines, x + 1, y - 1)
        + mine_at(mines, x - 1, y) + mine_at(mines, x + 1, y) + mine_at(mines, x - 1, y + 1)
        + mine_at(mines, x, y + 1) + mine_at(mines, x + 1, y + 1)
}

/// Every in-board neighbor of `(x, y)` (the cell's ring) is uncovered.
pub open spec fn ring_uncovered(uncovered: Seq<(u8, u8)>, x: int, y: int) -> bool {
    forall|i: int, j: int|
        0 <= i <= 7 && 0 <= j <= 7 && x - 1 <= i <= x + 1 && y - 1 <= j <= y + 1 ==> has_cell(
            uncovered,
            i,
            j,
        )
}

/// One entry of a reveal report: the cell's coordinates and its
/// neighbor-mine count.
pub open spec fn reveal_entry_ok(entry: (u8, u8, u8), cell: (u8, u8), mines: Seq<(u8, u8)>) -> bool {
    entry.0 == cell.0 && entry.1 == cell.1 && entry.2 == neighbor_mine_count_spec(
        mines,
        cell.0 as int,
        cell.1 as int,
    )
}

/// A cell stays in the uncovered list as the list grows at its end.
proof fn lemma_has_cell_grow(pre: Seq<(u8, u8)>, post: Seq<(u8, u8)>, x: int, y: int)
    requires
        post.len() >= pre.len(),
        forall|i: int| 0 <= i < pre.len() ==> post[i] == pre[i],
        has_cell(pre, x, y),
    ensures
        has_cell(post, x, y),
{
    let k = choose|k: int| 0 <= k < pre.len() && pre[k] == ((x as u8), (y as u8));
    assert(post[k] == pre[k]);
}

/// A complete ring stays complete as the uncovered list grows at its end.
proof fn lemma_ring_grow(pre: Seq<(u8, u8)>, post: Seq<(u8, u8)>, x: int, y: int)
    requires
        post.len() >= pre.len(),
        forall|i: int| 0 <= i < pre.len() ==> post[i] == pre[i],
        ring_uncovered(pre, x, y),
    ensures
        ring_uncovered(post, x, y),
{
    assert forall|i: int, j: int|
        0 <= i <= 7 && 0 <= j <= 7 && x - 1 <= i <= x + 1 && y - 1 <= j <= y + 1 implies
        has_cell(post, i, j) by {
        lemma_has_cell_grow(pre, post, i, j);
    }
}

/// An 8 by 8 board holds at most 63 distinct cells once one board cell
/// is left out.
proof fn lemma_board_capacity(cells: Seq<(u8, u8)>, x: int, y: int)
    requires
        cells_in_board(cells),
        cells_distinct(cells),
        0 <= x <= 7,
        0 <= y <= 7,
        !has_cell(cells, x, y),
    ensures
        cells.len() <= 63,
{
    broadcast use vstd::set::group_set_axioms;
    broadcast use vstd::seq_lib::seq_to_set_is_finite;

    let codes = Seq::new(cells.len(), |k: int| cells[k].0 as int * 8 + cells[k].1 as int);
    assert(codes.no_duplicates()) by {
        assert forall|i: int, j: int|
            0 <= i < codes.len() && 0 <= j < codes.len() && i != j implies #[trigger] codes[i]
            != #[trigger] codes[j] by {
            if i < j {
                assert(cells[i] != cells[j]);
            } else {
                assert(cells[j] != cells[i]);
            }
        }
    }
    codes.unique_seq_to_set();
    let target = vstd::set_lib::set_int_range(0, 64).remove(8 * x + y);
    vstd::set_lib::lemma_int_range(0, 64);
    assert(codes.to_set().subset_of(target)) by {
        assert forall|e: int| codes.to_set().contains(e) implies target.contains(e) by {
            let k = choose|k: int| 0 <= k < codes.len() && codes[k] == e;
            assert(cells[k] != ((x as u8), (y as u8)));
            assert(codes[k] != 8 * x + y);
        }
    }
    assert(vstd::set_lib::set_int_range(0, 64).contains(8 * x + y));
    assert(target.len() == 63);
    vstd::set_lib::lemma_len_subset(codes.to_set(), target);
}

/// Draw a uniformly random number below `bound`.
///
/// Relies on the outside pseudorandom source's ranged draw, which returns
/// a value of the half-open range it is given. Nothing further can be
/// promised of a random value.
#[verifier::external_body]
fn random_below(bound: usize) -> (r: usize)
    requires
        bound >= 1,
    ensures
        r < bound,
{
    nanorand::tls_rng().generate_range(0..bound)
}

/// Whether a cell occurs in a list.
fn contains_cell(cells: &Vec<(u8, u8)>, x: u8, y: u8) -> (r: bool)
    ensures
        r == has_cell(cells@, x as int, y as int),
{
    let n = cells.len();
    let mut k: usize = 0;
    while k < n
        invariant
            0 <= k <= n,
            n == cells@.len(),
            forall|m: int| 0 <= m < k ==> cells@[m] != ((x, y)),
        decreases n - k,
    {
        let (cx, cy) = cells[k];
        if cx == x && cy == y {
            return true;
        }
        k = k + 1;
    }
    false
}

/// Generate `n` distinct mine coordinates on the 8 by 8 board, drawing
/// from the random source: each mine is picked uniformly from the cells
/// that are still free.
pub fn generate_mines(n: u8) -> (mines: Vec<(u8, u8)>)
    requires
        n <= 64,
    ensures
        mines@.len() == n,
        cells_in_board(mines@),
        cells_distinct(mines@),
{
    // lay out all 64 cells, then repeatedly draw one of the remaining
    // free cells
    let mut free: Vec<(u8, u8)> = Vec::new();
    let mut x: u8 = 0;
    while x < 8
        invariant
            0 <= x <= 8,
            free@.len() == 8 * x,
            cells_in_board(free@),
            forall|m: int| 0 <= m < free@.len() ==> (#[trigger] free@[m]).0 < x,
            cells_distinct(free@),
        decreases 8 - x,
    {
        let mut y: u8 = 0;
        while y < 8
            invariant
                0 <= y <= 8,
                0 <= x < 8,
                free@.len() == 8 * x + y as int,
                cells_in_board(free@),
                forall|m: int|
                    0 <= m < free@.len() ==> (#[trigger] free@[m]).0 < x || (free@[m].0 == x
                        && free@[m].1 < y),
                cells_distinct(free@),
            decreases 8 - y,
        {
            free.push((x, y));
            y = y + 1;
        }
        x = x + 1;
    }
    let mut mines: Vec<(u8, u8)> = Vec::new();
    let mut picked: u8 = 0;
    while picked < n
        invariant
            0 <= picked <= n,
            n <= 64,
            mines@.len() == picked as int,
            free@.len() == 64 - picked as int,
            cells_in_board(mines@),
            cells_in_board(free@),
            cells_distinct(mines@),
            cells_distinct(free@),
            forall|i: int, j: int|
                0 <= i < mines@.len() && 0 <= j < free@.len() ==> #[trigger] mines@[i]
                    != #[trigger] free@[j],
        decreases n - picked,
    {
        let ghost pre_free = free@;
        proof {
            assert(pre_free == free@);
            assert(cells_distinct(pre_free)) by {
                assert forall|i: int, j: int|
                    0 <= i < j < pre_free.len() implies #[trigger] pre_free[i]
                    != #[trigger] pre_free[j] by {
                    assert(pre_free[i] == free@[i] && pre_free[j] == free@[j]);
                    assert(free@[i] != free@[j]);
                }
            }
            assert(cells_in_board(pre_free)) by {
                assert forall|k: int|
                    0 <= k < pre_free.len() implies (#[trigger] pre_free[k]).0 <= 7
                    && pre_free[k].1 <= 7 by {
                    assert(pre_free[k] == free@[k]);
                    assert(free@[k].0 <= 7 && free@[k].1 <= 7);
                }
            }
            assert forall|i: int, j: int|
                0 <= i < mines@.len() && 0 <= j < pre_free.len() implies #[trigger] mines@[i]
                    != #[trigger] pre_free[j] by {
                assert(pre_free[j] == free@[j]);
                assert(mines@[i] != free@[j]);
            }
        }
        let idx = random_below(free.len());
        let cell = free.swap_remove(idx);
        proof {
            assert(cell == pre_free[idx as int]);
            assert forall|j: int| 0 <= j < free@.len() implies #[trigger] free@[j] == (if j
                == idx as int {
                pre_free[pre_free.len() - 1]
            } else {
                pre_free[j]
            }) by {}
            assert(cells_in_board(free@)) by {
                assert forall|j: int|
                    0 <= j < free@.len() implies (#[trigger] free@[j]).0 <= 7 && free@[j].1
                    <= 7 by {
                    if j == idx as int {
                        assert(pre_free[pre_free.len() - 1].0 <= 7);
                    } else {
                        assert(pre_free[j].0 <= 7);
                    }
                }
            }
            assert(cells_distinct(free@)) by {
                assert forall|i: int, j: int|
                    0 <= i < j < free@.len() implies #[trigger] free@[i] != #[trigger] free@[j]
                    by {
                    let pi: int = if i == idx as int {
                        pre_free.len() - 1
                    } else {
                        i
                    };
                    let pj: int = if j == idx as int {
                        pre_free.len() - 1
                    } else {
                        j
                    };
                    assert(free@[i] == pre_free[pi] && free@[j] == pre_free[pj]);
                    assert(cells_distinct(pre_free));
                    assert(0 <= pi < pre_free.len());
                    assert(0 <= pj < pre_free.len());
                    assert(pi != pj);
                    if pi < pj {
                        assert(pre_free[pi] != pre_free[pj]);
                    } else {
                        assert(pre_free[pj] != pre_free[pi]);
                    }
                }
            }
            assert forall|j: int| 0 <= j < free@.len() implies cell != #[trigger] free@[j] by {
                let pj: int = if j == idx as int {
                    pre_free.len() - 1
                } else {
                    j
                };
                assert(free@[j] == pre_free[pj]);
                if (idx as int) < pj {
                    assert(pre_free[idx as int] != pre_free[pj]);
                } else if pj < (idx as int) {
                    assert(pre_free[pj] != pre_free[idx as int]);
                }
            }
            assert forall|i: int, j: int|
                0 <= i < mines@.push(cell).len() && 0 <= j < free@.len() implies #[trigger] (
            mines@.push(cell)[i]) != #[trigger] (free@[j]) by {
                if i < mines@.len() {
                    let pj: int = if j == idx as int {
                        pre_free.len() - 1
                    } else {
                        j
                    };
                    assert(free@[j] == pre_free[pj]);
                    assert(mines@[i] != pre_free[pj]);
                }
            }
            assert(cells_distinct(mines@.push(cell))) by {
                assert forall|i: int| 0 <= i < mines@.len() implies #[trigger] mines@[i]
                    != cell by {
                    assert(mines@[i] != pre_free[idx as int]);
                }
            }
        }
        mines.push(cell);
        picked = picked + 1;
    }
    mines
}

/// The state of one Minesweeper game: the mines, the uncovered and
/// flagged cells, the press bookkeeping of the hold-to-flag gesture, and
/// the win flag.
pub struct Game {
    /// The mine coordinates.
    pub mines: Vec<(u8, u8)>,
    /// The cells uncovered so far, in the order they were revealed.
    pub uncovered: Vec<(u8, u8)>,
    /// The cells currently flagged.
    pub flagged: Vec<(u8, u8)>,
    /// The currently pressed cells, each with the token of the press that
    /// started it.
    pub pressed: Vec<(u8, u8, u64)>,
    /// How many cells are still covered; the invariant ties it to the
    /// uncovered list.
    pub covered_count: u8,
    /// Set when the game has been won; a won game ignores further input.
    pub won: bool,
}

impl Game {
    /// The game's internal invariant: the books are consistent and no
    /// cell is uncovered twice.
    pub closed spec fn wf(&self) -> bool {
        &&& self.mines@.len() <= 64
        &&& cells_in_board(self.mines@)
        &&& cells_distinct(self.mines@)
        &&& cells_in_board(self.uncovered@)
        &&& cells_distinct(self.uncovered@)
        &&& cells_distinct(self.flagged@)
        &&& press_cells_distinct(self.pressed@)
        &&& self.covered_count as int == 64 - self.uncovered@.len()
    }

    /// The uncovered cells, for contracts.
    pub open spec fn spec_uncovered(&self) -> Seq<(u8, u8)> {
        self.uncovered@
    }

    /// Start a game with the given mines and everything covered.
    pub fn new(mines: Vec<(u8, u8)>) -> (g: Game)
        requires
            mines@.len() <= 64,
            cells_in_board(mines@),
            cells_distinct(mines@),
        ensures
            g.wf(),
            g.mines == mines,
            g.spec_uncovered().len() == 0,
            !g.won,
    {
        Game {
            mines,
            uncovered: Vec::new(),
            flagged: Vec::new(),
            pressed: Vec::new(),
            covered_count: 64,
            won: false,
        }
    }

    /// How many of the neighbors of `(x, y)` hold mines.
    pub fn neighbor_mine_count(&self, x: u8, y: u8) -> (r: u8)
        requires
            x <= 7,
            y <= 7,
        ensures
            r == neighbor_mine_count_spec(self.mines@, x as int, y as int),
            r <= 8,
    {
        let mut count: u8 = 0;
        if x >= 1 && y >= 1 && contains_cell(&self.mines, x - 1, y - 1) {
            count = count + 1;
        }
        if y >= 1 && contains_cell(&self.mines, x, y - 1) {
            count = count + 1;
        }
        if x < 7 && y >= 1 && contains_cell(&self.mines, x + 1, y - 1) {
            count = count + 1;
        }
        if x >= 1 && contains_cell(&self.mines, x - 1, y) {
            count = count + 1;
        }
        if x < 7 && contains_cell(&self.mines, x + 1, y) {
            count = count + 1;
        }
        if x >= 1 && y < 7 && contains_cell(&self.mines, x - 1, y + 1) {
            count = count + 1;
        }
        if y < 7 && contains_cell(&self.mines, x, y + 1) {
            count = count + 1;
        }
        if x < 7 && y < 7 && contains_cell(&self.mines, x + 1, y + 1) {
            count = count + 1;
        }
        count
    }

    /// Whether `(x, y)` holds a mine.
    pub fn is_mine(&self, x: u8, y: u8) -> (r: bool)
        ensures
            r == has_cell(self.mines@, x as int, y as int),
    {
        contains_cell(&self.mines, x, y)
    }

    /// Whether `(x, y)` has been uncovered.
    pub fn is_uncovered(&self, x: u8, y: u8) -> (r: bool)
        ensures
            r == has_cell(self.uncovered@, x as int, y as int),
    {
        contains_cell(&self.uncovered, x, y)
    }

    /// Uncover `(x, y)` and, when no mine borders it, flood outwards: the
    /// whole connected zero-count region and its rim are revealed, cell
    /// by cell, and no cell is ever revealed twice. The returned list
    /// holds each newly revealed cell with its neighbor-mine count, in
    /// reveal order.
    pub fn uncover(&mut self, x: u8, y: u8) -> (revealed: Vec<(u8, u8, u8)>)
        requires
            old(self).wf(),
            x <= 7,
            y <= 7,
        ensures
            final(self).wf(),
            final(self).mines == old(self).mines,
            final(self).flagged == old(self).flagged,
            final(self).pressed == old(self).pressed,
            final(self).won == old(self).won,
            // the reveal only grows the uncovered list
            final(self).spec_uncovered().len() >= old(self).spec_uncovered().len(),
            forall|i: int|
                0 <= i < old(self).spec_uncovered().len() ==> final(self).spec_uncovered()[i]
                    == old(self).spec_uncovered()[i],
            // the target cell ends uncovered
            has_cell(final(self).spec_uncovered(), x as int, y as int),
            // an empty cell drags its whole neighborhood along
            (neighbor_mine_count_spec(old(self).mines@, x as int, y as int) == 0 && !has_cell(
                old(self).spec_uncovered(),
                x as int,
                y as int,
            )) ==> (forall|i: int, j: int|
                0 <= i <= 7 && 0 <= j <= 7 && i >= x - 1 && i <= x + 1 && j >= y - 1 && j <= y
                    + 1 ==> has_cell(final(self).spec_uncovered(), i, j)),
            // the flood reaches closure: every newly revealed cell that
            // borders no mine ends with its whole ring revealed, so the
            // reveal covers the connected empty region and its rim
            forall|i: int, j: int|
                0 <= i <= 7 && 0 <= j <= 7 && !has_cell(old(self).spec_uncovered(), i, j)
                    && has_cell(final(self).spec_uncovered(), i, j)
                    && neighbor_mine_count_spec(old(self).mines@, i, j) == 0 ==> ring_uncovered(
                    final(self).spec_uncovered(),
                    i,
                    j,
                ),
            // the report lists exactly the newly revealed cells, in
            // reveal order, each with its neighbor-mine count
            revealed@.len() == final(self).spec_uncovered().len() - old(
                self,
            ).spec_uncovered().len(),
            forall|k: int|
                0 <= k < revealed@.len() ==> reveal_entry_ok(
                    #[trigger] revealed@[k],
                    final(self).spec_uncovered()[old(self).spec_uncovered().len() + k],
                    old(self).mines@,
                ),
        decreases old(self).covered_count,
    {
        if self.is_uncovered(x, y) {
            return Vec::new();
        }
        if self.covered_count == 0 {
            proof {
                // cannot happen while the books are consistent: a full
                // uncovered list already holds every cell, yet the
                // target cell is still covered
                lemma_board_capacity(self.uncovered@, x as int, y as int);
            }
            return Vec::new();  // unreachable
        }
        let count = self.neighbor_mine_count(x, y);
        self.uncovered.push((x, y));
        self.covered_count = self.covered_count - 1;
        proof {
            let u = self.uncovered@;
            assert(u[u.len() - 1] == ((x, y)));
            assert(has_cell(u, x as int, y as int));
            assert(cells_in_board(u)) by {
                assert forall|k: int| 0 <= k < u.len() implies (#[trigger] u[k]).0 <= 7
                    && u[k].1 <= 7 by {
                    if k < u.len() - 1 {
                        assert(old(self).uncovered@[k].0 <= 7 && old(self).uncovered@[k].1 <= 7);
                    }
                }
            }
            assert(cells_distinct(u)) by {
                assert forall|i: int, j: int| 0 <= i < j < u.len() implies #[trigger] u[i]
                    != #[trigger] u[j] by {
                    if j == u.len() - 1 {
                        assert(u[i] == old(self).uncovered@[i]);
                        assert(old(self).uncovered@[i] != ((x, y)));
                    } else {
                        assert(old(self).uncovered@[i] != old(self).uncovered@[j]);
                    }
                }
            }
        }
        let mut revealed: Vec<(u8, u8, u8)> = Vec::new();
        revealed.push((x, y, count));
        if count == 0 {
            let mut dy: u8 = 0;
            while dy < 3
                invariant
                    0 <= dy <= 3,
                    x <= 7,
                    y <= 7,
                    self.wf(),
                    self.mines == old(self).mines,
                    self.flagged == old(self).flagged,
                    self.pressed == old(self).pressed,
                    self.won == old(self).won,
                    self.covered_count < old(self).covered_count,
                    self.spec_uncovered().len() > old(self).spec_uncovered().len(),
                    forall|i: int|
                        0 <= i < old(self).spec_uncovered().len() ==> self.spec_uncovered()[i]
                            == old(self).spec_uncovered()[i],
                    has_cell(self.spec_uncovered(), x as int, y as int),
                    forall|i: int, j: int|
                        0 <= i <= 7 && 0 <= j <= 7 && i >= x - 1 && i <= x + 1 && j >= y - 1
                            && j < y - 1 + dy ==> has_cell(self.spec_uncovered(), i, j),
                    forall|i: int, j: int|
                        0 <= i <= 7 && 0 <= j <= 7 && !has_cell(
                            old(self).spec_uncovered(),
                            i,
                            j,
                        ) && has_cell(self.spec_uncovered(), i, j) && !(i == x as int && j
                            == y as int) && neighbor_mine_count_spec(old(self).mines@, i, j)
                            == 0 ==> ring_uncovered(self.spec_uncovered(), i, j),
                    revealed@.len() == self.spec_uncovered().len() - old(
                        self,
                    ).spec_uncovered().len(),
                    forall|k: int|
                        0 <= k < revealed@.len() ==> reveal_entry_ok(
                            #[trigger] revealed@[k],
                            self.spec_uncovered()[old(self).spec_uncovered().len() + k],
                            old(self).mines@,
                        ),
                decreases 3 - dy,
            {
                let ny: i16 = (y as i16) - 1 + (dy as i16);
                if 0 <= ny && ny <= 7 {
                    let mut dx: u8 = 0;
                    while dx < 3
                        invariant
                            0 <= dx <= 3,
                            0 <= dy < 3,
                            x <= 7,
                            y <= 7,
                            ny == y as int - 1 + dy as int,
                            0 <= ny <= 7,
                            self.wf(),
                            self.mines == old(self).mines,
                            self.flagged == old(self).flagged,
                            self.pressed == old(self).pressed,
                            self.won == old(self).won,
                            self.covered_count < old(self).covered_count,
                            self.spec_uncovered().len() > old(self).spec_uncovered().len(),
                            forall|i: int|
                                0 <= i < old(self).spec_uncovered().len() ==> self
                                    .spec_uncovered()[i] == old(self).spec_uncovered()[i],
                            has_cell(self.spec_uncovered(), x as int, y as int),
                            forall|i: int, j: int|
                                0 <= i <= 7 && 0 <= j <= 7 && i >= x - 1 && i <= x + 1 && j >= y
                                    - 1 && j < y - 1 + dy ==> has_cell(
                                    self.spec_uncovered(),
                                    i,
                                    j,
                                ),
                            forall|i: int|
                                0 <= i <= 7 && i >= x - 1 && i < x - 1 + dx ==> has_cell(
                                    self.spec_uncovered(),
                                    i,
                                    ny as int,
                                ),
                            forall|i: int, j: int|
                                0 <= i <= 7 && 0 <= j <= 7 && !has_cell(
                                    old(self).spec_uncovered(),
                                    i,
                                    j,
                                ) && has_cell(self.spec_uncovered(), i, j) && !(i == x as int && j
                                    == y as int) && neighbor_mine_count_spec(old(self).mines@, i, j)
                                    == 0 ==> ring_uncovered(self.spec_uncovered(), i, j),
                            revealed@.len() == self.spec_uncovered().len() - old(
                                self,
                            ).spec_uncovered().len(),
                            forall|k: int|
                                0 <= k < revealed@.len() ==> reveal_entry_ok(
                                    #[trigger] revealed@[k],
                                    self.spec_uncovered()[old(self).spec_uncovered().len() + k],
                                    old(self).mines@,
                                ),
                        decreases 3 - dx,
                    {
                        let nx: i16 = (x as i16) - 1 + (dx as i16);
                        if 0 <= nx && nx <= 7 {
                            let ghost pre = *self;
                            let more = self.uncover(nx as u8, ny as u8);
                            proof {
                                assert forall|i: int, j: int|
                                    0 <= i <= 7 && 0 <= j <= 7 && i >= x - 1 && i <= x + 1 && j
                                        >= y - 1 && j < y - 1 + dy implies has_cell(
                                    self.spec_uncovered(),
                                    i,
                                    j,
                                ) by {
                                    lemma_has_cell_grow(
                                        pre.spec_uncovered(),
                                        self.spec_uncovered(),
                                        i,
                                        j,
                                    );
                                }
                                assert forall|i: int|
                                    0 <= i <= 7 && i >= x - 1 && i < x - 1 + dx + 1 implies
                                    has_cell(self.spec_uncovered(), i, ny as int) by {
                                    if i < x - 1 + dx {
                                        lemma_has_cell_grow(
                                            pre.spec_uncovered(),
                                            self.spec_uncovered(),
                                            i,
                                            ny as int,
                                        );
                                    }
                                }
                                assert(has_cell(self.spec_uncovered(), x as int, y as int)) by {
                                    lemma_has_cell_grow(
                                        pre.spec_uncovered(),
                                        self.spec_uncovered(),
                                        x as int,
                                        y as int,
                                    );
                                }
                                assert forall|i: int, j: int|
                                    0 <= i <= 7 && 0 <= j <= 7 && !has_cell(
                                        old(self).spec_uncovered(),
                                        i,
                                        j,
                                    ) && has_cell(self.spec_uncovered(), i, j) && !(i == x as int
                                        && j == y as int) && neighbor_mine_count_spec(
                                        old(self).mines@,
                                        i,
                                        j,
                                    ) == 0 implies ring_uncovered(
                                    self.spec_uncovered(),
                                    i,
                                    j,
                                ) by {
                                    if has_cell(pre.spec_uncovered(), i, j) {
                                        // revealed before this step: its ring
                                        // was already complete and stays so
                                        lemma_ring_grow(
                                            pre.spec_uncovered(),
                                            self.spec_uncovered(),
                                            i,
                                            j,
                                        );
                                    }
                                    // otherwise this very step revealed it,
                                    // and the step's own closure applies
                                }
                            }
                            let ghost pre_rev = revealed@;
                            let mut m: usize = 0;
                            let more_len = more.len();
                            while m < more_len
                                invariant
                                    0 <= m <= more_len,
                                    more_len == more@.len(),
                                    revealed@ == pre_rev + more@.take(m as int),
                                decreases more_len - m,
                            {
                                revealed.push(more[m]);
                                proof {
                                    assert(revealed@ =~= pre_rev + more@.take(m as int + 1));
                                }
                                m = m + 1;
                            }
                            proof {
                                assert(revealed@ =~= pre_rev + more@);
                                assert forall|k: int|
                                    0 <= k < revealed@.len() implies reveal_entry_ok(
                                    #[trigger] revealed@[k],
                                    self.spec_uncovered()[old(self).spec_uncovered().len() + k],
                                    old(self).mines@,
                                ) by {
                                    if k < pre_rev.len() {
                                        // an earlier report entry: its cell
                                        // sits below the pre-call length and
                                        // stayed put through the call
                                        assert(revealed@[k] == pre_rev[k]);
                                        assert(self.spec_uncovered()[old(
                                            self,
                                        ).spec_uncovered().len() + k] == pre.spec_uncovered()[old(
                                            self,
                                        ).spec_uncovered().len() + k]);
                                    } else {
                                        // an entry the call just reported
                                        assert(revealed@[k] == more@[k - pre_rev.len()]);
                                        assert(reveal_entry_ok(
                                            more@[k - pre_rev.len()],
                                            self.spec_uncovered()[pre.spec_uncovered().len() + (k
                                                - pre_rev.len())],
                                            pre.mines@,
                                        ));
                                    }
                                }
                            }
                        }
                        dx = dx + 1;
                    }
                }
                dy = dy + 1;
            }
            proof {
                assert(ring_uncovered(self.spec_uncovered(), x as int, y as int));
            }
        }
        revealed
    }

    /// Record a press at `(x, y)` with the given token, replacing any
    /// earlier press of the cell; a later hold timer toggles the flag
    /// only if this exact press is still current.
    pub fn press(&mut self, x: u8, y: u8, token: u64)
        requires
            old(self).wf(),
        ensures
            final(self).wf(),
            final(self).mines == old(self).mines,
            final(self).uncovered == old(self).uncovered,
            final(self).flagged == old(self).flagged,
            final(self).won == old(self).won,
            has_press(final(self).pressed@, x as int, y as int, token),
            forall|t: u64|
                t != token ==> !has_press(final(self).pressed@, x as int, y as int, t),
            forall|i: int, j: int, t: u64|
                !(i == x as int && j == y as int) ==> has_press(final(self).pressed@, i, j, t)
                    == has_press(old(self).pressed@, i, j, t),
    {
        let _previous = self.remove_pressed(x, y);
        let ghost cleared = self.pressed@;
        self.pressed.push((x, y, token));
        proof {
            assert(self.pressed@[self.pressed@.len() - 1] == ((x, y, token)));
            assert forall|i: int, j: int, t: u64|
                !(i == x as int && j == y as int) implies has_press(self.pressed@, i, j, t)
                == has_press(cleared, i, j, t) by {
                if has_press(cleared, i, j, t) {
                    let k = choose|k: int|
                        0 <= k < cleared.len() && (#[trigger] cleared[k]).0 == i
                            && cleared[k].1 == j && cleared[k].2 == t;
                    assert(self.pressed@[k] == cleared[k]);
                }
                if has_press(self.pressed@, i, j, t) {
                    let k = choose|k: int|
                        0 <= k < self.pressed@.len() && (#[trigger] self.pressed@[k]).0 == i
                            && self.pressed@[k].1 == j && self.pressed@[k].2 == t;
                    if k == cleared.len() {
                        assert(self.pressed@[k] == ((x, y, token)));
                    } else {
                        assert(cleared[k] == self.pressed@[k]);
                    }
                }
            }
            assert forall|t: u64|
                t != token implies !has_press(self.pressed@, x as int, y as int, t) by {
                if has_press(self.pressed@, x as int, y as int, t) {
                    let k = choose|k: int|
                        0 <= k < self.pressed@.len() && (#[trigger] self.pressed@[k]).0
                            == x as int && self.pressed@[k].1 == y as int
                            && self.pressed@[k].2 == t;
                    assert(k < cleared.len());
                    assert(cleared[k] == self.pressed@[k]);
                    assert(pressed_at(cleared, x as int, y as int));
                }
            }
            assert forall|k: int, l: int|
                0 <= k < l < self.pressed@.len() implies !((#[trigger] self.pressed@[k]).0 == (
                #[trigger] self.pressed@[l]).0 && self.pressed@[k].1 == self.pressed@[l].1) by {
                if l == self.pressed@.len() - 1 {
                    assert(self.pressed@[k] == cleared[k]);
                    if self.pressed@[k].0 == x && self.pressed@[k].1 == y {
                        assert(pressed_at(cleared, x as int, y as int));
                    }
                } else {
                    assert(self.pressed@[k] == cleared[k]);
                    assert(self.pressed@[l] == cleared[l]);
                }
            }
        }
    }

    /// Drop the press record of `(x, y)`, reporting the token it carried.
    fn remove_pressed(&mut self, x: u8, y: u8) -> (r: Option<u64>)
        requires
            press_cells_distinct(old(self).pressed@),
        ensures
            final(self).mines == old(self).mines,
            final(self).uncovered == old(self).uncovered,
            final(self).flagged == old(self).flagged,
            final(self).won == old(self).won,
            final(self).covered_count == old(self).covered_count,
            press_cells_distinct(final(self).pressed@),
            (r is None) == !pressed_at(old(self).pressed@, x as int, y as int),
            r matches Some(t) ==> has_press(old(self).pressed@, x as int, y as int, t),
            !pressed_at(final(self).pressed@, x as int, y as int),
            forall|i: int, j: int, t: u64|
                !(i == x as int && j == y as int) ==> has_press(final(self).pressed@, i, j, t)
                    == has_press(old(self).pressed@, i, j, t),
    {
        let n = self.pressed.len();
        let mut k: usize = 0;
        while k < n
            invariant
                0 <= k <= n,
                n == self.pressed@.len(),
                self == old(self),
                press_cells_distinct(old(self).pressed@),
                forall|m: int|
                    0 <= m < k ==> !((#[trigger] self.pressed@[m]).0 == x
                        && self.pressed@[m].1 == y),
            decreases n - k,
        {
            let (px, py, token) = self.pressed[k];
            if px == x && py == y {
                let ghost pre = self.pressed@;
                proof {
                    assert forall|m: int|
                        0 <= m < k as int implies !((#[trigger] pre[m]).0 == x && pre[m].1
                        == y) by {
                        assert(pre[m] == self.pressed@[m]);
                    }
                    assert(pre[k as int].0 == x && pre[k as int].1 == y);
                    assert(press_cells_distinct(pre)) by {
                        assert forall|a: int, b: int|
                            0 <= a < b < pre.len() implies !((#[trigger] pre[a]).0 == (
                            #[trigger] pre[b]).0 && pre[a].1 == pre[b].1) by {
                            assert(pre[a] == old(self).pressed@[a]);
                            assert(pre[b] == old(self).pressed@[b]);
                        }
                    }
                }
                self.pressed.remove(k);
                proof {
                    assert(self.pressed@ == pre.remove(k as int));
                    assert forall|m: int|
                        0 <= m < self.pressed@.len() implies #[trigger] self.pressed@[m] == (
                        if m < k as int {
                            pre[m]
                        } else {
                            pre[m + 1]
                        }) by {}
                    assert(!pressed_at(self.pressed@, x as int, y as int)) by {
                        if pressed_at(self.pressed@, x as int, y as int) {
                            let m = choose|m: int|
                                0 <= m < self.pressed@.len() && (
                                #[trigger] self.pressed@[m]).0 == x as int
                                    && self.pressed@[m].1 == y as int;
                            if m < k as int {
                                assert(!(pre[m].0 == x && pre[m].1 == y));
                            } else {
                                assert(!(pre[k as int].0 == pre[m + 1].0 && pre[k as int].1
                                    == pre[m + 1].1));
                            }
                        }
                    }
                    assert forall|i: int, j: int, t: u64|
                        !(i == x as int && j == y as int) implies has_press(
                        self.pressed@,
                        i,
                        j,
                        t,
                    ) == has_press(pre, i, j, t) by {
                        if has_press(pre, i, j, t) {
                            let m = choose|m: int|
                                0 <= m < pre.len() && (#[trigger] pre[m]).0 == i && pre[m].1
                                    == j && pre[m].2 == t;
                            if m < k as int {
                                assert(self.pressed@[m] == pre[m]);
                            } else {
                                assert(m != k as int);
                                assert(self.pressed@[m - 1] == pre[m]);
                            }
                        }
                        if has_press(self.pressed@, i, j, t) {
                            let m = choose|m: int|
                                0 <= m < self.pressed@.len() && (
                                #[trigger] self.pressed@[m]).0 == i && self.pressed@[m].1 == j
                                    && self.pressed@[m].2 == t;
                            if m < k as int {
                                assert(pre[m] == self.pressed@[m]);
                            } else {
                                assert(pre[m + 1] == self.pressed@[m]);
                            }
                        }
                    }
                    assert forall|a: int, b: int|
                        0 <= a < b < self.pressed@.len() implies !((
                        #[trigger] self.pressed@[a]).0 == (#[trigger] self.pressed@[b]).0
                            && self.pressed@[a].1 == self.pressed@[b].1) by {
                        let pa: int = if a < k as int {
                            a
                        } else {
                            a + 1
                        };
                        let pb: int = if b < k as int {
                            b
                        } else {
                            b + 1
                        };
                        assert(self.pressed@[a] == pre[pa]);
                        assert(self.pressed@[b] == pre[pb]);
                        assert(!(pre[pa].0 == pre[pb].0 && pre[pa].1 == pre[pb].1));
                    }
                }
                return Some(token);
            }
            k = k + 1;
        }
        None
    }

    /// The hold timer fired for the press with this token: when that
    /// exact press is still current, the cell's flag toggles and the
    /// press is consumed; a press that was already released (or replaced
    /// by a newer one) leaves everything as it was. Reports whether the
    /// flag is now set.
    pub fn hold_fired(&mut self, x: u8, y: u8, token: u64) -> (r: Option<bool>)
        requires
            old(self).wf(),
        ensures
            final(self).wf(),
            final(self).mines == old(self).mines,
            final(self).uncovered == old(self).uncovered,
            final(self).won == old(self).won,
            (r is Some) == has_press(old(self).pressed@, x as int, y as int, token),
            r is None ==> final(self).pressed == old(self).pressed && final(self).flagged
                == old(self).flagged,
            r matches Some(toggled_on) ==> toggled_on == !has_cell(
                old(self).flagged@,
                x as int,
                y as int,
            ) && has_cell(final(self).flagged@, x as int, y as int) == toggled_on
                && !pressed_at(final(self).pressed@, x as int, y as int),
            forall|i: int, j: int|
                0 <= i <= 255 && 0 <= j <= 255 && !(i == x as int && j == y as int)
                    ==> has_cell(final(self).flagged@, i, j) == has_cell(
                    old(self).flagged@,
                    i,
                    j,
                ),
            forall|i: int, j: int, t: u64|
                !(i == x as int && j == y as int) ==> has_press(final(self).pressed@, i, j, t)
                    == has_press(old(self).pressed@, i, j, t),
    {
        if self.find_pressed(x, y, token).is_none() {
            return None;
        }
        let _token = self.remove_pressed(x, y);
        if contains_cell(&self.flagged, x, y) {
            let _removed = self.remove_flag(x, y);
            Some(false)
        } else {
            let ghost pre_flags = self.flagged@;
            self.flagged.push((x, y));
            proof {
                assert(self.flagged@[self.flagged@.len() - 1] == ((x, y)));
                assert forall|a: int, b: int|
                    0 <= a < b < self.flagged@.len() implies #[trigger] self.flagged@[a]
                    != #[trigger] self.flagged@[b] by {
                    if b == self.flagged@.len() - 1 {
                        assert(self.flagged@[a] == pre_flags[a]);
                        if self.flagged@[a] == ((x, y)) {
                            assert(has_cell(pre_flags, x as int, y as int));
                        }
                    } else {
                        assert(self.flagged@[a] == pre_flags[a]);
                        assert(self.flagged@[b] == pre_flags[b]);
                    }
                }
                assert forall|i: int, j: int|
                    0 <= i <= 255 && 0 <= j <= 255 && !(i == x as int && j == y as int)
                    implies has_cell(self.flagged@, i, j) == has_cell(pre_flags, i, j) by {
                    if has_cell(pre_flags, i, j) {
                        let m = choose|m: int|
                            0 <= m < pre_flags.len() && pre_flags[m] == (((i as u8), (
                            j as u8)));
                        assert(self.flagged@[m] == pre_flags[m]);
                    }
                    if has_cell(self.flagged@, i, j) {
                        let m = choose|m: int|
                            0 <= m < self.flagged@.len() && self.flagged@[m] == (((i as u8), (
                            j as u8)));
                        if m == self.flagged@.len() - 1 {
                            assert(self.flagged@[m] == ((x, y)));
                        } else {
                            assert(pre_flags[m] == self.flagged@[m]);
                        }
                    }
                }
            }
            Some(true)
        }
    }

    /// The index of the press record carrying this exact token.
    fn find_pressed(&self, x: u8, y: u8, token: u64) -> (r: Option<usize>)
        ensures
            r matches Some(i) ==> i < self.pressed@.len() && self.pressed@[i as int] == ((
            x,
            y,
            token,
            )),
            (r is None) == !has_press(self.pressed@, x as int, y as int, token),
    {
        let n = self.pressed.len();
        let mut k: usize = 0;
        while k < n
            invariant
                0 <= k <= n,
                n == self.pressed@.len(),
                forall|m: int| 0 <= m < k ==> #[trigger] self.pressed@[m] != ((x, y, token)),
            decreases n - k,
        {
            let (px, py, ptoken) = self.pressed[k];
            if px == x && py == y && ptoken == token {
                return Some(k);
            }
            k = k + 1;
        }
        None
    }

    /// Drop the flag at `(x, y)`.
    fn remove_flag(&mut self, x: u8, y: u8) -> (r: bool)
        requires
            cells_distinct(old(self).flagged@),
        ensures
            final(self).mines == old(self).mines,
            final(self).uncovered == old(self).uncovered,
            final(self).pressed == old(self).pressed,
            final(self).won == old(self).won,
            final(self).covered_count == old(self).covered_count,
            cells_distinct(final(self).flagged@),
            r == has_cell(old(self).flagged@, x as int, y as int),
            !has_cell(final(self).flagged@, x as int, y as int),
            forall|i: int, j: int|
                0 <= i <= 255 && 0 <= j <= 255 && !(i == x as int && j == y as int)
                    ==> has_cell(final(self).flagged@, i, j) == has_cell(
                    old(self).flagged@,
                    i,
                    j,
                ),
    {
        let n = self.flagged.len();
        let mut k: usize = 0;
        while k < n
            invariant
                0 <= k <= n,
                n == self.flagged@.len(),
                self == old(self),
                cells_distinct(old(self).flagged@),
                forall|m: int| 0 <= m < k ==> #[trigger] self.flagged@[m] != ((x, y)),
            decreases n - k,
        {
            let (px, py) = self.flagged[k];
            if px == x && py == y {
                let ghost pre = self.flagged@;
                proof {
                    assert forall|m: int| 0 <= m < k as int implies #[trigger] pre[m] != ((
                    x,
                    y,
                    )) by {
                        assert(pre[m] == self.flagged@[m]);
                    }
                    assert(pre[k as int] == ((x, y)));
                    assert(cells_distinct(pre)) by {
                        assert forall|a: int, b: int|
                            0 <= a < b < pre.len() implies #[trigger] pre[a]
                            != #[trigger] pre[b] by {
                            assert(pre[a] == old(self).flagged@[a]);
                            assert(pre[b] == old(self).flagged@[b]);
                        }
                    }
                }
                self.flagged.remove(k);
                proof {
                    assert(self.flagged@ == pre.remove(k as int));
                    assert forall|m: int|
                        0 <= m < self.flagged@.len() implies #[trigger] self.flagged@[m] == (
                        if m < k as int {
                            pre[m]
                        } else {
                            pre[m + 1]
                        }) by {}
                    assert(!has_cell(self.flagged@, x as int, y as int)) by {
                        if has_cell(self.flagged@, x as int, y as int) {
                            let m = choose|m: int|
                                0 <= m < self.flagged@.len() && self.flagged@[m] == ((x, y));
                            if m < k as int {
                                assert(pre[m] != ((x, y)));
                            } else {
                                assert(pre[k as int] != pre[m + 1]);
                            }
                        }
                    }
                    assert forall|i: int, j: int|
                        0 <= i <= 255 && 0 <= j <= 255 && !(i == x as int && j == y as int)
                        implies has_cell(self.flagged@, i, j) == has_cell(pre, i, j) by {
                        if has_cell(pre, i, j) {
                            let m = choose|m: int|
                                0 <= m < pre.len() && pre[m] == (((i as u8), (j as u8)));
                            if m < k as int {
                                assert(self.flagged@[m] == pre[m]);
                            } else {
                                assert(m != k as int);
                                assert(self.flagged@[m - 1] == pre[m]);
                            }
                        }
                        if has_cell(self.flagged@, i, j) {
                            let m = choose|m: int|
                                0 <= m < self.flagged@.len() && self.flagged@[m] == (((i as u8), (
                                j as u8)));
                            if m < k as int {
                                assert(pre[m] == self.flagged@[m]);
                            } else {
                                assert(pre[m + 1] == self.flagged@[m]);
                            }
                        }
                    }
                    assert forall|a: int, b: int|
                        0 <= a < b < self.flagged@.len() implies #[trigger] self.flagged@[a]
                        != #[trigger] self.flagged@[b] by {
                        let pa: int = if a < k as int {
                            a
                        } else {
                            a + 1
                        };
                        let pb: int = if b < k as int {
                            b
                        } else {
                            b + 1
                        };
                        assert(self.flagged@[a] == pre[pa]);
                        assert(self.flagged@[b] == pre[pb]);
                        assert(pre[pa] != pre[pb]);
                    }
                }
                return true;
            }
            k = k + 1;
        }
        proof {
            assert(!has_cell(self.flagged@, x as int, y as int)) by {
                if has_cell(self.flagged@, x as int, y as int) {
                    let m = choose|m: int|
                        0 <= m < self.flagged@.len() && self.flagged@[m] == ((x, y));
                }
            }
        }
        false
    }

    /// Whether every cell except the mines has been uncovered.
    pub fn all_clear(&self) -> (r: bool)
        requires
            self.wf(),
        ensures
            r == (self.spec_uncovered().len() == 64 - self.mines@.len()),
    {
        self.uncovered.len() == 64 - self.mines.len()
    }
}

/// What a release at a cell means for the caller.
#[derive(Debug, Clone)]
pub enum ReleaseOutcome {
    /// The press had already been consumed (for example by a flag
    /// toggle); nothing happens.
    Ignored,
    /// A mine was released: the game is lost and every mine should pulse.
    Mine,
    /// Safe cells were revealed; `won` reports whether that cleared the
    /// board.
    Uncovered { revealed: Vec<(u8, u8, u8)>, won: bool },
}

impl Game {
    /// Handle the release of `(x, y)`: nothing when the game is won or
    /// the press was already consumed; a loss exactly when the pressed
    /// cell holds a mine; a reveal (with the win check) otherwise.
    pub fn release(&mut self, x: u8, y: u8) -> (r: ReleaseOutcome)
        requires
            old(self).wf(),
            x <= 7,
            y <= 7,
        ensures
            final(self).wf(),
            final(self).mines == old(self).mines,
            final(self).flagged == old(self).flagged,
            old(self).won ==> r == ReleaseOutcome::Ignored && *final(self) == *old(self),
            !old(self).won ==> ((r == ReleaseOutcome::Ignored) == !pressed_at(
                old(self).pressed@,
                x as int,
                y as int,
            )),
            !old(self).won ==> !pressed_at(final(self).pressed@, x as int, y as int),
            (r == ReleaseOutcome::Mine) == (!old(self).won && pressed_at(
                old(self).pressed@,
                x as int,
                y as int,
            ) && has_cell(old(self).mines@, x as int, y as int)),
            (r is Uncovered) == (!old(self).won && pressed_at(
                old(self).pressed@,
                x as int,
                y as int,
            ) && !has_cell(old(self).mines@, x as int, y as int)),
            r == ReleaseOutcome::Ignored || r == ReleaseOutcome::Mine ==> final(self).uncovered
                == old(self).uncovered,
            r matches ReleaseOutcome::Uncovered { revealed, won } ==> won == (final(self).spec_uncovered().len() == 64
                - final(self).mines@.len()) && has_cell(
                final(self).spec_uncovered(),
                x as int,
                y as int,
            ) && final(self).won == won,
    {
        if self.won {
            return ReleaseOutcome::Ignored;
        }
        let pressed = self.remove_pressed(x, y);
        if pressed.is_none() {
            return ReleaseOutcome::Ignored;
        }
        if self.is_mine(x, y) {
            return ReleaseOutcome::Mine;
        }
        let revealed = self.uncover(x, y);
        let won = self.all_clear();
        if won {
            self.won = true;
        }
        ReleaseOutcome::Uncovered { revealed, won }
    }
}

} // verus!
