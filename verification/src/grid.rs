use vstd::prelude::*;

use crate::cell::Coord;
use crate::cell_state::CellState;

verus! {

/// Largest allowed value for the `width` and `height` of a grid, so
/// that all index arithmetic stays comfortably within machine bounds.
pub const MAX_DIM: i32 = 1000;

/// A store mapping every coordinate of the rectangular domain
/// 0 <= x <= width, 0 <= y <= height to a cell state: a
/// (width + 1) x (height + 1) grid kept in row-major order.
/// Every coordinate of the domain has exactly one entry and no entry
/// exists outside the domain.
pub struct Grid {
    pub width: i32,
    pub height: i32,
    pub cells: Vec<CellState>,
}

impl Grid {
    /// Whether (x, y) lies within the grid's domain.
    pub open spec fn in_domain(self, x: int, y: int) -> bool {
        0 <= x <= self.width && 0 <= y <= self.height
    }

    /// Row-major position of (x, y) in the backing vector.
    pub open spec fn idx(self, x: int, y: int) -> int {
        y * (self.width + 1) + x
    }

    /// Well-formedness: bounded dimensions and one entry per domain
    /// coordinate.
    pub open spec fn wf(self) -> bool {
        &&& 0 <= self.width <= MAX_DIM
        &&& 0 <= self.height <= MAX_DIM
        &&& self.cells@.len() == (self.width + 1) * (self.height + 1)
    }

    /// Whether the cell at (x, y) is alive; false everywhere outside
    /// the domain, so missing neighbors contribute nothing to counts.
    pub open spec fn alive_at(self, x: int, y: int) -> bool {
        self.in_domain(x, y) && self.cells@[self.idx(x, y)].is_alive
    }

    /// 1 if the cell at (x, y) is alive, else 0.
    pub open spec fn alive_as_int(self, x: int, y: int) -> int {
        if self.alive_at(x, y) {
            1
        } else {
            0
        }
    }

    /// How many of the eight neighbors of (x, y) are alive, reading
    /// only this grid; off-domain neighbors count as dead.
    pub open spec fn neighbor_count(self, x: int, y: int) -> int {
        self.alive_as_int(x - 1, y - 1) + self.alive_as_int(x, y - 1) + self.alive_as_int(
            x + 1,
            y - 1,
        ) + self.alive_as_int(x - 1, y) + self.alive_as_int(x + 1, y) + self.alive_as_int(
            x - 1,
            y + 1,
        ) + self.alive_as_int(x, y + 1) + self.alive_as_int(x + 1, y + 1)
    }

    /// The exact, unmodified Conway rule: a live cell survives with 2
    /// or 3 live neighbors, a dead cell is born with exactly 3.
    pub open spec fn next_alive(cur: bool, neighbors: int) -> bool {
        if cur {
            neighbors == 2 || neighbors == 3
        } else {
            neighbors == 3
        }
    }

    /// What `get` returns: the cell's state inside the domain, `None`
    /// outside it.
    pub open spec fn get_spec(self, x: int, y: int) -> Option<CellState> {
        if self.in_domain(x, y) {
            Some(self.cells@[self.idx(x, y)])
        } else {
            None
        }
    }

    /// Equality of grids as stores: the same domain and the same
    /// cell entry at every position.
    pub open spec fn same_grid(g1: Grid, g2: Grid) -> bool {
        &&& g1.width == g2.width
        &&& g1.height == g2.height
        &&& g1.cells@ == g2.cells@
    }

    /// `post` is the generation that follows `pre`: same domain, and
    /// every cell's new state is the Conway rule applied to its old
    /// state and its old live-neighbor count, read entirely from
    /// `pre` (simultaneous update).
    pub open spec fn is_step_of(pre: Grid, post: Grid) -> bool {
        &&& post.width == pre.width
        &&& post.height == pre.height
        &&& post.cells@.len() == pre.cells@.len()
        &&& forall|x: int, y: int| #![trigger post.alive_at(x, y)]
            post.alive_at(x, y) == (pre.in_domain(x, y) && Grid::next_alive(
                pre.alive_at(x, y),
                pre.neighbor_count(x, y),
            ))
    }
}

/// Row-major positions of domain coordinates stay within the backing
/// vector.
pub proof fn lemma_idx_bounds(w: int, h: int, x: int, y: int)
    requires
        0 <= x <= w,
        0 <= y <= h,
    ensures
        0 <= y * (w + 1) + x < (w + 1) * (h + 1),
{
    assert(0 <= y * (w + 1) + x < (w + 1) * (h + 1)) by (nonlinear_arith)
        requires
            0 <= x <= w,
            0 <= y <= h,
    ;
}

/// Distinct domain coordinates occupy distinct row-major positions.
pub proof fn lemma_idx_injective(w: int, x1: int, y1: int, x2: int, y2: int)
    requires
        0 <= x1 <= w,
        0 <= x2 <= w,
        0 <= y1,
        0 <= y2,
        !(x1 == x2 && y1 == y2),
    ensures
        y1 * (w + 1) + x1 != y2 * (w + 1) + x2,
{
    assert(y1 * (w + 1) + x1 != y2 * (w + 1) + x2) by (nonlinear_arith)
        requires
            0 <= x1 <= w,
            0 <= x2 <= w,
            0 <= y1,
            0 <= y2,
            !(x1 == x2 && y1 == y2),
    ;
}

/// Row-major order: coordinates of earlier rows, or earlier in the
/// same row, occupy smaller positions.
pub proof fn lemma_idx_ordered(w: int, x1: int, y1: int, x2: int, y2: int)
    requires
        0 <= x1 <= w,
        0 <= y1,
        0 <= x2,
        y1 < y2 || (y1 == y2 && x1 < x2),
    ensures
        y1 * (w + 1) + x1 < y2 * (w + 1) + x2,
{
    assert(y1 * (w + 1) + x1 < y2 * (w + 1) + x2) by (nonlinear_arith)
        requires
            0 <= x1 <= w,
            0 <= y1,
            0 <= x2,
            y1 < y2 || (y1 == y2 && x1 < x2),
    ;
}

/// Every position of the backing vector is the row-major position of
/// some domain coordinate.
pub proof fn lemma_idx_surjective(w: int, h: int, i: int)
    requires
        0 <= w,
        0 <= h,
        0 <= i < (w + 1) * (h + 1),
    ensures
        0 <= i % (w + 1) <= w,
        0 <= i / (w + 1) <= h,
        (i / (w + 1)) * (w + 1) + i % (w + 1) == i,
{
    assert(0 <= i % (w + 1) <= w && 0 <= i / (w + 1) <= h && (i / (w + 1)) * (w + 1) + i % (w + 1)
        == i) by (nonlinear_arith)
        requires
            0 <= w,
            0 <= h,
            0 <= i < (w + 1) * (h + 1),
    ;
}

impl Grid {
    /// A fresh grid of the given dimensions with every cell dead.
    pub fn new(width: i32, height: i32) -> (r: Grid)
        requires
            0 <= width <= MAX_DIM,
            0 <= height <= MAX_DIM,
        ensures
            r.wf(),
            r.width == width,
            r.height == height,
            forall|x: int, y: int| !(#[trigger] r.alive_at(x, y)),
    {
        let w1: usize = (width + 1) as usize;
        let h1: usize = (height + 1) as usize;
        proof {
            assert(w1 * h1 <= 1002001) by (nonlinear_arith)
                requires
                    w1 == width + 1,
                    h1 == height + 1,
                    0 <= width <= MAX_DIM,
                    0 <= height <= MAX_DIM,
            ;
        }
        let total: usize = w1 * h1;
        let mut cells: Vec<CellState> = Vec::new();
        let mut i: usize = 0;
        while i < total
            invariant
                cells@.len() == i,
                i <= total,
                forall|k: int| 0 <= k < i ==> !(#[trigger] cells@[k].is_alive),
            decreases total - i,
        {
            cells.push(CellState { is_alive: false });
            i = i + 1;
        }
        let r = Grid { width, height, cells };
        proof {
            assert(r.cells@.len() == (width + 1) * (height + 1));
            assert forall|x: int, y: int| !(#[trigger] r.alive_at(x, y)) by {
                if r.in_domain(x, y) {
                    lemma_idx_bounds(width as int, height as int, x, y);
                }
            }
        }
        r
    }

    /// Row-major position of the domain coordinate (x, y), as an
    /// index into the backing vector.
    fn cell_index(&self, x: i32, y: i32) -> (i: usize)
        requires
            self.wf(),
            self.in_domain(x as int, y as int),
        ensures
            i == self.idx(x as int, y as int),
            i < self.cells@.len(),
    {
        proof {
            lemma_idx_bounds(self.width as int, self.height as int, x as int, y as int);
            assert((self.width + 1) * (self.height + 1) <= 1002001) by (nonlinear_arith)
                requires
                    0 <= self.width <= MAX_DIM,
                    0 <= self.height <= MAX_DIM,
            ;
        }
        (y as usize) * ((self.width + 1) as usize) + (x as usize)
    }

    /// Whether the cell at (x, y) is alive; false for any coordinate
    /// outside the domain.
    pub fn cell_alive(&self, x: i32, y: i32) -> (r: bool)
        requires
            self.wf(),
        ensures
            r == self.alive_at(x as int, y as int),
    {
        if 0 <= x && x <= self.width && 0 <= y && y <= self.height {
            let i = self.cell_index(x, y);
            self.cells[i].is_alive
        } else {
            false
        }
    }

    /// The cell's state if `coord` is within the domain, `None`
    /// otherwise; off-grid lookups are not an error.
    pub fn get(&self, coord: Coord) -> (r: Option<CellState>)
        requires
            self.wf(),
        ensures
            r == self.get_spec(coord.x as int, coord.y as int),
    {
        if 0 <= coord.x && coord.x <= self.width && 0 <= coord.y && coord.y <= self.height {
            let i = self.cell_index(coord.x, coord.y);
            Some(self.cells[i])
        } else {
            None
        }
    }

    /// Replaces the state of the cell at `coord`; a silent no-op if
    /// `coord` lies outside the domain.
    pub fn set(&mut self, coord: Coord, state: CellState)
        requires
            old(self).wf(),
        ensures
            final(self).wf(),
            final(self).width == old(self).width,
            final(self).height == old(self).height,
            forall|x: int, y: int| #![trigger final(self).alive_at(x, y)]
                final(self).alive_at(x, y) == (if x == coord.x && y == coord.y && old(
                    self,
                ).in_domain(x, y) {
                    state.is_alive
                } else {
                    old(self).alive_at(x, y)
                }),
    {
        if 0 <= coord.x && coord.x <= self.width && 0 <= coord.y && coord.y <= self.height {
            let i = self.cell_index(coord.x, coord.y);
            self.cells[i] = state;
            proof {
                lemma_set_pointwise(*old(self), *self, coord, state);
            }
        }
    }

    /// Flips the cell at `coord` between alive and dead; a silent
    /// no-op if `coord` lies outside the domain. Used by interactive
    /// editing, independent of the generation step.
    pub fn toggle(&mut self, coord: Coord)
        requires
            old(self).wf(),
        ensures
            final(self).wf(),
            final(self).width == old(self).width,
            final(self).height == old(self).height,
            forall|x: int, y: int| #![trigger final(self).alive_at(x, y)]
                final(self).alive_at(x, y) == (if x == coord.x && y == coord.y && old(
                    self,
                ).in_domain(x, y) {
                    !old(self).alive_at(x, y)
                } else {
                    old(self).alive_at(x, y)
                }),
    {
        if 0 <= coord.x && coord.x <= self.width && 0 <= coord.y && coord.y <= self.height {
            let i = self.cell_index(coord.x, coord.y);
            let mut c = self.cells[i];
            c.toggle();
            self.cells[i] = c;
            proof {
                lemma_set_pointwise(*old(self), *self, coord, c);
            }
        }
    }
}

impl Grid {
    /// How many of the eight neighbors of (x, y) are alive in this
    /// grid, with off-domain neighbors counting as dead.
    pub fn count_live_neighbors(&self, x: i32, y: i32) -> (n: u8)
        requires
            self.wf(),
            self.in_domain(x as int, y as int),
        ensures
            n == self.neighbor_count(x as int, y as int),
            n <= 8,
    {
        let mut n: u8 = 0;
        if self.cell_alive(x - 1, y - 1) {
            n = n + 1;
        }
        if self.cell_alive(x, y - 1) {
            n = n + 1;
        }
        if self.cell_alive(x + 1, y - 1) {
            n = n + 1;
        }
        if self.cell_alive(x - 1, y) {
            n = n + 1;
        }
        if self.cell_alive(x + 1, y) {
            n = n + 1;
        }
        if self.cell_alive(x - 1, y + 1) {
            n = n + 1;
        }
        if self.cell_alive(x, y + 1) {
            n = n + 1;
        }
        if self.cell_alive(x + 1, y + 1) {
            n = n + 1;
        }
        n
    }

    /// Builds the next generation: the Conway rule applied to every
    /// cell of the domain, reading neighbor counts only from `self`,
    /// so the update is simultaneous and order-independent. The input
    /// grid is never mutated; `step` never fails.
    pub fn step(&self) -> (r: Grid)
        requires
            self.wf(),
        ensures
            r.wf(),
            Grid::is_step_of(*self, r),
    {
        let w = self.width;
        let h = self.height;
        let mut cells: Vec<CellState> = Vec::new();
        let mut y: i32 = 0;
        while y <= h
            invariant
                self.wf(),
                w == self.width,
                h == self.height,
                0 <= y <= h + 1,
                cells@.len() == y * (w + 1),
                forall|xx: int, yy: int| 0 <= xx <= w && 0 <= yy < y ==> #[trigger] cells@[self.idx(
                    xx,
                    yy,
                )].is_alive == Grid::next_alive(
                    self.alive_at(xx, yy),
                    self.neighbor_count(xx, yy),
                ),
            decreases h + 1 - y,
        {
            let mut x: i32 = 0;
            while x <= w
                invariant
                    self.wf(),
                    w == self.width,
                    h == self.height,
                    0 <= y <= h,
                    0 <= x <= w + 1,
                    cells@.len() == y * (w + 1) + x,
                    forall|xx: int, yy: int|
                        (0 <= xx <= w && 0 <= yy < y) || (0 <= xx < x && yy == y)
                            ==> #[trigger] cells@[self.idx(xx, yy)].is_alive == Grid::next_alive(
                            self.alive_at(xx, yy),
                            self.neighbor_count(xx, yy),
                        ),
                decreases w + 1 - x,
            {
                let n = self.count_live_neighbors(x, y);
                let i = self.cell_index(x, y);
                let cur = self.cells[i].is_alive;
                let next = if cur {
                    n == 2 || n == 3
                } else {
                    n == 3
                };
                cells.push(CellState { is_alive: next });
                proof {
                    lemma_idx_bounds(w as int, h as int, x as int, y as int);
                    assert forall|xx: int, yy: int|
                        (0 <= xx <= w && 0 <= yy < y) || (0 <= xx <= x && yy == y)
                            implies #[trigger] cells@[self.idx(xx, yy)].is_alive
                        == Grid::next_alive(
                        self.alive_at(xx, yy),
                        self.neighbor_count(xx, yy),
                    ) by {
                        lemma_idx_bounds(w as int, h as int, xx, yy);
                        if !(xx == x && yy == y) {
                            lemma_idx_ordered(w as int, xx, yy, x as int, y as int);
                        }
                    }
                }
                x = x + 1;
            }
            proof {
                assert((y + 1) * (w + 1) == y * (w + 1) + (w + 1)) by (nonlinear_arith);
            }
            y = y + 1;
        }
        let r = Grid { width: w, height: h, cells };
        proof {
            assert((h + 1) * (w + 1) == (w + 1) * (h + 1)) by (nonlinear_arith);
            assert forall|x: int, y: int| #![trigger r.alive_at(x, y)]
                r.alive_at(x, y) == (self.in_domain(x, y) && Grid::next_alive(
                    self.alive_at(x, y),
                    self.neighbor_count(x, y),
                )) by {
                if self.in_domain(x, y) {
                    lemma_idx_bounds(w as int, h as int, x, y);
                }
            }
        }
        r
    }
}

/// Whether one of the first `k` offsets of `pattern`, translated by
/// `anchor`, lands on (x, y).
pub open spec fn covers_prefix(pattern: Seq<Coord>, anchor: Coord, k: int, x: int, y: int) -> bool {
    exists|i: int|
        0 <= i < k && #[trigger] pattern[i].x + anchor.x == x && pattern[i].y + anchor.y == y
}

/// Whether some offset of `pattern`, translated by `anchor`, lands on
/// (x, y).
pub open spec fn covers(pattern: Seq<Coord>, anchor: Coord, x: int, y: int) -> bool {
    covers_prefix(pattern, anchor, pattern.len() as int, x, y)
}

impl Grid {
    /// A grid seeded from one caller-supplied draw per cell, in
    /// row-major order: cell (x, y) is alive exactly when its draw is
    /// true. Handing in independent Bernoulli draws seeds the grid
    /// with the draws' density, reproducibly for a seeded source.
    pub fn from_alive_flags(width: i32, height: i32, flags: &Vec<bool>) -> (r: Grid)
        requires
            0 <= width <= MAX_DIM,
            0 <= height <= MAX_DIM,
            flags@.len() == (width + 1) * (height + 1),
        ensures
            r.wf(),
            r.width == width,
            r.height == height,
            forall|x: int, y: int| #![trigger r.alive_at(x, y)]
                r.alive_at(x, y) == (r.in_domain(x, y) && flags@[y * (width + 1) + x]),
    {
        proof {
            assert((width + 1) * (height + 1) <= 1002001) by (nonlinear_arith)
                requires
                    0 <= width <= MAX_DIM,
                    0 <= height <= MAX_DIM,
            ;
        }
        let total: usize = flags.len();
        let mut cells: Vec<CellState> = Vec::new();
        let mut i: usize = 0;
        while i < total
            invariant
                cells@.len() == i,
                i <= total,
                total == flags@.len(),
                forall|k: int| 0 <= k < i ==> #[trigger] cells@[k].is_alive == flags@[k],
            decreases total - i,
        {
            cells.push(CellState { is_alive: flags[i] });
            i = i + 1;
        }
        let r = Grid { width, height, cells };
        proof {
            assert forall|x: int, y: int| #![trigger r.alive_at(x, y)]
                r.alive_at(x, y) == (r.in_domain(x, y) && flags@[y * (width + 1) + x]) by {
                if r.in_domain(x, y) {
                    lemma_idx_bounds(width as int, height as int, x, y);
                }
            }
        }
        r
    }

    /// Stamps `pattern` at `anchor`: every domain cell that some
    /// translated offset lands on is set alive, and every other cell
    /// is left untouched. Translated offsets outside the domain are
    /// silently skipped.
    pub fn stamp(&mut self, pattern: &Vec<Coord>, anchor: Coord)
        requires
            old(self).wf(),
            forall|i: int| #![trigger pattern@[i]]
                0 <= i < pattern@.len() ==> i32::MIN <= pattern@[i].x + anchor.x <= i32::MAX
                    && i32::MIN <= pattern@[i].y + anchor.y <= i32::MAX,
        ensures
            final(self).wf(),
            final(self).width == old(self).width,
            final(self).height == old(self).height,
            forall|x: int, y: int| #![trigger final(self).alive_at(x, y)]
                final(self).alive_at(x, y) == (old(self).alive_at(x, y) || (old(self).in_domain(
                    x,
                    y,
                ) && covers(pattern@, anchor, x, y))),
    {
        let ghost pre = *self;
        let mut k: usize = 0;
        while k < pattern.len()
            invariant
                self.wf(),
                pre.wf(),
                self.width == pre.width,
                self.height == pre.height,
                k <= pattern@.len(),
                forall|i: int| #![trigger pattern@[i]]
                    0 <= i < pattern@.len() ==> i32::MIN <= pattern@[i].x + anchor.x <= i32::MAX
                        && i32::MIN <= pattern@[i].y + anchor.y <= i32::MAX,
                forall|x: int, y: int| #![trigger self.alive_at(x, y)]
                    self.alive_at(x, y) == (pre.alive_at(x, y) || (pre.in_domain(x, y)
                        && covers_prefix(pattern@, anchor, k as int, x, y))),
            decreases pattern@.len() - k,
        {
            let ghost before = *self;
            let p = pattern[k];
            let target = Coord { x: p.x + anchor.x, y: p.y + anchor.y };
            self.set(target, CellState { is_alive: true });
            proof {
                let tx = target.x as int;
                let ty = target.y as int;
                assert forall|x: int, y: int| #![trigger self.alive_at(x, y)]
                    self.alive_at(x, y) == (pre.alive_at(x, y) || (pre.in_domain(x, y)
                        && covers_prefix(pattern@, anchor, k + 1, x, y))) by {
                    if x == tx && y == ty && pre.in_domain(x, y) {
                        assert(pattern@[k as int].x + anchor.x == x && pattern@[k as int].y
                            + anchor.y == y);
                        assert(covers_prefix(pattern@, anchor, k + 1, x, y));
                    } else {
                        assert(self.alive_at(x, y) == before.alive_at(x, y));
                        if covers_prefix(pattern@, anchor, k + 1, x, y) && !covers_prefix(
                            pattern@,
                            anchor,
                            k as int,
                            x,
                            y,
                        ) {
                            let i = choose|i: int|
                                0 <= i < k + 1 && #[trigger] pattern@[i].x + anchor.x == x
                                    && pattern@[i].y + anchor.y == y;
                            assert(i == k);
                            assert(x == tx && y == ty);
                        }
                    }
                }
            }
            k = k + 1;
        }
    }
}

/// Updating the one entry of `coord` changes `alive_at` at `coord`
/// alone.
proof fn lemma_set_pointwise(pre: Grid, post: Grid, coord: Coord, state: CellState)
    requires
        pre.wf(),
        pre.in_domain(coord.x as int, coord.y as int),
        post.width == pre.width,
        post.height == pre.height,
        post.cells@ == pre.cells@.update(pre.idx(coord.x as int, coord.y as int), state),
    ensures
        post.wf(),
        forall|x: int, y: int| #![trigger post.alive_at(x, y)]
            post.alive_at(x, y) == (if x == coord.x && y == coord.y {
                state.is_alive
            } else {
                pre.alive_at(x, y)
            }),
{
    let w = pre.width as int;
    let h = pre.height as int;
    let cx = coord.x as int;
    let cy = coord.y as int;
    lemma_idx_bounds(w, h, cx, cy);
    assert forall|x: int, y: int| #![trigger post.alive_at(x, y)]
        post.alive_at(x, y) == (if x == coord.x && y == coord.y {
            state.is_alive
        } else {
            pre.alive_at(x, y)
        }) by {
        if pre.in_domain(x, y) {
            lemma_idx_bounds(w, h, x, y);
            if !(x == cx && y == cy) {
                lemma_idx_injective(w, x, y, cx, cy);
            }
        }
    }
}

} // verus!
