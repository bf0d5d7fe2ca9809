//! The grid form of the reinforcement field: pheromone over a fixed partition
//! of the plane into square cells, each level within `[0, GRID_CEILING]`.

use vstd::prelude::*;

use crate::pheromone::RATE_ONE;

verus! {

/// Highest level of a cell (1000.0).
pub const GRID_CEILING: u64 = 1_000_000_000;

/// Levels that evaporate below this (0.01) are cleared to zero.
pub const GRID_SNAP: u64 = 10_000;

/// `old + amount`, capped at `GRID_CEILING`.
pub open spec fn grid_added(old: int, amount: int) -> int {
    if old + amount > GRID_CEILING {
        GRID_CEILING as int
    } else {
        old + amount
    }
}

/// A cell level after one evaporation at half of `rate` (parts per million, clamped
/// to `[0, RATE_ONE]`), cleared when it falls below `GRID_SNAP`.
pub open spec fn grid_evaporated(old: int, rate: int) -> int {
    let r = if rate > RATE_ONE {
        RATE_ONE as int
    } else {
        rate
    };
    let kept = old * (RATE_ONE - r / 2) / (RATE_ONE as int);
    if kept < GRID_SNAP {
        0
    } else {
        kept
    }
}

/// The cell index along one axis for a coordinate; a negative coordinate lies
/// outside the grid (index -1).
pub open spec fn cell_index(v: int, cell_size: int) -> int {
    if v < 0 {
        -1
    } else {
        v / cell_size
    }
}

/// Cells `(a, b)` and `(c, d)` share a side.
pub open spec fn adjacent(a: int, b: int, c: int, d: int) -> bool {
    (a == c && (b == d + 1 || d == b + 1)) || (b == d && (a == c + 1 || c == a + 1))
}

/// A `width` by `height` grid of pheromone levels, each cell `cell_size` wide.
#[derive(Debug)]
pub struct PheromoneGrid {
    rows: Vec<Vec<u64>>,
    width: usize,
    height: usize,
    cell_size: u64,
}

impl PheromoneGrid {
    pub closed spec fn spec_width(&self) -> nat {
        self.width as nat
    }

    pub closed spec fn spec_height(&self) -> nat {
        self.height as nat
    }

    pub closed spec fn spec_cell_size(&self) -> nat {
        self.cell_size as nat
    }

    /// Level of the cell in column `a`, row `b`.
    pub closed spec fn cell(&self, a: int, b: int) -> u64 {
        self.rows@[b]@[a]
    }

    pub open spec fn in_grid(&self, a: int, b: int) -> bool {
        0 <= a < self.spec_width() && 0 <= b < self.spec_height()
    }

    pub closed spec fn wf(&self) -> bool {
        &&& self.cell_size > 0
        &&& self.rows@.len() == self.height
        &&& forall|b: int| 0 <= b < self.height ==> (#[trigger] self.rows@[b])@.len() == self.width
        &&& forall|a: int, b: int| self.in_grid(a, b) ==> #[trigger] self.cell(a, b) <= GRID_CEILING
    }

    /// `new` is `old` after `amount` is laid at position `(x, y)`: the cell there
    /// gains `amount` and each cell sharing a side with it half of it, each capped at
    /// the ceiling; a position outside the grid (a negative coordinate included)
    /// changes nothing.
    pub open spec fn deposit_effect(old: PheromoneGrid, x: int, y: int, amount: int, new: PheromoneGrid) -> bool {
        let a = cell_index(x, old.spec_cell_size() as int);
        let b = cell_index(y, old.spec_cell_size() as int);
        &&& new.spec_width() == old.spec_width()
        &&& new.spec_height() == old.spec_height()
        &&& new.spec_cell_size() == old.spec_cell_size()
        &&& forall|c: int, d: int|
            old.in_grid(c, d) ==> #[trigger] new.cell(c, d) == if !old.in_grid(a, b) {
                old.cell(c, d) as int
            } else if c == a && d == b {
                grid_added(old.cell(c, d) as int, amount)
            } else if adjacent(a, b, c, d) {
                grid_added(old.cell(c, d) as int, amount / 2)
            } else {
                old.cell(c, d) as int
            }
    }

    /// `new` is `old` after every cell evaporated at `rate`.
    pub open spec fn evaporate_effect(old: PheromoneGrid, rate: int, new: PheromoneGrid) -> bool {
        &&& new.spec_width() == old.spec_width()
        &&& new.spec_height() == old.spec_height()
        &&& new.spec_cell_size() == old.spec_cell_size()
        &&& forall|c: int, d: int|
            old.in_grid(c, d) ==> #[trigger] new.cell(c, d) == grid_evaporated(old.cell(c, d) as int, rate)
    }

    /// The level at position `(x, y)`; zero outside the grid.
    pub open spec fn level_at(&self, x: int, y: int) -> int {
        let a = cell_index(x, self.spec_cell_size() as int);
        let b = cell_index(y, self.spec_cell_size() as int);
        if self.in_grid(a, b) {
            self.cell(a, b) as int
        } else {
            0
        }
    }

    /// No cell exceeds `GRID_CEILING`.
    pub proof fn lemma_bounded(&self)
        requires
            self.wf(),
        ensures
            forall|a: int, b: int| self.in_grid(a, b) ==> #[trigger] self.cell(a, b) <= GRID_CEILING,
    {
    }

    /// An empty grid.
    pub fn new(width: usize, height: usize, cell_size: u64) -> (r: PheromoneGrid)
        requires
            cell_size > 0,
        ensures
            r.wf(),
            r.spec_width() == width,
            r.spec_height() == height,
            r.spec_cell_size() == cell_size,
            forall|a: int, b: int| r.in_grid(a, b) ==> #[trigger] r.cell(a, b) == 0,
    {
        let mut rows: Vec<Vec<u64>> = Vec::new();
        let mut b: usize = 0;
        while b < height
            invariant
                b <= height,
                rows@.len() == b,
                forall|y: int| 0 <= y < b ==> (#[trigger] rows@[y])@ == Seq::new(width as nat, |_a: int| 0u64),
            decreases height - b,
        {
            let mut row: Vec<u64> = Vec::new();
            let mut a: usize = 0;
            while a < width
                invariant
                    a <= width,
                    row@ == Seq::new(a as nat, |_a: int| 0u64),
                decreases width - a,
            {
                row.push(0);
                a = a + 1;
                assert(row@ =~= Seq::new(a as nat, |_a: int| 0u64));
            }
            rows.push(row);
            b = b + 1;
        }
        PheromoneGrid { rows, width, height, cell_size }
    }

    /// The cell holding coordinate `v` along one axis.
    fn index_of(&self, v: i64) -> (r: u64)
        requires
            self.wf(),
            v >= 0,
        ensures
            r == cell_index(v as int, self.spec_cell_size() as int),
    {
        (v as u64) / self.cell_size
    }

    /// The level at position `(x, y)`; zero outside the grid.
    pub fn get_at(&self, x: i64, y: i64) -> (r: u64)
        requires
            self.wf(),
        ensures
            r == self.level_at(x as int, y as int),
    {
        if x < 0 || y < 0 {
            return 0;
        }
        let a = self.index_of(x);
        let b = self.index_of(y);
        if a < self.width as u64 && b < self.height as u64 {
            self.rows[b as usize][a as usize]
        } else {
            0
        }
    }

    /// Adds `amount` to cell `(a, b)` when it lies in the grid, capped at the ceiling.
    fn add_to_cell(&mut self, a: u64, b: u64, amount: u64)
        requires
            old(self).wf(),
        ensures
            final(self).wf(),
            final(self).spec_width() == old(self).spec_width(),
            final(self).spec_height() == old(self).spec_height(),
            final(self).spec_cell_size() == old(self).spec_cell_size(),
            forall|c: int, d: int|
                old(self).in_grid(c, d) ==> #[trigger] final(self).cell(c, d) == if c == a && d == b {
                    grid_added(old(self).cell(c, d) as int, amount as int)
                } else {
                    old(self).cell(c, d) as int
                },
    {
        if a < self.width as u64 && b < self.height as u64 {
            let bi = b as usize;
            let ai = a as usize;
            let current = self.rows[bi][ai];
            assert(self.cell(ai as int, bi as int) == current);
            let ghost before = *self;
            let v = if amount >= GRID_CEILING - current {
                GRID_CEILING
            } else {
                current + amount
            };
            self.rows[bi][ai] = v;
            assert forall|c: int, d: int| self.in_grid(c, d) implies #[trigger] self.cell(c, d) <= GRID_CEILING by {
                assert(before.in_grid(c, d));
                assert(before.cell(c, d) <= GRID_CEILING);
                if d == bi as int {
                    if c != ai as int {
                        assert(self.rows@[d]@[c] == before.rows@[d]@[c]);
                    }
                } else {
                    assert(self.rows@[d] == before.rows@[d]);
                }
            }
        }
    }

    /// Adds `amount` at the cell of `(x, y)` and half of it to each of the up to
    /// four cells sharing a side with it, each capped at the ceiling. A position
    /// outside the grid changes nothing.
    pub fn deposit_at(&mut self, x: i64, y: i64, amount: u64)
        requires
            old(self).wf(),
        ensures
            final(self).wf(),
            final(self).spec_width() == old(self).spec_width(),
            final(self).spec_height() == old(self).spec_height(),
            PheromoneGrid::deposit_effect(*old(self), x as int, y as int, amount as int, *final(self)),
    {
        if x < 0 || y < 0 {
            return;
        }
        let a = self.index_of(x);
        let b = self.index_of(y);
        if a < self.width as u64 && b < self.height as u64 {
            let half = amount / 2;
            self.add_to_cell(a, b, amount);
            if a > 0 {
                self.add_to_cell(a - 1, b, half);
            }
            self.add_to_cell(a + 1, b, half);
            if b > 0 {
                self.add_to_cell(a, b - 1, half);
            }
            self.add_to_cell(a, b + 1, half);
        }
    }

    /// Every cell decays at half of `rate` (parts per million, clamped to
    /// `[0, RATE_ONE]`); a level that falls below `GRID_SNAP` becomes zero.
    pub fn evaporate(&mut self, rate: u64)
        requires
            old(self).wf(),
        ensures
            final(self).wf(),
            final(self).spec_width() == old(self).spec_width(),
            final(self).spec_height() == old(self).spec_height(),
            PheromoneGrid::evaporate_effect(*old(self), rate as int, *final(self)),
    {
        let r = if rate > RATE_ONE {
            RATE_ONE
        } else {
            rate
        };
        let keep = RATE_ONE - r / 2;
        let h = self.height;
        let w = self.width;
        let ghost old_rows = self.rows@;
        let mut b: usize = 0;
        while b < h
            invariant
                h == self.height,
                w == self.width,
                self.height == old(self).height,
                self.width == old(self).width,
                self.cell_size == old(self).cell_size,
                self.cell_size > 0,
                old_rows == old(self).rows@,
                old(self).wf(),
                keep == RATE_ONE - (if rate > RATE_ONE { RATE_ONE as int } else { rate as int }) / 2,
                b <= h,
                self.rows@.len() == h,
                forall|y: int| 0 <= y < h ==> (#[trigger] self.rows@[y])@.len() == w,
                forall|c: int, d: int|
                    0 <= c < w && b <= d < h ==> #[trigger] self.rows@[d]@[c] == old_rows[d]@[c],
                forall|c: int, d: int|
                    0 <= c < w && 0 <= d < b ==> #[trigger] self.rows@[d]@[c] == grid_evaporated(
                        old_rows[d]@[c] as int,
                        rate as int,
                    ),
            decreases h - b,
        {
            let mut a: usize = 0;
            while a < w
                invariant
                    h == self.height,
                    w == self.width,
                    b < h,
                    a <= w,
                    self.cell_size == old(self).cell_size,
                    self.cell_size > 0,
                    self.height == old(self).height,
                    self.width == old(self).width,
                    old(self).wf(),
                    old_rows == old(self).rows@,
                    old(self).height == h,
                    old(self).width == w,
                    keep == RATE_ONE - (if rate > RATE_ONE { RATE_ONE as int } else { rate as int }) / 2,
                    self.rows@.len() == h,
                    forall|y: int| 0 <= y < h ==> (#[trigger] self.rows@[y])@.len() == w,
                    forall|c: int, d: int|
                        0 <= c < w && b < d < h ==> #[trigger] self.rows@[d]@[c] == old_rows[d]@[c],
                    forall|c: int| a <= c < w ==> #[trigger] self.rows@[b as int]@[c] == old_rows[b as int]@[c],
                    forall|c: int, d: int|
                        0 <= c < w && 0 <= d < b ==> #[trigger] self.rows@[d]@[c] == grid_evaporated(
                            old_rows[d]@[c] as int,
                            rate as int,
                        ),
                    forall|c: int| 0 <= c < a ==> #[trigger] self.rows@[b as int]@[c] == grid_evaporated(
                        old_rows[b as int]@[c] as int,
                        rate as int,
                    ),
                decreases w - a,
            {
                let current = self.rows[b][a];
                assert(old(self).cell(a as int, b as int) == current);
                assert(current <= GRID_CEILING);
                assert(current * keep <= 1_000_000_000 * 1_000_000) by (nonlinear_arith)
                    requires
                        current <= 1_000_000_000,
                        keep <= 1_000_000,
                ;
                let kept = current * keep / RATE_ONE;
                let v = if kept < GRID_SNAP {
                    0
                } else {
                    kept
                };
                self.rows[b][a] = v;
                a = a + 1;
            }
            b = b + 1;
        }
        proof {
            assert forall|c: int, d: int| self.in_grid(c, d) implies #[trigger] self.cell(c, d) <= GRID_CEILING by {
                let o = old_rows[d]@[c] as int;
                assert(old(self).cell(c, d) == o);
                let k = keep as int;
                assert(o * k / 1_000_000 <= o) by (nonlinear_arith)
                    requires
                        0 <= o,
                        0 <= k <= 1_000_000,
                ;
            }
        }
    }

    pub fn width(&self) -> (r: usize)
        ensures
            r == self.spec_width(),
    {
        self.width
    }

    pub fn height(&self) -> (r: usize)
        ensures
            r == self.spec_height(),
    {
        self.height
    }

    pub fn cell_size(&self) -> (r: u64)
        ensures
            r == self.spec_cell_size(),
    {
        self.cell_size
    }
}

} // verus!
