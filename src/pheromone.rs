//! The matrix form of the reinforcement field: a symmetric table of pheromone
//! levels over a fixed set of nodes, each level kept within
//! `[PHEROMONE_FLOOR, PHEROMONE_CEILING]`.

use vstd::prelude::*;

use crate::geometry::SCALE;

verus! {

/// Lowest level an entry can fall to (0.01).
pub const PHEROMONE_FLOOR: u64 = 10_000;

/// Highest level an entry can reach (1000.0).
pub const PHEROMONE_CEILING: u64 = 1_000_000_000;

/// A rate of one, in parts per million.
pub const RATE_ONE: u64 = 1_000_000;

/// `v` brought into `[PHEROMONE_FLOOR, PHEROMONE_CEILING]`.
pub open spec fn clamp_level(v: int) -> int {
    if v < PHEROMONE_FLOOR {
        PHEROMONE_FLOOR as int
    } else if v > PHEROMONE_CEILING {
        PHEROMONE_CEILING as int
    } else {
        v
    }
}

/// A rate in parts per million brought into `[0, RATE_ONE]`.
pub open spec fn clamp_rate(rate: int) -> int {
    if rate > RATE_ONE {
        RATE_ONE as int
    } else {
        rate
    }
}

/// A level after one evaporation at `rate`: `max(old * (1 - rate), floor)`, rounded down.
pub open spec fn evaporated(old: int, rate: int) -> int {
    let kept = old * (RATE_ONE - clamp_rate(rate)) / (RATE_ONE as int);
    if kept < PHEROMONE_FLOOR {
        PHEROMONE_FLOOR as int
    } else {
        kept
    }
}

/// A level after `amount` is added to it: `min(old + amount, ceiling)`.
pub open spec fn reinforced(old: int, amount: int) -> int {
    if old + amount > PHEROMONE_CEILING {
        PHEROMONE_CEILING as int
    } else {
        old + amount
    }
}

/// `m` with the pair `{i, j}` set to `v` in both orders.
pub open spec fn with_pair(m: Seq<Seq<u64>>, i: int, j: int, v: u64) -> Seq<Seq<u64>> {
    Seq::new(
        m.len(),
        |a: int|
            Seq::new(
                m[a].len(),
                |b: int|
                    if (a == i && b == j) || (a == j && b == i) {
                        v
                    } else {
                        m[a][b]
                    },
            ),
    )
}

/// Whether `i` and `j` both index an `n` by `n` table.
pub open spec fn in_range(n: int, i: int, j: int) -> bool {
    0 <= i < n && 0 <= j < n
}

/// The table after `amount` is deposited on the pair `{i, j}`; unchanged when out of range.
pub open spec fn deposited(m: Seq<Seq<u64>>, i: int, j: int, amount: int) -> Seq<Seq<u64>> {
    if in_range(m.len() as int, i, j) {
        with_pair(m, i, j, reinforced(m[i][j] as int, amount) as u64)
    } else {
        m
    }
}

/// The table after every off-diagonal entry evaporates at `rate`.
pub open spec fn evaporated_all(m: Seq<Seq<u64>>, rate: int) -> Seq<Seq<u64>> {
    Seq::new(
        m.len(),
        |a: int|
            Seq::new(
                m[a].len(),
                |b: int|
                    if a == b {
                        m[a][b]
                    } else {
                        evaporated(m[a][b] as int, rate) as u64
                    },
            ),
    )
}

/// `m` is an `n` by `n` table.
pub open spec fn is_square(m: Seq<Seq<u64>>, n: int) -> bool {
    m.len() == n && forall|a: int| 0 <= a < n ==> (#[trigger] m[a]).len() == n
}

/// `m` is square, symmetric and every entry lies within the floor and the ceiling.
pub open spec fn field_ok(m: Seq<Seq<u64>>) -> bool {
    &&& is_square(m, m.len() as int)
    &&& forall|a: int, b: int|
        in_range(m.len() as int, a, b) ==> #[trigger] m[a][b] == m[b][a]
    &&& forall|a: int, b: int|
        in_range(m.len() as int, a, b) ==> PHEROMONE_FLOOR <= #[trigger] m[a][b]
            <= PHEROMONE_CEILING
}

/// The table after one deposit of `delta` on each step of `tour`, in order.
pub open spec fn path_deposited(m: Seq<Seq<u64>>, tour: Seq<usize>, delta: int) -> Seq<Seq<u64>>
    decreases tour.len(),
{
    if tour.len() < 2 {
        m
    } else {
        deposited(
            path_deposited(m, tour.drop_last(), delta),
            tour[tour.len() - 2] as int,
            tour[tour.len() - 1] as int,
            delta,
        )
    }
}

/// The table after `delta` is deposited on each step of `tour` and then, unless
/// the tour already ends where it began, on the closing step from its last node
/// back to its first. A tour of fewer than two nodes leaves the table as it is.
pub open spec fn tour_deposited(m: Seq<Seq<u64>>, tour: Seq<usize>, delta: int) -> Seq<Seq<u64>> {
    if tour.len() < 2 {
        m
    } else if tour[tour.len() - 1] == tour[0] {
        path_deposited(m, tour, delta)
    } else {
        deposited(
            path_deposited(m, tour, delta),
            tour[tour.len() - 1] as int,
            tour[0] as int,
            delta,
        )
    }
}

/// The amount laid on each step of a tour of length `tour_length` with deposit
/// factor `q`: `q / tour_length` in fixed point, capped at the ceiling.
pub open spec fn tour_delta(q: int, tour_length: int) -> int {
    let d = q * SCALE / tour_length;
    if d > PHEROMONE_CEILING {
        PHEROMONE_CEILING as int
    } else {
        d
    }
}

/// The table after a sequence of deposits, each a pair of nodes and an amount.
pub open spec fn deposits_applied(m: Seq<Seq<u64>>, ops: Seq<(int, int, int)>) -> Seq<Seq<u64>>
    decreases ops.len(),
{
    if ops.len() == 0 {
        m
    } else {
        let op = ops[ops.len() - 1];
        deposited(deposits_applied(m, ops.drop_last()), op.0, op.1, op.2)
    }
}

/// A deposit on a well-formed table keeps it square, symmetric and within bounds;
/// in particular the two orders of the pair read alike afterwards.
pub proof fn lemma_deposit_symmetric(m: Seq<Seq<u64>>, i: int, j: int, amount: int)
    requires
        field_ok(m),
        amount >= 0,
    ensures
        field_ok(deposited(m, i, j, amount)),
        deposited(m, i, j, amount).len() == m.len(),
        in_range(m.len() as int, i, j) ==> deposited(m, i, j, amount)[i][j] == deposited(
            m,
            i,
            j,
            amount,
        )[j][i],
{
}

/// However many deposits are made, of whatever amounts, no level exceeds the
/// ceiling (nor falls below the floor) and the table stays symmetric.
pub proof fn lemma_deposits_bounded(m: Seq<Seq<u64>>, ops: Seq<(int, int, int)>)
    requires
        field_ok(m),
        forall|k: int| 0 <= k < ops.len() ==> (#[trigger] ops[k]).2 >= 0,
    ensures
        field_ok(deposits_applied(m, ops)),
        deposits_applied(m, ops).len() == m.len(),
        forall|a: int, b: int|
            in_range(m.len() as int, a, b) ==> #[trigger] deposits_applied(m, ops)[a][b]
                <= PHEROMONE_CEILING,
    decreases ops.len(),
{
    if ops.len() > 0 {
        let rest = ops.drop_last();
        assert forall|k: int| 0 <= k < rest.len() implies (#[trigger] rest[k]).2 >= 0 by {
            assert(rest[k] == ops[k]);
        }
        lemma_deposits_bounded(m, rest);
        let op = ops[ops.len() - 1];
        lemma_deposit_symmetric(deposits_applied(m, rest), op.0, op.1, op.2);
    }
}

/// A symmetric table of pheromone levels over `size` nodes.
#[derive(Clone, Debug)]
pub struct PheromoneMatrix {
    matrix: Vec<Vec<u64>>,
    size: usize,
    initial_pheromone: u64,
}

impl PheromoneMatrix {
    /// The levels, row by row.
    pub closed spec fn cells(&self) -> Seq<Seq<u64>> {
        self.matrix@.map_values(|r: Vec<u64>| r@)
    }

    pub closed spec fn spec_size(&self) -> nat {
        self.size as nat
    }

    /// The level every entry starts from, and that `get` reports out of range.
    pub closed spec fn initial(&self) -> u64 {
        self.initial_pheromone
    }

    /// The level of the pair `(i, j)`.
    pub open spec fn level(&self, i: int, j: int) -> u64 {
        self.cells()[i][j]
    }

    pub closed spec fn wf(&self) -> bool {
        &&& self.cells().len() == self.size
        &&& field_ok(self.cells())
        &&& PHEROMONE_FLOOR <= self.initial_pheromone <= PHEROMONE_CEILING
    }

    pub proof fn lemma_wf(&self)
        requires
            self.wf(),
        ensures
            self.cells().len() == self.spec_size(),
            field_ok(self.cells()),
            PHEROMONE_FLOOR <= self.initial() <= PHEROMONE_CEILING,
    {
    }

    /// A table over `size` nodes with every entry at `initial_pheromone`, clamped
    /// into `[PHEROMONE_FLOOR, PHEROMONE_CEILING]`.
    pub fn new(size: usize, initial_pheromone: u64) -> (r: PheromoneMatrix)
        ensures
            r.wf(),
            r.spec_size() == size,
            r.initial() == clamp_level(initial_pheromone as int),
            forall|i: int, j: int| in_range(size as int, i, j) ==> #[trigger] r.level(i, j)
                == clamp_level(initial_pheromone as int),
    {
        let init = if initial_pheromone < PHEROMONE_FLOOR {
            PHEROMONE_FLOOR
        } else if initial_pheromone > PHEROMONE_CEILING {
            PHEROMONE_CEILING
        } else {
            initial_pheromone
        };
        let mut matrix: Vec<Vec<u64>> = Vec::new();
        let mut a: usize = 0;
        while a < size
            invariant
                a <= size,
                matrix@.len() == a,
                forall|x: int| 0 <= x < a ==> (#[trigger] matrix@[x])@ == Seq::new(size as nat, |_b: int| init),
            decreases size - a,
        {
            let mut row: Vec<u64> = Vec::new();
            let mut b: usize = 0;
            while b < size
                invariant
                    b <= size,
                    row@ == Seq::new(b as nat, |_b: int| init),
                decreases size - b,
            {
                row.push(init);
                b = b + 1;
                assert(row@ =~= Seq::new(b as nat, |_b: int| init));
            }
            matrix.push(row);
            a = a + 1;
        }
        let r = PheromoneMatrix { matrix, size, initial_pheromone: init };
        assert(r.wf());
        r
    }

    /// The level of the pair `(i, j)`; the initial level when either index is out of range.
    pub fn get(&self, i: usize, j: usize) -> (r: u64)
        requires
            self.wf(),
        ensures
            r == if in_range(self.spec_size() as int, i as int, j as int) {
                self.level(i as int, j as int)
            } else {
                self.initial()
            },
    {
        if i < self.size && j < self.size {
            assert(self.cells()[i as int] == self.matrix@[i as int]@);
            self.matrix[i][j]
        } else {
            self.initial_pheromone
        }
    }

    /// Sets both `(i, j)` and `(j, i)` to `v`.
    fn set_pair(&mut self, i: usize, j: usize, v: u64)
        requires
            old(self).wf(),
            in_range(old(self).spec_size() as int, i as int, j as int),
            PHEROMONE_FLOOR <= v <= PHEROMONE_CEILING,
        ensures
            final(self).wf(),
            final(self).spec_size() == old(self).spec_size(),
            final(self).initial() == old(self).initial(),
            final(self).cells() == with_pair(old(self).cells(), i as int, j as int, v),
    {
        let ghost m0 = self.cells();
        assert(self.cells()[i as int] == self.matrix@[i as int]@);
        assert(self.cells()[j as int] == self.matrix@[j as int]@);
        self.matrix[i][j] = v;
        self.matrix[j][i] = v;
        assert(self.cells() =~~= with_pair(m0, i as int, j as int, v));
    }

    /// Adds `amount` to the pair `{i, j}`, in both orders, up to `PHEROMONE_CEILING`.
    /// Out-of-range indices leave the table as it is.
    pub fn deposit(&mut self, i: usize, j: usize, amount: u64)
        requires
            old(self).wf(),
        ensures
            final(self).wf(),
            final(self).spec_size() == old(self).spec_size(),
            final(self).initial() == old(self).initial(),
            final(self).cells() == deposited(old(self).cells(), i as int, j as int, amount as int),
    {
        if i < self.size && j < self.size {
            assert(self.cells()[i as int] == self.matrix@[i as int]@);
            let current = self.matrix[i][j];
            let v = if amount >= PHEROMONE_CEILING - current {
                PHEROMONE_CEILING
            } else {
                current + amount
            };
            self.set_pair(i, j, v);
        }
    }

    /// Sets the pair `{i, j}`, in both orders, to `value` clamped into
    /// `[PHEROMONE_FLOOR, PHEROMONE_CEILING]`. Out-of-range indices leave the table as it is.
    pub fn set(&mut self, i: usize, j: usize, value: u64)
        requires
            old(self).wf(),
        ensures
            final(self).wf(),
            final(self).spec_size() == old(self).spec_size(),
            final(self).initial() == old(self).initial(),
            final(self).cells() == if in_range(old(self).spec_size() as int, i as int, j as int) {
                with_pair(old(self).cells(), i as int, j as int, clamp_level(value as int) as u64)
            } else {
                old(self).cells()
            },
    {
        if i < self.size && j < self.size {
            let v = if value < PHEROMONE_FLOOR {
                PHEROMONE_FLOOR
            } else if value > PHEROMONE_CEILING {
                PHEROMONE_CEILING
            } else {
                value
            };
            self.set_pair(i, j, v);
        }
    }

    /// Every off-diagonal level becomes `max(old * (1 - rate), PHEROMONE_FLOOR)`, with
    /// `rate` in parts per million clamped to `[0, RATE_ONE]`; the diagonal is left as it is.
    pub fn evaporate(&mut self, evaporation_rate: u64)
        requires
            old(self).wf(),
        ensures
            final(self).wf(),
            final(self).spec_size() == old(self).spec_size(),
            final(self).initial() == old(self).initial(),
            final(self).cells() == evaporated_all(old(self).cells(), evaporation_rate as int),
            forall|i: int, j: int|
                in_range(old(self).spec_size() as int, i, j) ==> #[trigger] final(self).level(i, j)
                    == if i == j {
                    old(self).level(i, j) as int
                } else {
                    evaporated(old(self).level(i, j) as int, evaporation_rate as int)
                },
    {
        let ghost m0 = self.cells();
        let ghost target = evaporated_all(m0, evaporation_rate as int);
        let rate = if evaporation_rate > RATE_ONE {
            RATE_ONE
        } else {
            evaporation_rate
        };
        let keep = RATE_ONE - rate;
        let n = self.size;
        let mut a: usize = 0;
        while a < n
            invariant
                n == self.size,
                self.size == old(self).size,
                self.initial_pheromone == old(self).initial_pheromone,
                m0 == old(self).cells(),
                target == evaporated_all(m0, evaporation_rate as int),
                field_ok(m0),
                m0.len() == n,
                keep == RATE_ONE - clamp_rate(evaporation_rate as int),
                a <= n,
                self.matrix@.len() == n,
                forall|x: int| 0 <= x < a ==> (#[trigger] self.matrix@[x])@ == target[x],
                forall|x: int| a <= x < n ==> (#[trigger] self.matrix@[x])@ == m0[x],
            decreases n - a,
        {
            let mut row: Vec<u64> = Vec::new();
            let mut b: usize = 0;
            assert(self.matrix@[a as int]@ == m0[a as int]);
            while b < n
                invariant
                    n == self.size,
                    a < n,
                    b <= n,
                    m0.len() == n,
                    field_ok(m0),
                    target == evaporated_all(m0, evaporation_rate as int),
                    keep == RATE_ONE - clamp_rate(evaporation_rate as int),
                    self.matrix@.len() == n,
                    self.matrix@[a as int]@ == m0[a as int],
                    row@ == target[a as int].subrange(0, b as int),
                decreases n - b,
            {
                let current = self.matrix[a][b];
                let v = if a == b {
                    current
                } else {
                    assert(current <= PHEROMONE_CEILING);
                    assert(current * keep <= 1_000_000_000 * 1_000_000) by (nonlinear_arith)
                        requires
                            current <= 1_000_000_000,
                            keep <= 1_000_000,
                    ;
                    let kept = current * keep / RATE_ONE;
                    if kept < PHEROMONE_FLOOR {
                        PHEROMONE_FLOOR
                    } else {
                        kept
                    }
                };
                row.push(v);
                b = b + 1;
                assert(row@ =~= target[a as int].subrange(0, b as int));
            }
            assert(row@ =~= target[a as int]);
            self.matrix.set(a, row);
            a = a + 1;
        }
        assert(self.cells() =~~= target);
        assert forall|x: int, y: int| in_range(n as int, x, y) implies PHEROMONE_FLOOR
            <= #[trigger] target[x][y] <= PHEROMONE_CEILING && target[x][y] == if x == y {
            m0[x][y] as int
        } else {
            evaporated(m0[x][y] as int, evaporation_rate as int)
        } by {
            let old_v = m0[x][y] as int;
            let kept = old_v * (keep as int) / (RATE_ONE as int);
            assert(kept <= old_v) by (nonlinear_arith)
                requires
                    0 <= old_v,
                    0 <= keep <= 1_000_000,
                    kept == old_v * (keep as int) / 1_000_000,
            ;
        }
    }

    /// Lays `q / tour_length` (fixed point) on each step of `tour` and, unless the
    /// tour is already closed, on the step from its last node back to its first.
    /// Nothing happens when `tour_length` is zero or the tour has fewer than two nodes.
    pub fn deposit_tour(&mut self, tour: &[usize], tour_length: u64, q: u64)
        requires
            old(self).wf(),
        ensures
            final(self).wf(),
            final(self).spec_size() == old(self).spec_size(),
            final(self).initial() == old(self).initial(),
            final(self).cells() == if tour_length > 0 {
                tour_deposited(old(self).cells(), tour@, tour_delta(q as int, tour_length as int))
            } else {
                old(self).cells()
            },
    {
        if tour_length > 0 {
            assert(q as u128 * SCALE as u128 <= 0xFFFF_FFFF_FFFF_FFFF * 1_000_000) by (nonlinear_arith)
                requires
                    q <= 0xFFFF_FFFF_FFFF_FFFF,
            ;
            let scaled: u128 = q as u128 * SCALE as u128 / tour_length as u128;
            let delta: u64 = if scaled > PHEROMONE_CEILING as u128 {
                PHEROMONE_CEILING
            } else {
                scaled as u64
            };
            let ghost m0 = self.cells();
            let n = tour.len();
            if n < 2 {
                return;
            }
            let mut k: usize = 1;
            assert(path_deposited(m0, tour@.subrange(0, 1), delta as int) == m0);
            while k < n
                invariant
                    self.wf(),
                    self.size == old(self).size,
                    self.initial_pheromone == old(self).initial_pheromone,
                    m0 == old(self).cells(),
                    n == tour@.len(),
                    1 <= k <= n,
                    self.cells() == path_deposited(m0, tour@.subrange(0, k as int), delta as int),
                decreases n - k,
            {
                assert(tour@.subrange(0, k + 1).drop_last() == tour@.subrange(0, k as int));
                self.deposit(tour[k - 1], tour[k], delta);
                k = k + 1;
            }
            assert(tour@.subrange(0, n as int) == tour@);
            if tour[n - 1] != tour[0] {
                self.deposit(tour[n - 1], tour[0], delta);
            }
        }
    }

    /// Puts every entry back to the initial level.
    pub fn reset(&mut self)
        requires
            old(self).wf(),
        ensures
            final(self).wf(),
            final(self).spec_size() == old(self).spec_size(),
            final(self).initial() == old(self).initial(),
            forall|i: int, j: int|
                in_range(old(self).spec_size() as int, i, j) ==> #[trigger] final(self).level(i, j)
                    == old(self).initial(),
    {
        let n = self.size;
        let init = self.initial_pheromone;
        assert forall|x: int| 0 <= x < n implies (#[trigger] self.matrix@[x])@.len() == n by {
            assert(self.cells()[x] == self.matrix@[x]@);
        }
        let mut a: usize = 0;
        while a < n
            invariant
                n == self.size,
                self.size == old(self).size,
                init == self.initial_pheromone,
                self.initial_pheromone == old(self).initial_pheromone,
                PHEROMONE_FLOOR <= init <= PHEROMONE_CEILING,
                a <= n,
                self.matrix@.len() == n,
                forall|x: int| 0 <= x < n ==> (#[trigger] self.matrix@[x])@.len() == n,
                forall|x: int| 0 <= x < a ==> (#[trigger] self.matrix@[x])@ == Seq::new(n as nat, |_b: int| init),
            decreases n - a,
        {
            let mut row: Vec<u64> = Vec::new();
            let mut b: usize = 0;
            while b < n
                invariant
                    b <= n,
                    row@ == Seq::new(b as nat, |_b: int| init),
                decreases n - b,
            {
                row.push(init);
                b = b + 1;
                assert(row@ =~= Seq::new(b as nat, |_b: int| init));
            }
            self.matrix.set(a, row);
            a = a + 1;
        }
        proof {
            assert forall|x: int| 0 <= x < n implies (#[trigger] self.cells()[x]) == Seq::new(
                n as nat,
                |_b: int| init,
            ) by {
                assert(self.cells()[x] == self.matrix@[x]@);
            }
        }
    }

    /// The highest off-diagonal level, or zero when there is none.
    pub fn get_max_pheromone(&self) -> (r: u64)
        requires
            self.wf(),
        ensures
            forall|i: int, j: int|
                in_range(self.spec_size() as int, i, j) && i != j ==> #[trigger] self.level(i, j)
                    <= r,
            r == 0 || exists|i: int, j: int|
                in_range(self.spec_size() as int, i, j) && i != j && #[trigger] self.level(i, j)
                    == r,
    {
        let n = self.size;
        let mut max_val: u64 = 0;
        let mut a: usize = 0;
        while a < n
            invariant
                self.wf(),
                n == self.spec_size(),
                a <= n,
                forall|i: int, j: int|
                    0 <= i < a && 0 <= j < n && i != j ==> #[trigger] self.level(i, j) <= max_val,
                max_val == 0 || exists|i: int, j: int|
                    in_range(n as int, i, j) && i != j && #[trigger] self.level(i, j) == max_val,
            decreases n - a,
        {
            assert(self.cells()[a as int] == self.matrix@[a as int]@);
            let mut b: usize = 0;
            while b < n
                invariant
                    self.wf(),
                    n == self.spec_size(),
                    a < n,
                    b <= n,
                    self.cells()[a as int] == self.matrix@[a as int]@,
                    forall|i: int, j: int|
                        0 <= i < a && 0 <= j < n && i != j ==> #[trigger] self.level(i, j) <= max_val,
                    forall|j: int| 0 <= j < b && a != j ==> #[trigger] self.level(a as int, j) <= max_val,
                    max_val == 0 || exists|i: int, j: int|
                        in_range(n as int, i, j) && i != j && #[trigger] self.level(i, j) == max_val,
                decreases n - b,
            {
                if a != b && self.matrix[a][b] > max_val {
                    max_val = self.matrix[a][b];
                    assert(self.level(a as int, b as int) == max_val);
                }
                b = b + 1;
            }
            a = a + 1;
        }
        max_val
    }

    /// The levels, row by row.
    pub fn get_matrix(&self) -> (r: &Vec<Vec<u64>>)
        ensures
            r@.map_values(|row: Vec<u64>| row@) == self.cells(),
    {
        &self.matrix
    }

    /// The level every entry starts from.
    pub fn initial_level(&self) -> (r: u64)
        ensures
            r == self.initial(),
    {
        self.initial_pheromone
    }

    pub fn size(&self) -> (r: usize)
        ensures
            r == self.spec_size(),
    {
        self.size
    }
}

} // verus!
