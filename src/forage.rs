//! The foraging variant: a nest, food sources with a bounded stock, and ants
//! that alternate between searching for food and carrying it home.

use vstd::prelude::*;

use crate::geometry::{coord_ok, lemma_distance_nonneg, Location, COORD_LIMIT};
use crate::pheromone::{in_range, PheromoneMatrix, RATE_ONE};
use crate::selection::{
    compute_edge_weight, edge_weight, keep_positive, lemma_edge_weight_range, lemma_scaled_weight_range,
    lemma_some_positive, lemma_zero_sum, random_below, roulette_pick, roulette_select, sat_mul,
    total_weight, weight_mul, weight_sum, WEIGHT_ONE,
};

verus! {

/// An agent counts as at a place within this distance of it (10.0).
pub const PROXIMITY: u64 = 10_000_000;

/// Amount an ant takes from a source in one go (1.0).
pub const TAKE_AMOUNT: u64 = 1_000_000;

/// Most points kept in an ant's path.
pub const MAX_PATH_LENGTH: usize = 50;

/// The ants' home.
#[derive(Clone, Copy, Debug, PartialEq, Eq, Structural)]
pub struct Nest {
    pub location: Location,
}

impl Nest {
    pub fn new(x: i64, y: i64) -> (r: Nest)
        requires
            coord_ok(x),
            coord_ok(y),
        ensures
            r.location == (Location { x, y }),
            r.location.wf(),
    {
        Nest { location: Location::new(x, y) }
    }
}

/// A place holding food, with its current stock and the stock it was filled to.
#[derive(Clone, Copy, Debug, PartialEq, Eq, Structural)]
pub struct FoodSource {
    pub location: Location,
    pub food_amount: u64,
    pub max_food: u64,
}

/// `amount * RATE_ONE / max`, or zero when `max` is zero.
pub open spec fn ratio_of(amount: int, max: int) -> int {
    if max > 0 {
        amount * RATE_ONE / max
    } else {
        0
    }
}

impl FoodSource {
    /// The stock lies within the capacity, and the place within bounds.
    pub open spec fn wf(&self) -> bool {
        self.food_amount <= self.max_food && self.location.wf()
    }

    /// A full source holding `food_amount`.
    pub fn new(x: i64, y: i64, food_amount: u64) -> (r: FoodSource)
        requires
            coord_ok(x),
            coord_ok(y),
        ensures
            r.wf(),
            r.location == (Location { x, y }),
            r.food_amount == food_amount,
            r.max_food == food_amount,
    {
        FoodSource { location: Location::new(x, y), food_amount, max_food: food_amount }
    }

    /// Takes up to `amount` from the stock and returns what was taken.
    pub fn take_food(&mut self, amount: u64) -> (taken: u64)
        ensures
            taken == if amount < old(self).food_amount {
                amount
            } else {
                old(self).food_amount
            },
            final(self).food_amount == old(self).food_amount - taken,
            final(self).max_food == old(self).max_food,
            final(self).location == old(self).location,
    {
        let taken = if amount < self.food_amount {
            amount
        } else {
            self.food_amount
        };
        self.food_amount = self.food_amount - taken;
        taken
    }

    pub fn is_depleted(&self) -> (r: bool)
        ensures
            r == (self.food_amount == 0),
    {
        self.food_amount == 0
    }

    /// Share of the capacity still in stock, in parts per million.
    pub fn food_ratio(&self) -> (r: u64)
        requires
            self.wf(),
        ensures
            r == ratio_of(self.food_amount as int, self.max_food as int),
            r <= RATE_ONE,
    {
        if self.max_food > 0 {
            assert(self.food_amount as u128 * RATE_ONE as u128 <= self.max_food as u128 * 1_000_000) by (nonlinear_arith)
                requires
                    self.food_amount <= self.max_food,
            ;
            assert(self.max_food as u128 * 1_000_000 <= 0xFFFF_FFFF_FFFF_FFFF * 1_000_000) by (nonlinear_arith)
                requires
                    self.max_food <= 0xFFFF_FFFF_FFFF_FFFF,
            ;
            let q: u128 = self.food_amount as u128 * RATE_ONE as u128 / self.max_food as u128;
            let ghost a = self.food_amount as int;
            let ghost m = self.max_food as int;
            assert(a * 1_000_000 / m <= 1_000_000) by (nonlinear_arith)
                requires
                    a <= m,
                    m > 0,
                    a >= 0,
            ;
            q as u64
        } else {
            0
        }
    }
}

/// What a foraging ant is doing.
#[derive(Clone, Copy, Debug, PartialEq, Eq, Structural)]
pub enum AntState {
    SearchingForFood,
    CarryingFood,
}

/// The point a fraction `p` (parts per million) of the way from `a` to `b`, rounded down.
pub open spec fn lerp_spec(a: int, b: int, p: int) -> int {
    ((a + COORD_LIMIT) * (RATE_ONE - p) + (b + COORD_LIMIT) * p) / (RATE_ONE as int) - COORD_LIMIT
}

/// `lerp_spec` on machine integers; the result lies between `a` and `b`.
pub fn lerp(a: i64, b: i64, p: u64) -> (r: i64)
    requires
        coord_ok(a),
        coord_ok(b),
        p <= RATE_ONE,
    ensures
        r == lerp_spec(a as int, b as int, p as int),
        a <= b ==> a <= r <= b,
        b <= a ==> b <= r <= a,
        coord_ok(r),
{
    let ua: u128 = (a as i128 + COORD_LIMIT as i128) as u128;
    let ub: u128 = (b as i128 + COORD_LIMIT as i128) as u128;
    let q: u128 = RATE_ONE as u128 - p as u128;
    let pw: u128 = p as u128;
    proof {
        assert(ua * q <= 0x200_0000_0000 * 1_000_000) by (nonlinear_arith)
            requires
                ua <= 0x200_0000_0000,
                q <= 1_000_000,
        ;
        assert(ub * pw <= 0x200_0000_0000 * 1_000_000) by (nonlinear_arith)
            requires
                ub <= 0x200_0000_0000,
                pw <= 1_000_000,
        ;
    }
    let num: u128 = ua * q + ub * pw;
    let v: u128 = num / RATE_ONE as u128;
    proof {
        let lo = if ua <= ub { ua as int } else { ub as int };
        let hi = if ua <= ub { ub as int } else { ua as int };
        assert(lo * 1_000_000 <= num <= hi * 1_000_000) by (nonlinear_arith)
            requires
                num == ua * q + ub * pw,
                q + pw == 1_000_000,
                lo <= ua <= hi,
                lo <= ub <= hi,
                0 <= q,
                0 <= pw,
        ;
        assert(lo <= v <= hi) by (nonlinear_arith)
            requires
                lo * 1_000_000 <= num <= hi * 1_000_000,
                v == num / 1_000_000,
        ;
    }
    (v as i128 - COORD_LIMIT as i128) as i64
}

/// A foraging ant. Positions are in millionths; progress along a move is in
/// parts per million.
#[derive(Clone, Debug)]
pub struct Ant {
    pub id: usize,
    pub x: i64,
    pub y: i64,
    pub target_x: i64,
    pub target_y: i64,
    pub path: Vec<(i64, i64)>,
    pub is_moving: bool,
    pub move_progress: u64,
    pub state: AntState,
    pub carrying_food: u64,
    pub total_food_collected: u64,
    pub nest_location: Location,
    pub current_target_food: Option<usize>,
}

/// Every point of `path` lies within bounds.
pub open spec fn path_ok(path: Seq<(i64, i64)>) -> bool {
    forall|k: int| 0 <= k < path.len() ==> coord_ok((#[trigger] path[k]).0) && coord_ok(path[k].1)
}

/// The path after `p` is appended, dropping the oldest point once it is full.
pub open spec fn path_after(path: Seq<(i64, i64)>, p: (i64, i64)) -> Seq<(i64, i64)> {
    if path.len() >= MAX_PATH_LENGTH {
        path.drop_first().push(p)
    } else {
        path.push(p)
    }
}

/// Weight of heading for a food source: its edge weight scaled by `1 + 2 * ratio`;
/// zero for an empty source, and positive for a non-empty one at a positive level.
pub open spec fn food_weight(
    level: int,
    distance: int,
    alpha: int,
    beta: int,
    amount: int,
    ratio: int,
) -> int {
    if amount == 0 {
        0
    } else {
        keep_positive(
            sat_mul(edge_weight(level, distance, alpha, beta), WEIGHT_ONE + 2 * ratio * 1_000_000),
            level > 0,
        )
    }
}

impl Ant {
    pub open spec fn wf(&self) -> bool {
        &&& coord_ok(self.x) && coord_ok(self.y)
        &&& coord_ok(self.target_x) && coord_ok(self.target_y)
        &&& self.nest_location.wf()
        &&& path_ok(self.path@)
        &&& self.path@.len() <= MAX_PATH_LENGTH
        &&& self.move_progress <= RATE_ONE
    }

    /// Position as a location.
    pub open spec fn position(&self) -> Location {
        Location { x: self.x, y: self.y }
    }

    /// The weight of food source `i` seen from this ant.
    pub open spec fn weight_of_source(
        &self,
        food_sources: Seq<FoodSource>,
        pheromones: PheromoneMatrix,
        i: int,
        alpha: int,
        beta: int,
    ) -> u64 {
        let f = food_sources[i];
        food_weight(
            (if in_range(pheromones.spec_size() as int, 0, i + 1) {
                pheromones.level(0, i + 1)
            } else {
                pheromones.initial()
            }) as int,
            self.position().dist_to(f.location),
            alpha,
            beta,
            f.food_amount as int,
            ratio_of(f.food_amount as int, f.max_food as int),
        ) as u64
    }

    /// The weights of all food sources, in their order.
    pub open spec fn source_weights(
        &self,
        food_sources: Seq<FoodSource>,
        pheromones: PheromoneMatrix,
        alpha: int,
        beta: int,
    ) -> Seq<u64> {
        Seq::new(
            food_sources.len(),
            |i: int| self.weight_of_source(food_sources, pheromones, i, alpha, beta),
        )
    }

    /// `new` is `old` after setting off towards source `food_idx` of `fs`.
    pub open spec fn headed_effect(old: Ant, food_idx: int, fs: Seq<FoodSource>, new: Ant) -> bool {
        if food_idx >= fs.len() || fs[food_idx as int].food_amount == 0 {
            new == old
        } else {
            &&& new.target_x == fs[food_idx as int].location.x
            &&& new.target_y == fs[food_idx as int].location.y
            &&& new.is_moving
            &&& new.move_progress == 0
            &&& new.current_target_food == Some(food_idx as usize)
            &&& new.path@ == if old.path@.len() > 10 {
                old.path@.subrange(old.path@.len() - 5, old.path@.len() as int)
            } else {
                old.path@
            }
            &&& new.x == old.x && new.y == old.y
            &&& new.state == old.state
            &&& new.carrying_food == old.carrying_food
            &&& new.total_food_collected == old.total_food_collected
            &&& new.nest_location == old.nest_location
            &&& new.id == old.id
        }
    }

    /// `new` is `old` after its move advanced by `speed`.
    pub open spec fn moved_effect(old: Ant, speed: int, new: Ant) -> bool {
        &&& (new.state == old.state)
        &&& (new.carrying_food == old.carrying_food)
        &&& (new.total_food_collected == old.total_food_collected)
        &&& (new.current_target_food == old.current_target_food)
        &&& (new.nest_location == old.nest_location)
        &&& (new.target_x == old.target_x)
        &&& (new.target_y == old.target_y)
        &&& (new.id == old.id)
        &&& (!old.is_moving ==> new == old)
        &&& (old.is_moving && speed >= RATE_ONE - old.move_progress ==> {
                &&& new.x == old.target_x
                &&& new.y == old.target_y
                &&& !new.is_moving
                &&& new.move_progress == RATE_ONE
                &&& new.path@ == path_after(
                    old.path@,
                    (old.target_x, old.target_y),
                )
            })
        &&& (old.is_moving && speed < RATE_ONE - old.move_progress ==> {
                let p = old.move_progress + speed;
                let start = if old.path@.len() == 0 {
                    (old.x, old.y)
                } else {
                    old.path@.last()
                };
                &&& new.is_moving
                &&& new.move_progress == p
                &&& new.x == lerp_spec(start.0 as int, old.target_x as int, p)
                &&& new.y == lerp_spec(start.1 as int, old.target_y as int, p)
                &&& new.path == old.path
            })
    }

    /// A searching ant standing at the nest.
    pub fn new(id: usize, nest: &Nest) -> (r: Ant)
        requires
            nest.location.wf(),
        ensures
            r.wf(),
            r.id == id,
            r.x == nest.location.x && r.y == nest.location.y,
            r.target_x == nest.location.x && r.target_y == nest.location.y,
            r.path@ == seq![(nest.location.x, nest.location.y)],
            !r.is_moving,
            r.move_progress == 0,
            r.state == AntState::SearchingForFood,
            r.carrying_food == 0,
            r.total_food_collected == 0,
            r.nest_location == nest.location,
            r.current_target_food is None,
    {
        let mut path: Vec<(i64, i64)> = Vec::new();
        path.push((nest.location.x, nest.location.y));
        Ant {
            id,
            x: nest.location.x,
            y: nest.location.y,
            target_x: nest.location.x,
            target_y: nest.location.y,
            path,
            is_moving: false,
            move_progress: 0,
            state: AntState::SearchingForFood,
            carrying_food: 0,
            total_food_collected: 0,
            nest_location: nest.location,
            current_target_food: None,
        }
    }

    /// The weight of heading for each food source.
    pub fn food_weights(
        &self,
        food_sources: &[FoodSource],
        pheromones: &PheromoneMatrix,
        alpha: u32,
        beta: u32,
    ) -> (r: Vec<u64>)
        requires
            self.wf(),
            pheromones.wf(),
            forall|k: int| 0 <= k < food_sources@.len() ==> (#[trigger] food_sources@[k]).wf(),
        ensures
            r@ == self.source_weights(food_sources@, *pheromones, alpha as int, beta as int),
    {
        let n = food_sources.len();
        let here = Location { x: self.x, y: self.y };
        let mut weights: Vec<u64> = Vec::new();
        let mut i: usize = 0;
        proof {
            pheromones.lemma_wf();
        }
        while i < n
            invariant
                n == food_sources@.len(),
                self.wf(),
                pheromones.wf(),
                here == self.position(),
                forall|k: int| 0 <= k < food_sources@.len() ==> (#[trigger] food_sources@[k]).wf(),
                i <= n,
                weights@ == self.source_weights(food_sources@, *pheromones, alpha as int, beta as int).subrange(0, i as int),
            decreases n - i,
        {
            let f = &food_sources[i];
            let w: u64 = if f.food_amount == 0 {
                0
            } else {
                let level = if i < usize::MAX {
                    pheromones.get(0, i + 1)
                } else {
                    pheromones.initial_level()
                };
                proof {
                    pheromones.lemma_wf();
                }
                let d = here.distance_to(&f.location);
                let ratio = f.food_ratio();
                let w = weight_mul(compute_edge_weight(level, d, alpha, beta), WEIGHT_ONE + 2 * ratio * 1_000_000);
                if w == 0 && level > 0 {
                    1
                } else {
                    w
                }
            };
            weights.push(w);
            i = i + 1;
            assert(weights@ =~= self.source_weights(food_sources@, *pheromones, alpha as int, beta as int).subrange(0, i as int));
        }
        assert(weights@ =~= self.source_weights(food_sources@, *pheromones, alpha as int, beta as int));
        weights
    }

    /// The food source to head for, for a given draw: the roulette choice among
    /// the non-empty sources. `None` for an ant that is carrying food, or when no
    /// source has a positive weight.
    pub fn choose_food_source(
        &self,
        food_sources: &[FoodSource],
        pheromones: &PheromoneMatrix,
        alpha: u32,
        beta: u32,
        draw: u128,
    ) -> (r: Option<usize>)
        requires
            self.wf(),
            pheromones.wf(),
            forall|k: int| 0 <= k < food_sources@.len() ==> (#[trigger] food_sources@[k]).wf(),
        ensures
            self.state != AntState::SearchingForFood ==> r is None,
            self.state == AntState::SearchingForFood ==> r == match roulette_pick(
                self.source_weights(food_sources@, *pheromones, alpha as int, beta as int),
                draw as int,
            ) {
                Some(i) => Some(i as usize),
                None => None::<usize>,
            },
            r matches Some(i) ==> i < food_sources@.len() && food_sources@[i as int].food_amount > 0,
    {
        if self.state != AntState::SearchingForFood {
            return None;
        }
        let weights = self.food_weights(food_sources, pheromones, alpha, beta);
        roulette_select(&weights, draw)
    }

    /// The food source to head for, drawn at random by the roulette rule among the
    /// non-empty sources. `None` for an ant that is carrying food, and exactly when
    /// no source has a positive weight.
    pub fn select_food_source(
        &self,
        food_sources: &[FoodSource],
        pheromones: &PheromoneMatrix,
        alpha: u32,
        beta: u32,
    ) -> (r: Option<usize>)
        requires
            self.wf(),
            pheromones.wf(),
            forall|k: int| 0 <= k < food_sources@.len() ==> (#[trigger] food_sources@[k]).wf(),
        ensures
            self.state != AntState::SearchingForFood ==> r is None,
            self.state == AntState::SearchingForFood ==> ({
                let ws = self.source_weights(food_sources@, *pheromones, alpha as int, beta as int);
                &&& (r is None <==> weight_sum(ws) == 0)
                &&& r matches Some(i) ==> exists|d: int|
                    0 <= d < weight_sum(ws) && roulette_pick(ws, d) == Some(i as int)
            }),
            r matches Some(i) ==> i < food_sources@.len() && food_sources@[i as int].food_amount > 0,
            self.state == AntState::SearchingForFood ==> (r is None <==> forall|k: int|
                0 <= k < food_sources@.len() ==> #[trigger] food_sources@[k].food_amount == 0),
    {
        if self.state != AntState::SearchingForFood {
            return None;
        }
        let weights = self.food_weights(food_sources, pheromones, alpha, beta);
        let total = total_weight(&weights);
        proof {
            pheromones.lemma_wf();
            let ws = weights@;
            assert forall|k: int| 0 <= k < ws.len() implies (#[trigger] ws[k] > 0) == (food_sources@[k].food_amount > 0) by {
                let f = food_sources@[k];
                let lv = (if in_range(pheromones.spec_size() as int, 0, k + 1) {
                    pheromones.level(0, k + 1)
                } else {
                    pheromones.initial()
                }) as int;
                let here = self.position();
                lemma_distance_nonneg(here.x as int, here.y as int, f.location.x as int, f.location.y as int);
                let d = here.dist_to(f.location);
                lemma_edge_weight_range(lv, d, alpha as int, beta as int);
                assert(f.wf());
                let ratio = ratio_of(f.food_amount as int, f.max_food as int);
                assert(ratio >= 0) by (nonlinear_arith)
                    requires
                        ratio == ratio_of(f.food_amount as int, f.max_food as int),
                        f.food_amount >= 0,
                ;
                lemma_scaled_weight_range(edge_weight(lv, d, alpha as int, beta as int), WEIGHT_ONE + 2 * ratio * 1_000_000);
            }
            if exists|k: int| 0 <= k < ws.len() && food_sources@[k].food_amount > 0 {
                let k = choose|k: int| 0 <= k < ws.len() && food_sources@[k].food_amount > 0;
                lemma_some_positive(ws, k);
            } else {
                lemma_zero_sum(ws, ws.len() as int);
            }
        }
        if total == 0 {
            return None;
        }
        let draw = random_below(total);
        roulette_select(&weights, draw)
    }

    /// Sets off towards food source `food_idx` when it exists and is not empty;
    /// a path longer than ten points is cut to its last five first.
    pub fn start_move_to_food(&mut self, food_idx: usize, food_sources: &[FoodSource])
        requires
            old(self).wf(),
            forall|k: int| 0 <= k < food_sources@.len() ==> (#[trigger] food_sources@[k]).wf(),
        ensures
            final(self).wf(),
            Ant::headed_effect(*old(self), food_idx as int, food_sources@, *final(self)),
    {
        if food_idx >= food_sources.len() || food_sources[food_idx].food_amount == 0 {
            return;
        }
        let target = food_sources[food_idx].location;
        self.target_x = target.x;
        self.target_y = target.y;
        self.is_moving = true;
        self.move_progress = 0;
        self.current_target_food = Some(food_idx);
        let len = self.path.len();
        if len > 10 {
            let ghost old_path = self.path@;
            let mut kept: Vec<(i64, i64)> = Vec::new();
            let mut k: usize = len - 5;
            while k < len
                invariant
                    len == self.path@.len(),
                    len > 10,
                    len - 5 <= k <= len,
                    old_path == self.path@,
                    kept@ == old_path.subrange(len - 5, k as int),
                decreases len - k,
            {
                kept.push(self.path[k]);
                k = k + 1;
                assert(kept@ =~= old_path.subrange(len - 5, k as int));
            }
            self.path = kept;
        }
    }

    /// Turns for home carrying food: the nest becomes the target. The source the
    /// food came from is kept, for the trail to be laid towards it.
    pub fn start_return_to_nest(&mut self)
        requires
            old(self).wf(),
        ensures
            final(self).wf(),
            final(self).target_x == old(self).nest_location.x,
            final(self).target_y == old(self).nest_location.y,
            final(self).is_moving,
            final(self).move_progress == 0,
            final(self).state == AntState::CarryingFood,
            final(self).current_target_food == old(self).current_target_food,
            final(self).x == old(self).x && final(self).y == old(self).y,
            final(self).path == old(self).path,
            final(self).carrying_food == old(self).carrying_food,
            final(self).total_food_collected == old(self).total_food_collected,
            final(self).nest_location == old(self).nest_location,
            final(self).id == old(self).id,
    {
        self.target_x = self.nest_location.x;
        self.target_y = self.nest_location.y;
        self.is_moving = true;
        self.move_progress = 0;
        self.state = AntState::CarryingFood;
    }

    /// Advances a move by `speed` (parts per million of the whole move). On
    /// arrival the ant stands at its target, which is added to its path, and
    /// stops; before that it stands at the matching point between the last point
    /// of its path and the target.
    pub fn update_movement(&mut self, speed: u64)
        requires
            old(self).wf(),
        ensures
            final(self).wf(),
            Ant::moved_effect(*old(self), speed as int, *final(self)),
    {
        if !self.is_moving {
            return;
        }
        if speed >= RATE_ONE - self.move_progress {
            self.move_progress = RATE_ONE;
            self.x = self.target_x;
            self.y = self.target_y;
            if self.path.len() >= MAX_PATH_LENGTH {
                self.path.remove(0);
            }
            self.path.push((self.x, self.y));
            self.is_moving = false;
            proof {
                assert(self.path@ =~= path_after(old(self).path@, (old(self).target_x, old(self).target_y)));
            }
        } else {
            self.move_progress = self.move_progress + speed;
            let (sx, sy) = if self.path.len() == 0 {
                (self.x, self.y)
            } else {
                self.path[self.path.len() - 1]
            };
            self.x = lerp(sx, self.target_x, self.move_progress);
            self.y = lerp(sy, self.target_y, self.move_progress);
        }
    }

    /// Takes one unit from the targeted source. Returns whether anything was taken;
    /// what was taken becomes the load and is added to the ant's collected total.
    pub fn collect_food(&mut self, food_sources: &mut Vec<FoodSource>) -> (r: bool)
        requires
            old(self).wf(),
            old(self).total_food_collected <= u64::MAX - TAKE_AMOUNT,
        ensures
            final(self).wf(),
            final(food_sources)@.len() == old(food_sources)@.len(),
            r == (old(self).current_target_food matches Some(i) && i < old(food_sources)@.len()
                && old(food_sources)@[i as int].food_amount > 0),
            !r ==> *final(self) == *old(self) && final(food_sources)@ == old(food_sources)@,
            r ==> {
                let i = old(self).current_target_food.unwrap() as int;
                let taken = if TAKE_AMOUNT < old(food_sources)@[i].food_amount {
                    TAKE_AMOUNT
                } else {
                    old(food_sources)@[i].food_amount
                };
                &&& final(food_sources)@ == old(food_sources)@.update(
                    i,
                    FoodSource { food_amount: (old(food_sources)@[i].food_amount - taken) as u64, ..old(food_sources)@[i] },
                )
                &&& final(self).carrying_food == taken
                &&& final(self).total_food_collected == old(self).total_food_collected + taken
                &&& *final(self) == (Ant { carrying_food: taken, total_food_collected: (old(self).total_food_collected + taken) as u64, ..*old(self) })
            },
    {
        match self.current_target_food {
            Some(food_idx) => {
                if food_idx < food_sources.len() && food_sources[food_idx].food_amount > 0 {
                    let mut source = food_sources[food_idx];
                    let taken = source.take_food(TAKE_AMOUNT);
                    food_sources.set(food_idx, source);
                    self.carrying_food = taken;
                    self.total_food_collected = self.total_food_collected + taken;
                    true
                } else {
                    false
                }
            },
            None => false,
        }
    }

    /// Hands over the load and goes back to searching; returns the load.
    pub fn deliver_food(&mut self) -> (delivered: u64)
        requires
            old(self).wf(),
        ensures
            final(self).wf(),
            delivered == old(self).carrying_food,
            *final(self) == (Ant { carrying_food: 0, state: AntState::SearchingForFood, ..*old(self) }),
    {
        let delivered = self.carrying_food;
        self.carrying_food = 0;
        self.state = AntState::SearchingForFood;
        delivered
    }

    /// Within `PROXIMITY` of the nest.
    pub fn is_at_nest(&self) -> (r: bool)
        requires
            self.wf(),
        ensures
            r == (self.position().dist_to(self.nest_location) < PROXIMITY),
    {
        let here = Location { x: self.x, y: self.y };
        here.distance_to(&self.nest_location) < PROXIMITY
    }

    /// Within `PROXIMITY` of the targeted food source.
    pub fn is_at_food_source(&self, food_sources: &[FoodSource]) -> (r: bool)
        requires
            self.wf(),
            forall|k: int| 0 <= k < food_sources@.len() ==> (#[trigger] food_sources@[k]).wf(),
        ensures
            r == (self.current_target_food matches Some(i) && i < food_sources@.len()
                && self.position().dist_to(food_sources@[i as int].location) < PROXIMITY),
    {
        match self.current_target_food {
            Some(food_idx) => {
                if food_idx < food_sources.len() {
                    let here = Location { x: self.x, y: self.y };
                    here.distance_to(&food_sources[food_idx].location) < PROXIMITY
                } else {
                    false
                }
            },
            None => false,
        }
    }

    /// Back at the nest, searching, empty-handed and still. The collected total is kept.
    pub fn reset(&mut self)
        requires
            old(self).wf(),
        ensures
            final(self).wf(),
            final(self).x == old(self).nest_location.x && final(self).y == old(self).nest_location.y,
            final(self).target_x == old(self).nest_location.x,
            final(self).target_y == old(self).nest_location.y,
            final(self).path@ == seq![(old(self).nest_location.x, old(self).nest_location.y)],
            !final(self).is_moving,
            final(self).move_progress == 0,
            final(self).state == AntState::SearchingForFood,
            final(self).carrying_food == 0,
            final(self).current_target_food is None,
            final(self).total_food_collected == old(self).total_food_collected,
            final(self).nest_location == old(self).nest_location,
            final(self).id == old(self).id,
    {
        self.x = self.nest_location.x;
        self.y = self.nest_location.y;
        self.target_x = self.nest_location.x;
        self.target_y = self.nest_location.y;
        let mut path: Vec<(i64, i64)> = Vec::new();
        path.push((self.nest_location.x, self.nest_location.y));
        self.path = path;
        self.is_moving = false;
        self.move_progress = 0;
        self.state = AntState::SearchingForFood;
        self.carrying_food = 0;
        self.current_target_food = None;
    }
}

} // verus!
