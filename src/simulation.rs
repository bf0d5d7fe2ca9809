//! The foraging simulation: a nest, food sources, a population of foraging
//! ants and the pheromone table between the nest and each source, advanced one
//! tick at a time. Each tick first decides every ant's action from the state as
//! it stands, then applies them all.

use vstd::prelude::*;

use crate::forage::{Ant, AntState, FoodSource, Nest, PROXIMITY, TAKE_AMOUNT};
use crate::geometry::{coord_ok, Location, SCALE};
use crate::grid::{PheromoneGrid, GRID_CEILING};
use crate::pheromone::{deposits_applied, evaporated_all, field_ok, in_range, PheromoneMatrix, PHEROMONE_CEILING, RATE_ONE};
use crate::selection::{random_below, roulette_pick, weight_sum};
use crate::steering::{keep_in_bounds, FIELD_HEIGHT, FIELD_WIDTH, MARGIN};
use vstd::string::StringSliceAdditionalSpecFns;

verus! {

/// Most food sources; further ones are dropped.
pub const MAX_FOOD_SOURCES: usize = 20;

/// A source may not be placed closer than this to the nest (30.0).
pub const MIN_NEST_DISTANCE: u64 = 30_000_000;

/// A removal takes every source within this distance of the point (15.0).
pub const CLICK_RADIUS: u64 = 15_000_000;

/// Bound on the food taken out over a run; no ant collects past it.
pub const EXTRACTION_LIMIT: u64 = 0x7FFF_FFFF_FFFF_FFFF;

/// Chance, in parts per million, that a tick ends with a pheromone update (10%).
pub const UPDATE_CHANCE: u64 = 100_000;

/// Stock of a new source: at least this much (50.0) ...
pub const FOOD_BASE: u64 = 50_000_000;

/// ... plus a random amount below this (50.0).
pub const FOOD_SPREAD: u64 = 50_000_000;

/// Trail laid on the grid by a searching ant at each step (0.5).
pub const SEARCH_TRAIL: u64 = 500_000;

/// Trail laid on the grid by a carrying ant at each step (2.0).
pub const CARRY_TRAIL: u64 = 2_000_000;

/// Side of a grid cell (10.0).
pub const GRID_CELL: u64 = 10_000_000;

/// Grid columns, covering a width of 800.
pub const GRID_WIDTH: usize = 80;

/// Grid rows, covering a height of 600.
pub const GRID_HEIGHT: usize = 60;

/// The trail deposits of the periodic update, one per ant carrying food from a
/// known source, in ant order: the nest-to-source pair and `trail_amount`.
pub open spec fn trail_ops(ants: Seq<Ant>, num_sources: int, q: int) -> Seq<(int, int, int)>
    decreases ants.len(),
{
    if ants.len() == 0 {
        Seq::empty()
    } else {
        let rest = trail_ops(ants.drop_last(), num_sources, q);
        let a = ants.last();
        match a.current_target_food {
            Some(idx) => if a.state == AntState::CarryingFood && a.carrying_food > 0 && idx < num_sources {
                rest.push((0, idx + 1, trail_amount(q, a.carrying_food as int)))
            } else {
                rest
            },
            None => rest,
        }
    }
}

/// With no ant carrying food there are no trail deposits.
pub proof fn lemma_no_loads_no_trails(ants: Seq<Ant>, num_sources: int, q: int)
    requires
        forall|k: int|
            0 <= k < ants.len() ==> (#[trigger] ants[k]).state != AntState::CarryingFood || ants[k].carrying_food
                == 0,
    ensures
        trail_ops(ants, num_sources, q).len() == 0,
    decreases ants.len(),
{
    if ants.len() > 0 {
        assert forall|k: int| 0 <= k < ants.drop_last().len() implies (#[trigger] ants.drop_last()[k]).state
            != AntState::CarryingFood || ants.drop_last()[k].carrying_food == 0 by {
            assert(ants.drop_last()[k] == ants[k]);
        }
        lemma_no_loads_no_trails(ants.drop_last(), num_sources, q);
    }
}

/// Total stock of the sources.
pub open spec fn sum_stock(fs: Seq<FoodSource>) -> int
    decreases fs.len(),
{
    if fs.len() == 0 {
        0
    } else {
        sum_stock(fs.drop_last()) + fs.last().food_amount
    }
}

pub proof fn lemma_sum_stock_update(fs: Seq<FoodSource>, k: int, f: FoodSource)
    requires
        0 <= k < fs.len(),
    ensures
        sum_stock(fs.update(k, f)) == sum_stock(fs) - fs[k].food_amount + f.food_amount,
    decreases fs.len(),
{
    let u = fs.update(k, f);
    if k == fs.len() - 1 {
        assert(u.drop_last() =~= fs.drop_last());
    } else {
        assert(u.drop_last() =~= fs.drop_last().update(k, f));
        lemma_sum_stock_update(fs.drop_last(), k, f);
    }
}

/// Sum of what the ants carry.
pub open spec fn sum_carried(ants: Seq<Ant>) -> int
    decreases ants.len(),
{
    if ants.len() == 0 {
        0
    } else {
        sum_carried(ants.drop_last()) + ants.last().carrying_food
    }
}

pub proof fn lemma_sum_carried_update(ants: Seq<Ant>, i: int, a: Ant)
    requires
        0 <= i < ants.len(),
    ensures
        sum_carried(ants.update(i, a)) == sum_carried(ants) - ants[i].carrying_food
            + a.carrying_food,
    decreases ants.len(),
{
    let u = ants.update(i, a);
    if i == ants.len() - 1 {
        assert(u.drop_last() =~= ants.drop_last());
    } else {
        assert(u.drop_last() =~= ants.drop_last().update(i, a));
        lemma_sum_carried_update(ants.drop_last(), i, a);
    }
}

proof fn lemma_sum_carried_nonneg(ants: Seq<Ant>)
    ensures
        sum_carried(ants) >= 0,
    decreases ants.len(),
{
    if ants.len() > 0 {
        lemma_sum_carried_nonneg(ants.drop_last());
    }
}

/// Sources of `s` farther than `CLICK_RADIUS` from `p`, in order.
pub open spec fn sources_kept(s: Seq<FoodSource>, p: Location) -> Seq<FoodSource>
    decreases s.len(),
{
    if s.len() == 0 {
        s
    } else if s.last().location.dist_to(p) > CLICK_RADIUS {
        sources_kept(s.drop_last(), p).push(s.last())
    } else {
        sources_kept(s.drop_last(), p)
    }
}

proof fn lemma_sources_kept_len(s: Seq<FoodSource>, p: Location)
    ensures
        sources_kept(s, p).len() <= s.len(),
        forall|k: int| 0 <= k < sources_kept(s, p).len() ==> exists|j: int| 0 <= j < s.len() && #[trigger] sources_kept(s, p)[k] == s[j],
    decreases s.len(),
{
    if s.len() > 0 {
        lemma_sources_kept_len(s.drop_last(), p);
        let prev = sources_kept(s.drop_last(), p);
        assert forall|k: int| 0 <= k < sources_kept(s, p).len() implies exists|j: int| 0 <= j < s.len() && #[trigger] sources_kept(s, p)[k] == s[j] by {
            if k < prev.len() {
                let j = choose|j: int| 0 <= j < s.drop_last().len() && prev[k] == s.drop_last()[j];
                assert(sources_kept(s, p)[k] == s[j]);
            } else {
                assert(sources_kept(s, p)[k] == s[s.len() - 1]);
            }
        }
    }
}

/// `s` with a full source of `amount` at `p` appended, cut to `MAX_FOOD_SOURCES`.
pub open spec fn sources_after_add(s: Seq<FoodSource>, p: Location, amount: u64) -> Seq<FoodSource> {
    let added = s.push(FoodSource { location: p, food_amount: amount, max_food: amount });
    if added.len() > MAX_FOOD_SOURCES {
        added.subrange(0, MAX_FOOD_SOURCES as int)
    } else {
        added
    }
}

/// What a source list looks like after the stock of each is refilled.
pub open spec fn refilled(s: Seq<FoodSource>) -> Seq<FoodSource> {
    Seq::new(s.len(), |k: int| FoodSource { food_amount: s[k].max_food, ..s[k] })
}

/// What one ant does in a tick, decided before any ant acts.
#[derive(Clone, Copy, Debug, PartialEq, Eq, Structural)]
pub enum AntAction {
    /// Go on with the current move.
    Advance,
    /// Take food from this source.
    Collect(usize),
    /// Set off towards this source.
    HeadFor(usize),
    /// Hand the load over at the nest.
    Deliver,
    /// Do nothing.
    Stay,
}

/// Source `k` of `fs` is non-empty and within `PROXIMITY` of `here`.
pub open spec fn source_near(fs: Seq<FoodSource>, here: Location, k: int) -> bool {
    fs[k].food_amount > 0 && here.dist_to(fs[k].location) < PROXIMITY
}

/// Deposit laid on the nest-to-source pair for a load `carried`: `q * carried`
/// in fixed point, capped at the ceiling.
pub open spec fn trail_amount(q: int, carried: int) -> int {
    let a = q * carried / (SCALE as int);
    if a > PHEROMONE_CEILING {
        PHEROMONE_CEILING as int
    } else {
        a
    }
}

/// `b` is `a` with its stocks possibly lowered: same places, capacities and count.
pub open spec fn stocks_lowered(a: Seq<FoodSource>, b: Seq<FoodSource>) -> bool {
    &&& a.len() == b.len()
    &&& forall|k: int|
        0 <= k < a.len() ==> {
            &&& (#[trigger] b[k]).location == a[k].location
            &&& b[k].max_food == a[k].max_food
            &&& b[k].food_amount <= a[k].food_amount
        }
}

/// The parameters that can be set by name.
#[derive(Clone, Copy, Debug, PartialEq, Eq, Structural)]
pub enum AcoParam {
    Alpha,
    Beta,
    Evaporation,
    NumAnts,
}

/// `a` and `b` hold the same bytes.
fn same_bytes(a: &[u8], b: &[u8]) -> (r: bool)
    ensures
        r == (a@ == b@),
{
    if a.len() != b.len() {
        return false;
    }
    let mut k: usize = 0;
    while k < a.len()
        invariant
            a@.len() == b@.len(),
            k <= a@.len(),
            a@.subrange(0, k as int) == b@.subrange(0, k as int),
        decreases a@.len() - k,
    {
        if a[k] != b[k] {
            assert(a@[k as int] != b@[k as int]);
            return false;
        }
        assert(a@.subrange(0, k + 1) =~= a@.subrange(0, k as int).push(a@[k as int]));
        assert(b@.subrange(0, k + 1) =~= b@.subrange(0, k as int).push(b@[k as int]));
        k = k + 1;
    }
    assert(a@ =~= a@.subrange(0, k as int));
    assert(b@ =~= b@.subrange(0, k as int));
    true
}

impl AcoParam {
    /// The parameter called `name`: "alpha", "beta", "evaporation" or "num_ants".
    pub fn from_name(name: &str) -> (r: Option<AcoParam>)
        ensures
            r == if name.spec_bytes() == "alpha".spec_bytes() {
                Some(AcoParam::Alpha)
            } else if name.spec_bytes() == "beta".spec_bytes() {
                Some(AcoParam::Beta)
            } else if name.spec_bytes() == "evaporation".spec_bytes() {
                Some(AcoParam::Evaporation)
            } else if name.spec_bytes() == "num_ants".spec_bytes() {
                Some(AcoParam::NumAnts)
            } else {
                None
            },
    {
        let b = name.as_bytes();
        if same_bytes(b, "alpha".as_bytes()) {
            Some(AcoParam::Alpha)
        } else if same_bytes(b, "beta".as_bytes()) {
            Some(AcoParam::Beta)
        } else if same_bytes(b, "evaporation".as_bytes()) {
            Some(AcoParam::Evaporation)
        } else if same_bytes(b, "num_ants".as_bytes()) {
            Some(AcoParam::NumAnts)
        } else {
            None
        }
    }
}

/// `v` brought into `[lo, hi]`.
pub open spec fn clamp_to(v: int, lo: int, hi: int) -> int {
    if v < lo {
        lo
    } else if v > hi {
        hi
    } else {
        v
    }
}

fn clamp_u64(v: u64, lo: u64, hi: u64) -> (r: u64)
    requires
        lo <= hi,
    ensures
        r == clamp_to(v as int, lo as int, hi as int),
{
    if v < lo {
        lo
    } else if v > hi {
        hi
    } else {
        v
    }
}

/// Counters reported to the host.
#[derive(Clone, Copy, Debug, PartialEq, Eq, Structural)]
pub struct SimulationStats {
    pub iteration: u64,
    pub cities_count: usize,
    pub ants_count: usize,
    pub best_distance: u64,
    pub is_running: bool,
}

/// The foraging simulation.
#[derive(Debug)]
pub struct EducationalACO {
    nest: Nest,
    food_sources: Vec<FoodSource>,
    ants: Vec<Ant>,
    pheromones: PheromoneMatrix,
    grid: PheromoneGrid,
    num_ants: usize,
    alpha: u32,
    beta: u32,
    evaporation_rate: u64,
    q: u64,
    animation_speed: u64,
    show_trails: bool,
    show_pheromones: bool,
    is_running: bool,
    total_food_collected: u64,
    total_extracted: u64,
}

impl EducationalACO {
    pub closed spec fn spec_nest(&self) -> Nest {
        self.nest
    }

    pub closed spec fn spec_food_sources(&self) -> Seq<FoodSource> {
        self.food_sources@
    }

    pub closed spec fn spec_ants(&self) -> Seq<Ant> {
        self.ants@
    }

    pub closed spec fn spec_pheromones(&self) -> PheromoneMatrix {
        self.pheromones
    }

    pub closed spec fn spec_grid(&self) -> PheromoneGrid {
        self.grid
    }

    pub closed spec fn spec_num_ants(&self) -> usize {
        self.num_ants
    }

    pub closed spec fn spec_alpha(&self) -> u32 {
        self.alpha
    }

    pub closed spec fn spec_beta(&self) -> u32 {
        self.beta
    }

    pub closed spec fn spec_evaporation_rate(&self) -> u64 {
        self.evaporation_rate
    }

    pub closed spec fn spec_animation_speed(&self) -> u64 {
        self.animation_speed
    }

    pub closed spec fn spec_show_trails(&self) -> bool {
        self.show_trails
    }

    pub closed spec fn spec_show_pheromones(&self) -> bool {
        self.show_pheromones
    }

    pub closed spec fn spec_running(&self) -> bool {
        self.is_running
    }

    /// Food delivered to the nest.
    pub closed spec fn spec_delivered(&self) -> u64 {
        self.total_food_collected
    }

    /// Food taken from sources and either delivered or still carried.
    pub closed spec fn spec_extracted(&self) -> u64 {
        self.total_extracted
    }

    /// The same simulation with the running flag set to `running`.
    pub closed spec fn with_running(&self, running: bool) -> EducationalACO {
        EducationalACO { is_running: running, ..*self }
    }

    pub closed spec fn spec_q(&self) -> u64 {
        self.q
    }

    /// A fresh start: `num_ants` new ants stand searching at the nest, empty-handed,
    /// with only the nest on their paths; every pair of the table holds 1.0; no food
    /// is in transit.
    pub open spec fn fresh(s: EducationalACO) -> bool {
        let nest = s.spec_nest().location;
        &&& s.spec_ants().len() == s.spec_num_ants()
        &&& forall|k: int|
            0 <= k < s.spec_ants().len() ==> {
                let a = #[trigger] s.spec_ants()[k];
                &&& a.id == k
                &&& a.x == nest.x && a.y == nest.y
                &&& a.target_x == nest.x && a.target_y == nest.y
                &&& a.path@ == seq![(nest.x, nest.y)]
                &&& !a.is_moving
                &&& a.move_progress == 0
                &&& a.state == AntState::SearchingForFood
                &&& a.carrying_food == 0
                &&& a.total_food_collected == 0
                &&& a.nest_location == nest
                &&& a.current_target_food is None
            }
        &&& s.spec_pheromones().spec_size() == s.spec_food_sources().len() + 1
        &&& forall|i: int, j: int|
            in_range(s.spec_pheromones().spec_size() as int, i, j) ==> #[trigger] s.spec_pheromones().level(i, j) == SCALE
        &&& s.spec_extracted() == s.spec_delivered()
    }

    /// `a` and `b` agree on the nest and on every setting.
    pub open spec fn settings_same(a: EducationalACO, b: EducationalACO) -> bool {
        &&& a.spec_nest() == b.spec_nest()
        &&& a.spec_num_ants() == b.spec_num_ants()
        &&& a.spec_alpha() == b.spec_alpha()
        &&& a.spec_beta() == b.spec_beta()
        &&& a.spec_evaporation_rate() == b.spec_evaporation_rate()
        &&& a.spec_q() == b.spec_q()
        &&& a.spec_animation_speed() == b.spec_animation_speed()
        &&& a.spec_show_trails() == b.spec_show_trails()
        &&& a.spec_show_pheromones() == b.spec_show_pheromones()
        &&& a.spec_running() == b.spec_running()
    }

    /// `r` is the action the rules give ant `i` of `s`: a moving ant moves on; a
    /// searching ant at a non-empty source collects at the first such source, else
    /// heads for a source picked by the roulette rule, staying only when no source
    /// has a positive weight; a carrying ant delivers at the nest and waits
    /// elsewhere. An index out of range gets `Stay`.
    pub open spec fn action_ok(s: EducationalACO, i: int, r: AntAction) -> bool {
        if !(0 <= i < s.spec_ants().len()) {
            r == AntAction::Stay
        } else {
            let ant = s.spec_ants()[i];
            let fs = s.spec_food_sources();
            let here = ant.position();
            let searching = !ant.is_moving && ant.state == AntState::SearchingForFood;
            let near = exists|j: int| 0 <= j < fs.len() && #[trigger] source_near(fs, here, j);
            let ws = ant.source_weights(fs, s.spec_pheromones(), s.spec_alpha() as int, s.spec_beta() as int);
            &&& ant.is_moving ==> r == AntAction::Advance
            &&& !ant.is_moving && ant.state == AntState::CarryingFood ==> r == if here.dist_to(ant.nest_location) < PROXIMITY {
                AntAction::Deliver
            } else {
                AntAction::Stay
            }
            &&& searching && near ==> (r matches AntAction::Collect(k) && k < fs.len() && source_near(fs, here, k as int)
                && forall|j: int| 0 <= j < k ==> !#[trigger] source_near(fs, here, j))
            &&& searching && !near ==> (r is HeadFor || r is Stay)
            &&& searching && !near ==> (r is Stay <==> weight_sum(ws) == 0)
            &&& searching && !near ==> (r is Stay <==> forall|j: int| 0 <= j < fs.len() ==> #[trigger] fs[j].food_amount == 0)
            &&& r matches AntAction::HeadFor(k) ==> k < fs.len() && fs[k as int].food_amount > 0
                && exists|d: int| 0 <= d < weight_sum(ws) && roulette_pick(ws, d) == Some(k as int)
        }
    }

    /// `actions` holds, for every ant of `s` in order, an action the rules give it.
    pub open spec fn decided(s: EducationalACO, actions: Seq<AntAction>) -> bool {
        &&& actions.len() == s.spec_ants().len()
        &&& forall|k: int| 0 <= k < actions.len() ==> EducationalACO::action_ok(s, k, #[trigger] actions[k])
    }

    /// `new` is `old` after ant `i` carried out `action`.
    pub open spec fn action_effect(old: EducationalACO, i: int, action: AntAction, new: EducationalACO) -> bool {
        let ants = old.spec_ants();
        let fs = old.spec_food_sources();
        if !(0 <= i < ants.len()) {
            new == old
        } else {
            let ant = ants[i];
            let moved = new.spec_ants()[i];
            let rest_same = EducationalACO::settings_same(old, new) && new.spec_pheromones() == old.spec_pheromones();
            match action {
                AntAction::Advance => {
                    &&& rest_same
                    &&& new.spec_ants() == ants.update(i, moved)
                    &&& Ant::moved_effect(ant, (old.spec_animation_speed() / 50) as int, moved)
                    &&& new.spec_food_sources() == fs
                    &&& new.spec_delivered() == old.spec_delivered()
                    &&& new.spec_extracted() == old.spec_extracted()
                    &&& PheromoneGrid::deposit_effect(
                        old.spec_grid(),
                        moved.x as int,
                        moved.y as int,
                        (if moved.state == AntState::SearchingForFood {
                            SEARCH_TRAIL
                        } else {
                            CARRY_TRAIL
                        }) as int,
                        new.spec_grid(),
                    )
                },
                AntAction::Collect(k) => if k < fs.len() && ant.state == AntState::SearchingForFood
                    && fs[k as int].food_amount > 0 && old.spec_extracted() <= EXTRACTION_LIMIT - TAKE_AMOUNT {
                    let taken = if TAKE_AMOUNT < fs[k as int].food_amount {
                        TAKE_AMOUNT
                    } else {
                        fs[k as int].food_amount
                    };
                    &&& rest_same
                    &&& new.spec_ants() == ants.update(
                        i,
                        Ant {
                            current_target_food: Some(k),
                            carrying_food: taken,
                            total_food_collected: (ant.total_food_collected + taken) as u64,
                            target_x: ant.nest_location.x,
                            target_y: ant.nest_location.y,
                            is_moving: true,
                            move_progress: 0,
                            state: AntState::CarryingFood,
                            ..ant
                        },
                    )
                    &&& new.spec_food_sources() == fs.update(
                        k as int,
                        FoodSource { food_amount: (fs[k as int].food_amount - taken) as u64, ..fs[k as int] },
                    )
                    &&& new.spec_delivered() == old.spec_delivered()
                    &&& new.spec_extracted() == old.spec_extracted() + taken
                    &&& new.spec_grid() == old.spec_grid()
                } else {
                    new == old
                },
                AntAction::HeadFor(k) => {
                    &&& rest_same
                    &&& new.spec_ants() == ants.update(i, moved)
                    &&& Ant::headed_effect(ant, k as int, fs, moved)
                    &&& new.spec_food_sources() == fs
                    &&& new.spec_delivered() == old.spec_delivered()
                    &&& new.spec_extracted() == old.spec_extracted()
                    &&& new.spec_grid() == old.spec_grid()
                },
                AntAction::Deliver => if ant.state == AntState::CarryingFood {
                    &&& rest_same
                    &&& new.spec_ants() == ants.update(
                        i,
                        Ant { carrying_food: 0, state: AntState::SearchingForFood, ..ant },
                    )
                    &&& new.spec_food_sources() == fs
                    &&& new.spec_delivered() == old.spec_delivered() + ant.carrying_food
                    &&& new.spec_extracted() == old.spec_extracted()
                    &&& new.spec_grid() == old.spec_grid()
                } else {
                    new == old
                },
                AntAction::Stay => new == old,
            }
        }
    }

    /// `states` runs from `old` to `new`, each state following from the one before
    /// when ant `k` carries out `actions[k]`.
    pub open spec fn action_chain(
        old: EducationalACO,
        actions: Seq<AntAction>,
        states: Seq<EducationalACO>,
        new: EducationalACO,
    ) -> bool {
        &&& states.len() == actions.len() + 1
        &&& states[0] == old
        &&& states[actions.len() as int] == new
        &&& forall|k: int|
            0 <= k < actions.len() ==> EducationalACO::action_effect(#[trigger] states[k], k, actions[k], states[k + 1])
    }

    /// `new` is `old` after `actions[k]` was carried out by ant `k`, for each `k` in order.
    pub open spec fn actions_effect(old: EducationalACO, actions: Seq<AntAction>, new: EducationalACO) -> bool {
        exists|states: Seq<EducationalACO>| #[trigger] EducationalACO::action_chain(old, actions, states, new)
    }

    /// `new` is `old` after the periodic update: the table evaporates once and then
    /// takes, for each ant carrying food from a known source, in order, a deposit
    /// of `trail_amount` on the nest-to-source pair; every grid cell evaporates.
    pub open spec fn updated_effect(old: EducationalACO, new: EducationalACO) -> bool {
        &&& EducationalACO::settings_same(old, new)
        &&& new.spec_ants() == old.spec_ants()
        &&& new.spec_food_sources() == old.spec_food_sources()
        &&& new.spec_delivered() == old.spec_delivered()
        &&& new.spec_extracted() == old.spec_extracted()
        &&& new.spec_pheromones().spec_size() == old.spec_pheromones().spec_size()
        &&& new.spec_pheromones().initial() == old.spec_pheromones().initial()
        &&& new.spec_pheromones().cells() == deposits_applied(
            evaporated_all(old.spec_pheromones().cells(), old.spec_evaporation_rate() as int),
            trail_ops(old.spec_ants(), old.spec_food_sources().len() as int, old.spec_q() as int),
        )
        &&& PheromoneGrid::evaporate_effect(old.spec_grid(), old.spec_evaporation_rate() as int, new.spec_grid())
    }

    /// When no ant carries food, the periodic update is exactly one evaporation of
    /// the table: each off-diagonal level becomes `max(old * (1 - rate), floor)` and
    /// the diagonal is kept.
    pub proof fn lemma_update_is_evaporation(old: EducationalACO, new: EducationalACO)
        requires
            EducationalACO::updated_effect(old, new),
            forall|k: int|
                0 <= k < old.spec_ants().len() ==> (#[trigger] old.spec_ants()[k]).state != AntState::CarryingFood
                    || old.spec_ants()[k].carrying_food == 0,
        ensures
            new.spec_pheromones().cells() == evaporated_all(
                old.spec_pheromones().cells(),
                old.spec_evaporation_rate() as int,
            ),
    {
        lemma_no_loads_no_trails(old.spec_ants(), old.spec_food_sources().len() as int, old.spec_q() as int);
        let ops = trail_ops(old.spec_ants(), old.spec_food_sources().len() as int, old.spec_q() as int);
        assert(ops.len() == 0);
    }

    /// One tick: every ant acted as `actions` says, reaching `mid`; then either
    /// nothing more happened or the periodic update took `mid` to `new`.
    pub open spec fn step_outcome(
        old: EducationalACO,
        actions: Seq<AntAction>,
        mid: EducationalACO,
        new: EducationalACO,
    ) -> bool {
        &&& EducationalACO::decided(old, actions)
        &&& EducationalACO::actions_effect(old, actions, mid)
        &&& (new == mid || EducationalACO::updated_effect(mid, new))
    }

    pub closed spec fn wf(&self) -> bool {
        &&& self.nest.location.wf()
        &&& self.food_sources@.len() <= MAX_FOOD_SOURCES
        &&& forall|k: int| 0 <= k < self.food_sources@.len() ==> (#[trigger] self.food_sources@[k]).wf()
        &&& self.pheromones.wf()
        &&& self.pheromones.spec_size() == self.food_sources@.len() + 1
        &&& self.grid.wf()
        &&& self.grid.spec_width() == GRID_WIDTH && self.grid.spec_height() == GRID_HEIGHT
        &&& forall|k: int| 0 <= k < self.ants@.len() ==> {
            let a = #[trigger] self.ants@[k];
            &&& a.wf()
            &&& a.nest_location == self.nest.location
            &&& a.total_food_collected <= self.total_extracted
            &&& a.state == AntState::SearchingForFood ==> a.carrying_food == 0
        }
        &&& self.total_food_collected + sum_carried(self.ants@) == self.total_extracted
        &&& self.total_extracted <= EXTRACTION_LIMIT
    }

    /// Food is conserved: what was delivered plus what is being carried is all
    /// that was taken out, and no source's stock goes below zero or above its
    /// capacity. A searching ant carries nothing. No grid cell exceeds the grid
    /// ceiling, and the table stays square, symmetric and within its bounds. (Each tick also ties the
    /// stock the sources lost to the rise of what was taken out: see `step`.)
    pub proof fn lemma_conservation(&self)
        requires
            self.wf(),
        ensures
            self.spec_delivered() + sum_carried(self.spec_ants()) == self.spec_extracted(),
            forall|k: int|
                0 <= k < self.spec_food_sources().len() ==> 0 <= (#[trigger] self.spec_food_sources()[k]).food_amount
                    <= self.spec_food_sources()[k].max_food,
            forall|a: int, b: int|
                self.spec_grid().in_grid(a, b) ==> #[trigger] self.spec_grid().cell(a, b) <= GRID_CEILING,
            self.spec_grid().spec_width() == GRID_WIDTH && self.spec_grid().spec_height() == GRID_HEIGHT,
            forall|k: int|
                0 <= k < self.spec_ants().len() && (#[trigger] self.spec_ants()[k]).state
                    == AntState::SearchingForFood ==> self.spec_ants()[k].carrying_food == 0,
            field_ok(self.spec_pheromones().cells()),
            self.spec_pheromones().spec_size() == self.spec_food_sources().len() + 1,
    {
        self.grid.lemma_bounded();
        self.pheromones.lemma_wf();
        assert forall|k: int|
            0 <= k < self.spec_ants().len() && (#[trigger] self.spec_ants()[k]).state
                == AntState::SearchingForFood implies self.spec_ants()[k].carrying_food == 0 by {
            assert(self.ants@[k].wf());
        }
        assert forall|k: int| 0 <= k < self.spec_food_sources().len() implies 0 <= (#[trigger] self.spec_food_sources()[k]).food_amount
            <= self.spec_food_sources()[k].max_food by {
            assert(self.food_sources@[k].wf());
        }
    }

    /// A paused simulation with its nest at (400, 300), no food sources and no ants.
    pub fn new() -> (r: EducationalACO)
        ensures
            r.wf(),
            r.spec_nest().location == (Location { x: 400_000_000, y: 300_000_000 }),
            r.spec_food_sources().len() == 0,
            r.spec_ants().len() == 0,
            r.spec_num_ants() == 15,
            r.spec_alpha() == 1,
            r.spec_beta() == 2,
            r.spec_evaporation_rate() == 100_000,
            r.spec_animation_speed() == RATE_ONE,
            r.spec_show_trails() && r.spec_show_pheromones(),
            !r.spec_running(),
            r.spec_delivered() == 0,
            r.spec_pheromones().spec_size() == 1,
    {
        EducationalACO {
            nest: Nest::new(400_000_000, 300_000_000),
            food_sources: Vec::new(),
            ants: Vec::new(),
            pheromones: PheromoneMatrix::new(1, SCALE),
            grid: PheromoneGrid::new(GRID_WIDTH, GRID_HEIGHT, GRID_CELL),
            num_ants: 15,
            alpha: 1,
            beta: 2,
            evaporation_rate: 100_000,
            q: 100 * SCALE,
            animation_speed: RATE_ONE,
            show_trails: true,
            show_pheromones: true,
            is_running: false,
            total_food_collected: 0,
            total_extracted: 0,
        }
    }

    /// Drops sources past `MAX_FOOD_SOURCES`, rebuilds the table at 1.0 and puts
    /// `num_ants` fresh ants at the nest. Food being carried is lost.
    fn initialize_simulation(&mut self)
        requires
            old(self).nest.location.wf(),
            forall|k: int| 0 <= k < old(self).food_sources@.len() ==> (#[trigger] old(self).food_sources@[k]).wf(),
            old(self).total_food_collected <= EXTRACTION_LIMIT,
            old(self).grid.wf(),
            old(self).grid.spec_width() == GRID_WIDTH && old(self).grid.spec_height() == GRID_HEIGHT,
        ensures
            final(self).wf(),
            final(self).grid == old(self).grid,
            final(self).food_sources@ == if old(self).food_sources@.len() > MAX_FOOD_SOURCES {
                old(self).food_sources@.subrange(0, MAX_FOOD_SOURCES as int)
            } else {
                old(self).food_sources@
            },
            final(self).ants@.len() == old(self).num_ants,
            forall|k: int| 0 <= k < final(self).ants@.len() ==> (#[trigger] final(self).ants@[k]).carrying_food == 0,
            EducationalACO::fresh(*final(self)),
            final(self).total_extracted == old(self).total_food_collected,
            final(self).total_food_collected == old(self).total_food_collected,
            final(self).nest == old(self).nest,
            final(self).num_ants == old(self).num_ants,
            final(self).alpha == old(self).alpha,
            final(self).beta == old(self).beta,
            final(self).evaporation_rate == old(self).evaporation_rate,
            final(self).q == old(self).q,
            final(self).animation_speed == old(self).animation_speed,
            final(self).show_trails == old(self).show_trails,
            final(self).show_pheromones == old(self).show_pheromones,
            final(self).is_running == old(self).is_running,
    {
        if self.food_sources.len() > MAX_FOOD_SOURCES {
            self.food_sources.truncate(MAX_FOOD_SOURCES);
        }
        let matrix_size = 1 + self.food_sources.len();
        self.pheromones = PheromoneMatrix::new(matrix_size, SCALE);
        let mut ants: Vec<Ant> = Vec::new();
        let mut i: usize = 0;
        while i < self.num_ants
            invariant
                self.nest.location.wf(),
                i <= self.num_ants,
                ants@.len() == i,
                sum_carried(ants@) == 0,
                forall|k: int| 0 <= k < ants@.len() ==> {
                    let a = #[trigger] ants@[k];
                    let nest = self.nest.location;
                    &&& a.wf()
                    &&& a.nest_location == nest
                    &&& a.total_food_collected == 0
                    &&& a.carrying_food == 0
                    &&& a.id == k
                    &&& a.x == nest.x && a.y == nest.y
                    &&& a.target_x == nest.x && a.target_y == nest.y
                    &&& a.path@ == seq![(nest.x, nest.y)]
                    &&& !a.is_moving
                    &&& a.move_progress == 0
                    &&& a.state == AntState::SearchingForFood
                    &&& a.current_target_food is None
                },
            decreases self.num_ants - i,
        {
            let ant = Ant::new(i, &self.nest);
            let ghost prev = ants@;
            ants.push(ant);
            assert(ants@.drop_last() == prev);
            i = i + 1;
        }
        self.ants = ants;
        self.total_extracted = self.total_food_collected;
    }

    /// Removes every ant, shrinks the table to the nest alone, pauses and zeroes the counters.
    fn clear_simulation(&mut self)
        requires
            old(self).nest.location.wf(),
            old(self).food_sources@.len() == 0,
        ensures
            final(self).wf(),
            final(self).ants@.len() == 0,
            final(self).food_sources@ == old(self).food_sources@,
            !final(self).is_running,
            final(self).total_food_collected == 0,
            final(self).nest == old(self).nest,
            final(self).num_ants == old(self).num_ants,
            final(self).alpha == old(self).alpha,
            final(self).beta == old(self).beta,
            final(self).evaporation_rate == old(self).evaporation_rate,
            final(self).animation_speed == old(self).animation_speed,
            final(self).show_trails == old(self).show_trails,
            final(self).show_pheromones == old(self).show_pheromones,
    {
        self.ants = Vec::new();
        self.pheromones = PheromoneMatrix::new(1, SCALE);
        self.grid = PheromoneGrid::new(GRID_WIDTH, GRID_HEIGHT, GRID_CELL);
        self.is_running = false;
        self.total_food_collected = 0;
        self.total_extracted = 0;
    }

    /// Adds a full source holding `food_amount` at `(x, y)`, unless that is within
    /// `MIN_NEST_DISTANCE` of the nest; past `MAX_FOOD_SOURCES` it is dropped. An
    /// added source re-initialises the ants and the table. Returns whether the point
    /// was accepted, that is, not too close to the nest; with `MAX_FOOD_SOURCES`
    /// sources already held an accepted point leaves the list as it was, though the
    /// ants and the table are still started afresh.
    pub fn add_food_source(&mut self, x: i64, y: i64, food_amount: u64) -> (r: bool)
        requires
            old(self).wf(),
            coord_ok(x),
            coord_ok(y),
        ensures
            final(self).wf(),
            r == (old(self).spec_nest().location.dist_to(Location { x, y }) >= MIN_NEST_DISTANCE),
            !r ==> *final(self) == *old(self),
            r ==> {
                &&& final(self).spec_food_sources() == sources_after_add(old(self).spec_food_sources(), Location { x, y }, food_amount)
                &&& final(self).spec_ants().len() == old(self).spec_num_ants()
                &&& EducationalACO::fresh(*final(self))
                &&& final(self).spec_delivered() == old(self).spec_delivered()
                &&& final(self).spec_running() == old(self).spec_running()
                &&& final(self).spec_num_ants() == old(self).spec_num_ants()
            },
    {
        let spot = Location { x, y };
        if self.nest.location.distance_to(&spot) < MIN_NEST_DISTANCE {
            return false;
        }
        self.food_sources.push(FoodSource::new(x, y, food_amount));
        proof {
            lemma_sum_carried_nonneg(self.ants@);
        }
        self.initialize_simulation();
        true
    }

    /// Adds a source at `(x, y)` holding a random stock in `[50, 100)`, under the
    /// rules of `add_food_source`.
    pub fn add_city(&mut self, x: i64, y: i64) -> (r: bool)
        requires
            old(self).wf(),
            coord_ok(x),
            coord_ok(y),
        ensures
            final(self).wf(),
            r == (old(self).spec_nest().location.dist_to(Location { x, y }) >= MIN_NEST_DISTANCE),
            !r ==> *final(self) == *old(self),
            r ==> exists|amount: u64|
                FOOD_BASE <= amount < FOOD_BASE + FOOD_SPREAD && final(self).spec_food_sources()
                    == #[trigger] sources_after_add(old(self).spec_food_sources(), Location { x, y }, amount),
            r ==> final(self).spec_ants().len() == old(self).spec_num_ants(),
            r ==> EducationalACO::fresh(*final(self)),
    {
        let amount = FOOD_BASE + random_below(FOOD_SPREAD as u128) as u64;
        self.add_food_source(x, y, amount)
    }

    /// Removes every source within `CLICK_RADIUS` of `(x, y)`; when any went, the
    /// ants and the table are re-initialised. Returns whether any went.
    pub fn remove_city(&mut self, x: i64, y: i64) -> (r: bool)
        requires
            old(self).wf(),
            coord_ok(x),
            coord_ok(y),
        ensures
            final(self).wf(),
            final(self).spec_food_sources() == sources_kept(old(self).spec_food_sources(), Location { x, y }),
            r == (final(self).spec_food_sources().len() != old(self).spec_food_sources().len()),
            !r ==> *final(self) == *old(self),
            r ==> final(self).spec_ants().len() == old(self).spec_num_ants(),
            r ==> EducationalACO::fresh(*final(self)),
            final(self).spec_delivered() == old(self).spec_delivered(),
            final(self).spec_running() == old(self).spec_running(),
    {
        let spot = Location { x, y };
        let n = self.food_sources.len();
        let mut kept: Vec<FoodSource> = Vec::new();
        let mut k: usize = 0;
        while k < n
            invariant
                self.wf(),
                n == self.food_sources@.len(),
                k <= n,
                spot == (Location { x, y }),
                spot.wf(),
                kept@ == sources_kept(self.food_sources@.subrange(0, k as int), spot),
            decreases n - k,
        {
            let f = self.food_sources[k];
            assert(self.food_sources@[k as int].wf());
            let ghost pre = self.food_sources@.subrange(0, k as int);
            assert(self.food_sources@.subrange(0, k + 1).drop_last() == pre);
            if f.location.distance_to(&spot) > CLICK_RADIUS {
                kept.push(f);
            }
            k = k + 1;
        }
        assert(self.food_sources@.subrange(0, n as int) == self.food_sources@);
        proof {
            lemma_sources_kept_len(self.food_sources@, spot);
        }
        if kept.len() == n {
            proof {
                lemma_kept_all(self.food_sources@, spot);
            }
            return false;
        }
        let ghost old_sources = self.food_sources@;
        self.food_sources = kept;
        proof {
            assert forall|k: int| 0 <= k < self.food_sources@.len() implies (#[trigger] self.food_sources@[k]).wf() by {
                let j = choose|j: int| 0 <= j < old_sources.len() && #[trigger] sources_kept(old_sources, spot)[k] == old_sources[j];
            }
            lemma_sum_carried_nonneg(self.ants@);
        }
        self.initialize_simulation();
        true
    }

    /// Removes every source, every ant and the table's sources, pauses and zeroes the counters.
    pub fn clear_cities(&mut self)
        requires
            old(self).wf(),
        ensures
            final(self).wf(),
            final(self).spec_food_sources().len() == 0,
            final(self).spec_ants().len() == 0,
            !final(self).spec_running(),
            final(self).spec_delivered() == 0,
            final(self).spec_num_ants() == old(self).spec_num_ants(),
    {
        self.food_sources = Vec::new();
        self.clear_simulation();
    }

    /// Runs, provided there is at least one source.
    pub fn start(&mut self)
        requires
            old(self).wf(),
        ensures
            final(self).wf(),
            final(self).spec_running() == (old(self).spec_running() || old(self).spec_food_sources().len() > 0),
            *final(self) == old(self).with_running(final(self).spec_running()),
    {
        if self.food_sources.len() > 0 {
            self.is_running = true;
        }
    }

    pub fn pause(&mut self)
        requires
            old(self).wf(),
        ensures
            final(self).wf(),
            !final(self).spec_running(),
            *final(self) == old(self).with_running(false),
    {
        self.is_running = false;
    }

    /// Pauses, zeroes the delivered total, refills every source and re-initialises
    /// the ants and the table.
    pub fn reset(&mut self)
        requires
            old(self).wf(),
        ensures
            final(self).wf(),
            !final(self).spec_running(),
            final(self).spec_delivered() == 0,
            final(self).spec_extracted() == 0,
            final(self).spec_food_sources() == refilled(old(self).spec_food_sources()),
            final(self).spec_ants().len() == old(self).spec_num_ants(),
            EducationalACO::fresh(*final(self)),
    {
        self.is_running = false;
        self.total_food_collected = 0;
        let n = self.food_sources.len();
        let ghost old_sources = self.food_sources@;
        let mut k: usize = 0;
        while k < n
            invariant
                n == self.food_sources@.len(),
                n == old_sources.len(),
                n <= MAX_FOOD_SOURCES,
                k <= n,
                forall|j: int| 0 <= j < n ==> (#[trigger] old_sources[j]).wf(),
                forall|j: int| 0 <= j < k ==> #[trigger] self.food_sources@[j] == refilled(old_sources)[j],
                forall|j: int| k <= j < n ==> #[trigger] self.food_sources@[j] == old_sources[j],
                self.nest.location.wf(),
                self.total_food_collected == 0,
                !self.is_running,
                self.num_ants == old(self).num_ants,
                self.grid.wf(),
                self.grid.spec_width() == GRID_WIDTH && self.grid.spec_height() == GRID_HEIGHT,
            decreases n - k,
        {
            let mut f = self.food_sources[k];
            f.food_amount = f.max_food;
            self.food_sources.set(k, f);
            k = k + 1;
        }
        assert(self.food_sources@ =~= refilled(old_sources));
        assert forall|j: int| 0 <= j < n implies (#[trigger] self.food_sources@[j]).wf() by {
            assert(old_sources[j].wf());
        }
        self.initialize_simulation();
    }

    /// The first non-empty source within `PROXIMITY` of ant `i`; `None` for an ant
    /// index out of range.
    pub fn food_source_at(&self, i: usize) -> (r: Option<usize>)
        requires
            self.wf(),
        ensures
            i >= self.spec_ants().len() ==> r is None,
            i < self.spec_ants().len() ==> ({
                let here = self.spec_ants()[i as int].position();
                let fs = self.spec_food_sources();
                &&& r matches Some(k) ==> k < fs.len() && source_near(fs, here, k as int)
                    && forall|j: int| 0 <= j < k ==> !#[trigger] source_near(fs, here, j)
                &&& r is None ==> forall|j: int| 0 <= j < fs.len() ==> !#[trigger] source_near(fs, here, j)
            }),
    {
        if i >= self.ants.len() {
            return None;
        }
        let ant = &self.ants[i];
        assert(self.ants@[i as int].wf());
        let here = Location { x: ant.x, y: ant.y };
        let n = self.food_sources.len();
        let mut k: usize = 0;
        while k < n
            invariant
                self.wf(),
                i < self.ants@.len(),
                here == self.ants@[i as int].position(),
                here.wf(),
                n == self.food_sources@.len(),
                k <= n,
                forall|j: int| 0 <= j < k ==> !#[trigger] source_near(self.food_sources@, here, j),
            decreases n - k,
        {
            assert(self.food_sources@[k as int].wf());
            if self.food_sources[k].food_amount > 0
                && here.distance_to(&self.food_sources[k].location) < PROXIMITY {
                return Some(k);
            }
            k = k + 1;
        }
        None
    }

    /// The action of ant `i` this tick: a moving ant moves on; a searching ant at a
    /// non-empty source collects there, else heads for a source picked by the
    /// roulette rule, if any; a carrying ant at the nest delivers.
    pub fn decide_action(&self, i: usize) -> (r: AntAction)
        requires
            self.wf(),
        ensures
            EducationalACO::action_ok(*self, i as int, r),
    {
        if i >= self.ants.len() {
            return AntAction::Stay;
        }
        let ant = &self.ants[i];
        assert(self.ants@[i as int].wf());
        if ant.is_moving {
            return AntAction::Advance;
        }
        match ant.state {
            AntState::SearchingForFood => {
                match self.food_source_at(i) {
                    Some(k) => AntAction::Collect(k),
                    None => {
                        match ant.select_food_source(
                            self.food_sources.as_slice(),
                            &self.pheromones,
                            self.alpha,
                            self.beta,
                        ) {
                            Some(k) => AntAction::HeadFor(k),
                            None => AntAction::Stay,
                        }
                    },
                }
            },
            AntState::CarryingFood => {
                if ant.is_at_nest() {
                    AntAction::Deliver
                } else {
                    AntAction::Stay
                }
            },
        }
    }

    /// Every ant's action for this tick, decided on the state as it stands.
    pub fn decide_actions(&self) -> (r: Vec<AntAction>)
        requires
            self.wf(),
        ensures
            EducationalACO::decided(*self, r@),
    {
        let mut actions: Vec<AntAction> = Vec::new();
        let mut i: usize = 0;
        while i < self.ants.len()
            invariant
                self.wf(),
                i <= self.ants@.len(),
                actions@.len() == i,
                forall|k: int| 0 <= k < i ==> EducationalACO::action_ok(*self, k, #[trigger] actions@[k]),
            decreases self.ants@.len() - i,
        {
            actions.push(self.decide_action(i));
            i = i + 1;
        }
        actions
    }

    /// Carries out one ant's action. A collection takes at most one unit, from
    /// what the source holds at that moment, so two ants at one source never
    /// overdraw it.
    pub fn apply_action(&mut self, i: usize, action: AntAction)
        requires
            old(self).wf(),
        ensures
            final(self).wf(),
            stocks_lowered(old(self).spec_food_sources(), final(self).spec_food_sources()),
            final(self).spec_ants().len() == old(self).spec_ants().len(),
            final(self).spec_delivered() >= old(self).spec_delivered(),
            final(self).spec_running() == old(self).spec_running(),
            final(self).spec_nest() == old(self).spec_nest(),
            final(self).spec_num_ants() == old(self).spec_num_ants(),
            final(self).spec_pheromones() == old(self).spec_pheromones(),
            final(self).spec_animation_speed() == old(self).spec_animation_speed(),
            EducationalACO::action_effect(*old(self), i as int, action, *final(self)),
            sum_stock(old(self).spec_food_sources()) - sum_stock(final(self).spec_food_sources())
                == final(self).spec_extracted() - old(self).spec_extracted(),
            ({
                let ant = old(self).spec_ants()[i as int];
                i < old(self).spec_ants().len() && action == AntAction::Deliver && ant.state
                    == AntState::CarryingFood ==> {
                    &&& final(self).spec_delivered() == old(self).spec_delivered() + ant.carrying_food
                    &&& final(self).spec_ants()[i as int].carrying_food == 0
                    &&& final(self).spec_ants()[i as int].state == AntState::SearchingForFood
                }
            }),
            ({
                let ant = old(self).spec_ants()[i as int];
                let fs = old(self).spec_food_sources();
                match action {
                    AntAction::Collect(k) => i < old(self).spec_ants().len() && k < fs.len()
                        && ant.state == AntState::SearchingForFood && fs[k as int].food_amount > 0
                        && old(self).spec_extracted() <= EXTRACTION_LIMIT - TAKE_AMOUNT ==> {
                        let taken = if TAKE_AMOUNT < fs[k as int].food_amount {
                            TAKE_AMOUNT
                        } else {
                            fs[k as int].food_amount
                        };
                        &&& final(self).spec_food_sources()[k as int].food_amount == fs[k as int].food_amount - taken
                        &&& final(self).spec_ants()[i as int].carrying_food == taken
                        &&& final(self).spec_ants()[i as int].state == AntState::CarryingFood
                        &&& final(self).spec_extracted() == old(self).spec_extracted() + taken
                    },
                    _ => true,
                }
            }),
    {
        if i >= self.ants.len() {
            return;
        }
        let ghost ants0 = self.ants@;
        proof {
            assert(ants0[i as int].wf());
            lemma_sum_carried_nonneg(ants0);
        }
        match action {
            AntAction::Advance => {
                let speed = self.animation_speed / 50;
                self.ants[i].update_movement(speed);
                proof {
                    lemma_sum_carried_update(ants0, i as int, self.ants@[i as int]);
                    assert(self.ants@ == ants0.update(i as int, self.ants@[i as int]));
                }
                let trail = match self.ants[i].state {
                    AntState::SearchingForFood => SEARCH_TRAIL,
                    AntState::CarryingFood => CARRY_TRAIL,
                };
                self.grid.deposit_at(self.ants[i].x, self.ants[i].y, trail);
            },
            AntAction::Collect(k) => {
                if k < self.food_sources.len() && self.total_extracted <= EXTRACTION_LIMIT - TAKE_AMOUNT
                    && self.ants[i].state == AntState::SearchingForFood && self.food_sources[k].food_amount > 0 {
                    self.ants[i].current_target_food = Some(k);
                    let ghost sources0 = self.food_sources@;
                    let ghost ant1 = self.ants@[i as int];
                    let got = self.ants[i].collect_food(&mut self.food_sources);
                    proof {
                        lemma_sum_stock_update(sources0, k as int, self.food_sources@[k as int]);
                    }
                    if got {
                        let carried = self.ants[i].carrying_food;
                        self.total_extracted = self.total_extracted + carried;
                        self.ants[i].start_return_to_nest();
                    }
                    proof {
                        lemma_sum_carried_update(ants0, i as int, self.ants@[i as int]);
                        assert(self.ants@ == ants0.update(i as int, self.ants@[i as int]));
                        assert forall|j: int| 0 <= j < self.food_sources@.len() implies (#[trigger] self.food_sources@[j]).wf() by {
                            assert(sources0[j].wf());
                        }
                        assert forall|j: int| 0 <= j < self.ants@.len() implies {
                            let a = #[trigger] self.ants@[j];
                            &&& a.wf()
                            &&& a.nest_location == self.nest.location
                            &&& a.total_food_collected <= self.total_extracted
                            &&& a.state == AntState::SearchingForFood ==> a.carrying_food == 0
                        } by {
                            assert(ants0[j].wf());
                        }
                    }
                }
            },
            AntAction::HeadFor(k) => {
                self.ants[i].start_move_to_food(k, self.food_sources.as_slice());
                proof {
                    lemma_sum_carried_update(ants0, i as int, self.ants@[i as int]);
                    assert(self.ants@ == ants0.update(i as int, self.ants@[i as int]));
                }
            },
            AntAction::Deliver => {
                if self.ants[i].state == AntState::CarryingFood {
                    let delivered = self.ants[i].deliver_food();
                    proof {
                        lemma_sum_carried_update(ants0, i as int, self.ants@[i as int]);
                        assert(self.ants@ == ants0.update(i as int, self.ants@[i as int]));
                        lemma_sum_carried_nonneg(self.ants@);
                    }
                    self.total_food_collected = self.total_food_collected + delivered;
                }
            },
            AntAction::Stay => {},
        }
    }

    /// Carries out the actions in order, one per ant.
    pub fn apply_actions(&mut self, actions: &Vec<AntAction>)
        requires
            old(self).wf(),
        ensures
            final(self).wf(),
            stocks_lowered(old(self).spec_food_sources(), final(self).spec_food_sources()),
            final(self).spec_ants().len() == old(self).spec_ants().len(),
            final(self).spec_delivered() >= old(self).spec_delivered(),
            final(self).spec_running() == old(self).spec_running(),
            final(self).spec_nest() == old(self).spec_nest(),
            final(self).spec_num_ants() == old(self).spec_num_ants(),
            final(self).spec_pheromones() == old(self).spec_pheromones(),
            EducationalACO::actions_effect(*old(self), actions@, *final(self)),
            sum_stock(old(self).spec_food_sources()) - sum_stock(final(self).spec_food_sources())
                == final(self).spec_extracted() - old(self).spec_extracted(),
    {
        let mut i: usize = 0;
        let ghost mut states: Seq<EducationalACO> = seq![*self];
        while i < actions.len()
            invariant
                self.wf(),
                i <= actions@.len(),
                stocks_lowered(old(self).spec_food_sources(), self.spec_food_sources()),
                self.spec_ants().len() == old(self).spec_ants().len(),
                self.spec_delivered() >= old(self).spec_delivered(),
                self.spec_running() == old(self).spec_running(),
                self.spec_nest() == old(self).spec_nest(),
                self.spec_num_ants() == old(self).spec_num_ants(),
                self.spec_pheromones() == old(self).spec_pheromones(),
                self.spec_animation_speed() == old(self).spec_animation_speed(),
                EducationalACO::action_chain(*old(self), actions@.subrange(0, i as int), states, *self),
                sum_stock(old(self).spec_food_sources()) - sum_stock(self.spec_food_sources())
                    == self.spec_extracted() - old(self).spec_extracted(),
            decreases actions@.len() - i,
        {
            let ghost prev = states;
            self.apply_action(i, actions[i]);
            proof {
                states = prev.push(*self);
                let done = actions@.subrange(0, i + 1);
                assert forall|k: int| 0 <= k < done.len() implies EducationalACO::action_effect(#[trigger] states[k], k, done[k], states[k + 1]) by {
                    if k < i {
                        assert(done[k] == actions@.subrange(0, i as int)[k]);
                        assert(states[k] == prev[k] && states[k + 1] == prev[k + 1]);
                    }
                }
            }
            i = i + 1;
        }
        assert(actions@.subrange(0, actions@.len() as int) =~= actions@);
        assert(EducationalACO::action_chain(*old(self), actions@, states, *self));
    }

    /// Evaporates the table and the grid, then lays a trail on the nest-to-source
    /// pair of every ant carrying food from a known source, in proportion to its load.
    pub fn update_pheromones(&mut self)
        requires
            old(self).wf(),
        ensures
            final(self).wf(),
            EducationalACO::updated_effect(*old(self), *final(self)),
    {
        self.pheromones.evaporate(self.evaporation_rate);
        self.grid.evaporate(self.evaporation_rate);
        let ghost evap = self.pheromones.cells();
        let n = self.ants.len();
        let mut k: usize = 0;
        assert(self.ants@.subrange(0, 0) =~= Seq::<Ant>::empty());
        while k < n
            invariant
                self.wf(),
                n == self.ants@.len(),
                k <= n,
                EducationalACO::settings_same(*old(self), *self),
                self.spec_food_sources() == old(self).spec_food_sources(),
                self.spec_ants() == old(self).spec_ants(),
                self.spec_delivered() == old(self).spec_delivered(),
                self.spec_extracted() == old(self).spec_extracted(),
                self.spec_pheromones().spec_size() == old(self).spec_pheromones().spec_size(),
                self.spec_pheromones().initial() == old(self).spec_pheromones().initial(),
                evap == evaporated_all(old(self).spec_pheromones().cells(), old(self).spec_evaporation_rate() as int),
                self.spec_pheromones().cells() == deposits_applied(
                    evap,
                    trail_ops(self.ants@.subrange(0, k as int), self.food_sources@.len() as int, self.q as int),
                ),
                PheromoneGrid::evaporate_effect(old(self).spec_grid(), old(self).spec_evaporation_rate() as int, self.spec_grid()),
            decreases n - k,
        {
            assert(self.ants@.subrange(0, k + 1).drop_last() =~= self.ants@.subrange(0, k as int));
            let ghost ops = trail_ops(self.ants@.subrange(0, k as int), self.food_sources@.len() as int, self.q as int);
            assert(self.ants@.subrange(0, k + 1).last() == self.ants@[k as int]);
            let ant = &self.ants[k];
            if ant.state == AntState::CarryingFood && ant.carrying_food > 0 {
                match ant.current_target_food {
                    Some(idx) => {
                        if idx < self.food_sources.len() {
                            assert(self.q as u128 * ant.carrying_food as u128 <= 0xFFFF_FFFF_FFFF_FFFF * 0xFFFF_FFFF_FFFF_FFFF) by (nonlinear_arith)
                                requires
                                    self.q <= 0xFFFF_FFFF_FFFF_FFFF,
                                    ant.carrying_food <= 0xFFFF_FFFF_FFFF_FFFF,
                            ;
                            let a: u128 = self.q as u128 * ant.carrying_food as u128 / SCALE as u128;
                            let amount: u64 = if a > PHEROMONE_CEILING as u128 {
                                PHEROMONE_CEILING
                            } else {
                                a as u64
                            };
                            self.pheromones.deposit(0, idx + 1, amount);
                            proof {
                                let op = (0int, idx + 1, trail_amount(self.q as int, self.ants@[k as int].carrying_food as int));
                                assert(amount == op.2);
                                assert(ops.push(op).drop_last() =~= ops);
                            }
                        }
                    },
                    None => {},
                }
            }
            k = k + 1;
        }
        assert(self.ants@.subrange(0, n as int) =~= self.ants@);
    }

    /// Moves ant `i` one step of a free walk to `(x, y)`, brought inside the margin
    /// of the field, and lays its trail there: `SEARCH_TRAIL` while searching,
    /// `CARRY_TRAIL` while carrying. An index out of range changes nothing.
    pub fn walk_ant(&mut self, i: usize, x: i64, y: i64)
        requires
            old(self).wf(),
        ensures
            final(self).wf(),
            i >= old(self).spec_ants().len() ==> *final(self) == *old(self),
            i < old(self).spec_ants().len() ==> ({
                let ant = old(self).spec_ants()[i as int];
                let bx = clamp_to(x as int, MARGIN as int, (FIELD_WIDTH - MARGIN) as int);
                let by = clamp_to(y as int, MARGIN as int, (FIELD_HEIGHT - MARGIN) as int);
                &&& EducationalACO::settings_same(*old(self), *final(self))
                &&& final(self).spec_ants() == old(self).spec_ants().update(
                    i as int,
                    Ant { x: bx as i64, y: by as i64, ..ant },
                )
                &&& final(self).spec_food_sources() == old(self).spec_food_sources()
                &&& final(self).spec_pheromones() == old(self).spec_pheromones()
                &&& final(self).spec_delivered() == old(self).spec_delivered()
                &&& final(self).spec_extracted() == old(self).spec_extracted()
                &&& PheromoneGrid::deposit_effect(
                    old(self).spec_grid(),
                    bx,
                    by,
                    (if ant.state == AntState::SearchingForFood {
                        SEARCH_TRAIL
                    } else {
                        CARRY_TRAIL
                    }) as int,
                    final(self).spec_grid(),
                )
            }),
    {
        if i >= self.ants.len() {
            return;
        }
        let ghost ants0 = self.ants@;
        proof {
            assert(ants0[i as int].wf());
        }
        let (bx, by, _, _) = keep_in_bounds(x, y);
        self.ants[i].x = bx;
        self.ants[i].y = by;
        proof {
            assert(self.ants@ == ants0.update(i as int, self.ants@[i as int]));
            lemma_sum_carried_update(ants0, i as int, self.ants@[i as int]);
            assert forall|j: int| 0 <= j < self.ants@.len() implies {
                let a = #[trigger] self.ants@[j];
                &&& a.wf()
                &&& a.nest_location == self.nest.location
                &&& a.total_food_collected <= self.total_extracted
                &&& a.state == AntState::SearchingForFood ==> a.carrying_food == 0
            } by {
                assert(ants0[j].wf());
            }
        }
        let trail = match self.ants[i].state {
            AntState::SearchingForFood => SEARCH_TRAIL,
            AntState::CarryingFood => CARRY_TRAIL,
        };
        self.grid.deposit_at(bx, by, trail);
    }

    /// With a chance of `UPDATE_CHANCE`, runs the periodic update; returns whether it ran.
    pub fn maybe_update(&mut self) -> (r: bool)
        requires
            old(self).wf(),
        ensures
            final(self).wf(),
            r ==> EducationalACO::updated_effect(*old(self), *final(self)),
            !r ==> *final(self) == *old(self),
    {
        if random_below(RATE_ONE as u128) < UPDATE_CHANCE as u128 {
            self.update_pheromones();
            true
        } else {
            false
        }
    }

    /// One tick of a running simulation with at least one source: every ant's
    /// action is decided, then all are carried out (a moving ant lays a trail on the
    /// grid where it arrives); then, with a chance of `UPDATE_CHANCE`, the table and
    /// the grid are updated. Otherwise nothing happens.
    pub fn step(&mut self)
        requires
            old(self).wf(),
        ensures
            final(self).wf(),
            !old(self).spec_running() || old(self).spec_food_sources().len() == 0 ==> *final(self) == *old(self),
            stocks_lowered(old(self).spec_food_sources(), final(self).spec_food_sources()),
            final(self).spec_ants().len() == old(self).spec_ants().len(),
            final(self).spec_delivered() >= old(self).spec_delivered(),
            final(self).spec_running() == old(self).spec_running(),
            final(self).spec_num_ants() == old(self).spec_num_ants(),
            old(self).spec_running() && old(self).spec_food_sources().len() > 0 ==> exists|
                actions: Seq<AntAction>,
                mid: EducationalACO,
            | #[trigger] EducationalACO::step_outcome(*old(self), actions, mid, *final(self)),
            sum_stock(old(self).spec_food_sources()) - sum_stock(final(self).spec_food_sources())
                == final(self).spec_extracted() - old(self).spec_extracted(),
            forall|a: int, b: int|
                final(self).spec_grid().in_grid(a, b) ==> #[trigger] final(self).spec_grid().cell(a, b) <= GRID_CEILING,
            final(self).spec_grid().spec_width() == GRID_WIDTH,
            final(self).spec_grid().spec_height() == GRID_HEIGHT,
            forall|k: int|
                0 <= k < final(self).spec_ants().len() && (#[trigger] final(self).spec_ants()[k]).state
                    == AntState::SearchingForFood ==> final(self).spec_ants()[k].carrying_food == 0,
    {
        if !self.is_running || self.food_sources.len() == 0 {
            proof {
                self.lemma_conservation();
            }
            return;
        }
        let actions = self.decide_actions();
        self.apply_actions(&actions);
        let ghost mid = *self;
        self.maybe_update();
        proof {
            self.lemma_conservation();
        }
        assert(EducationalACO::step_outcome(*old(self), actions@, mid, *self));
    }

    /// Sets the animation speed, clamped into `[0.1, 5.0]` (in millionths).
    pub fn set_animation_speed(&mut self, speed: u64)
        requires
            old(self).wf(),
        ensures
            final(self).wf(),
            final(self).spec_animation_speed() == clamp_to(speed as int, 100_000, 5_000_000),
    {
        self.animation_speed = clamp_u64(speed, 100_000, 5_000_000);
    }

    pub fn set_show_ant_trails(&mut self, show: bool)
        requires
            old(self).wf(),
        ensures
            final(self).wf(),
            final(self).spec_show_trails() == show,
    {
        self.show_trails = show;
    }

    pub fn set_show_pheromone_levels(&mut self, show: bool)
        requires
            old(self).wf(),
        ensures
            final(self).wf(),
            final(self).spec_show_pheromones() == show,
    {
        self.show_pheromones = show;
    }

    /// Sets one parameter, clamped into its range: the exponents into `[1, 5]`,
    /// the evaporation rate into `[0.01, 0.5]` (parts per million), the number of
    /// ants into `[5, 50]`. A new number of ants re-initialises the ants when there
    /// are sources.
    pub fn set_aco_param(&mut self, param: AcoParam, value: u64)
        requires
            old(self).wf(),
        ensures
            final(self).wf(),
            param == AcoParam::Alpha ==> final(self).spec_alpha() == clamp_to(value as int, 1, 5),
            param == AcoParam::Beta ==> final(self).spec_beta() == clamp_to(value as int, 1, 5),
            param == AcoParam::Evaporation ==> final(self).spec_evaporation_rate() == clamp_to(
                value as int,
                10_000,
                500_000,
            ),
            param == AcoParam::NumAnts ==> final(self).spec_num_ants() == clamp_to(value as int, 5, 50),
            param == AcoParam::NumAnts && old(self).spec_food_sources().len() > 0 ==> final(self).spec_ants().len()
                == clamp_to(value as int, 5, 50),
            param == AcoParam::NumAnts && old(self).spec_food_sources().len() > 0 ==> EducationalACO::fresh(*final(self)),
            param != AcoParam::NumAnts ==> final(self).spec_ants() == old(self).spec_ants(),
            param != AcoParam::Alpha ==> final(self).spec_alpha() == old(self).spec_alpha(),
            param != AcoParam::Beta ==> final(self).spec_beta() == old(self).spec_beta(),
            param != AcoParam::Evaporation ==> final(self).spec_evaporation_rate() == old(self).spec_evaporation_rate(),
            param != AcoParam::NumAnts ==> final(self).spec_num_ants() == old(self).spec_num_ants(),
            param != AcoParam::NumAnts || old(self).spec_food_sources().len() == 0 ==> {
                &&& final(self).spec_ants() == old(self).spec_ants()
                &&& final(self).spec_pheromones() == old(self).spec_pheromones()
                &&& final(self).spec_extracted() == old(self).spec_extracted()
            },
            final(self).spec_nest() == old(self).spec_nest(),
            final(self).spec_grid() == old(self).spec_grid(),
            final(self).spec_q() == old(self).spec_q(),
            final(self).spec_animation_speed() == old(self).spec_animation_speed(),
            final(self).spec_show_trails() == old(self).spec_show_trails(),
            final(self).spec_show_pheromones() == old(self).spec_show_pheromones(),
            final(self).spec_food_sources() == old(self).spec_food_sources(),
            final(self).spec_delivered() == old(self).spec_delivered(),
            final(self).spec_running() == old(self).spec_running(),
    {
        match param {
            AcoParam::Alpha => {
                self.alpha = clamp_u64(value, 1, 5) as u32;
            },
            AcoParam::Beta => {
                self.beta = clamp_u64(value, 1, 5) as u32;
            },
            AcoParam::Evaporation => {
                self.evaporation_rate = clamp_u64(value, 10_000, 500_000);
            },
            AcoParam::NumAnts => {
                self.num_ants = clamp_u64(value, 5, 50) as usize;
                if self.food_sources.len() > 0 {
                    proof {
                        lemma_sum_carried_nonneg(self.ants@);
                    }
                    self.initialize_simulation();
                }
            },
        }
    }

    pub fn nest(&self) -> (r: &Nest)
        ensures
            *r == self.spec_nest(),
    {
        &self.nest
    }

    pub fn food_sources(&self) -> (r: &Vec<FoodSource>)
        ensures
            r@ == self.spec_food_sources(),
    {
        &self.food_sources
    }

    pub fn ants(&self) -> (r: &Vec<Ant>)
        ensures
            r@ == self.spec_ants(),
    {
        &self.ants
    }

    pub fn pheromones(&self) -> (r: &PheromoneMatrix)
        ensures
            *r == self.spec_pheromones(),
    {
        &self.pheromones
    }

    /// The trail grid over the plane.
    pub fn grid(&self) -> (r: &PheromoneGrid)
        ensures
            *r == self.spec_grid(),
    {
        &self.grid
    }

    /// Food delivered to the nest so far.
    pub fn total_food_collected(&self) -> (r: u64)
        ensures
            r == self.spec_delivered(),
    {
        self.total_food_collected
    }

    pub fn is_running(&self) -> (r: bool)
        ensures
            r == self.spec_running(),
    {
        self.is_running
    }

    pub fn show_trails(&self) -> (r: bool)
        ensures
            r == self.spec_show_trails(),
    {
        self.show_trails
    }

    pub fn show_pheromones(&self) -> (r: bool)
        ensures
            r == self.spec_show_pheromones(),
    {
        self.show_pheromones
    }

    pub fn num_ants(&self) -> (r: usize)
        ensures
            r == self.spec_num_ants(),
    {
        self.num_ants
    }

    pub fn alpha(&self) -> (r: u32)
        ensures
            r == self.spec_alpha(),
    {
        self.alpha
    }

    pub fn beta(&self) -> (r: u32)
        ensures
            r == self.spec_beta(),
    {
        self.beta
    }

    pub fn evaporation_rate(&self) -> (r: u64)
        ensures
            r == self.spec_evaporation_rate(),
    {
        self.evaporation_rate
    }

    pub fn animation_speed(&self) -> (r: u64)
        ensures
            r == self.spec_animation_speed(),
    {
        self.animation_speed
    }

    /// The counters: sources, ants, food delivered (reported as the best result)
    /// and whether the simulation runs.
    pub fn get_stats(&self) -> (r: SimulationStats)
        ensures
            r == (SimulationStats {
                iteration: 0,
                cities_count: self.spec_food_sources().len() as usize,
                ants_count: self.spec_ants().len() as usize,
                best_distance: self.spec_delivered(),
                is_running: self.spec_running(),
            }),
    {
        SimulationStats {
            iteration: 0,
            cities_count: self.food_sources.len(),
            ants_count: self.ants.len(),
            best_distance: self.total_food_collected,
            is_running: self.is_running,
        }
    }
}

proof fn lemma_kept_all(s: Seq<FoodSource>, p: Location)
    requires
        sources_kept(s, p).len() == s.len(),
    ensures
        sources_kept(s, p) == s,
    decreases s.len(),
{
    if s.len() > 0 {
        lemma_sources_kept_len(s.drop_last(), p);
        if s.last().location.dist_to(p) > CLICK_RADIUS {
            lemma_kept_all(s.drop_last(), p);
            assert(s.drop_last().push(s.last()) =~= s);
        }
    }
}

} // verus!
