//! The tour-construction colony: generations of ants over a fixed set of cities.

use vstd::prelude::*;

use crate::geometry::{cities_ok, City, MAX_CITIES, SCALE};
use crate::pheromone::{PheromoneMatrix, RATE_ONE};
use crate::pheromone::{evaporated_all, tour_deposited, tour_delta};
use crate::tour::{built_by_roulette, is_full_tour, roulette_step, route_length, visited_by, Ant};

verus! {

/// Deposit factor: each tour lays `DEPOSIT_FACTOR / length` on its steps.
pub const DEPOSIT_FACTOR: u64 = 1_000_000;

/// Settings of a colony. Rates are in parts per million, levels in millionths.
#[derive(Clone, Copy, Debug, PartialEq, Eq, Structural)]
pub struct ACOParameters {
    pub num_ants: usize,
    pub max_generations: usize,
    pub evaporation_rate: u64,
    pub alpha: u32,
    pub beta: u32,
    pub initial_pheromone: u64,
}

impl Default for ACOParameters {
    /// Fifty ants, a hundred generations, evaporation 0.1, `alpha` 1, `beta` 2,
    /// initial level 1.0.
    fn default() -> (r: ACOParameters)
        ensures
            r == (ACOParameters {
                num_ants: 50,
                max_generations: 100,
                evaporation_rate: 100_000,
                alpha: 1,
                beta: 2,
                initial_pheromone: SCALE,
            }),
    {
        ACOParameters {
            num_ants: 50,
            max_generations: 100,
            evaporation_rate: RATE_ONE / 10,
            alpha: 1,
            beta: 2,
            initial_pheromone: SCALE,
        }
    }
}

/// A colony of ants building tours over `cities` and sharing one pheromone table.
#[derive(Debug)]
pub struct Colony {
    cities: Vec<City>,
    pheromone_matrix: PheromoneMatrix,
    parameters: ACOParameters,
    best_route: Option<Vec<usize>>,
    best_distance: Option<u64>,
    generation: usize,
}

/// The routes and measured lengths of the tours of one generation are full tours
/// over `cities`.
pub open spec fn tours_ok(tours: Seq<(Seq<usize>, u64)>, cities: Seq<City>) -> bool {
    forall|k: int|
        0 <= k < tours.len() ==> is_full_tour((#[trigger] tours[k]).0, cities.len()) && tours[k].1
            == route_length(cities, tours[k].0)
}

/// The best (length, route) after the tours in order: a tour replaces the best
/// only when strictly shorter, so ties keep the earlier one.
pub open spec fn best_after(
    best: Option<(u64, Seq<usize>)>,
    tours: Seq<(Seq<usize>, u64)>,
) -> Option<(u64, Seq<usize>)>
    decreases tours.len(),
{
    if tours.len() == 0 {
        best
    } else {
        let b = best_after(best, tours.drop_last());
        let t = tours.last();
        match b {
            None => Some((t.1, t.0)),
            Some(p) => if t.1 < p.0 {
                Some((t.1, t.0))
            } else {
                b
            },
        }
    }
}

/// The table after each tour, in order, lays `DEPOSIT_FACTOR / length` on its steps.
pub open spec fn table_after(m: Seq<Seq<u64>>, tours: Seq<(Seq<usize>, u64)>) -> Seq<Seq<u64>>
    decreases tours.len(),
{
    if tours.len() == 0 {
        m
    } else {
        let before = table_after(m, tours.drop_last());
        let t = tours.last();
        if t.1 > 0 {
            tour_deposited(before, t.0, tour_delta(DEPOSIT_FACTOR as int, t.1 as int))
        } else {
            before
        }
    }
}

/// `b` is no worse than `a`: unset is worst, and a set value never grows.
pub open spec fn no_worse(a: Option<u64>, b: Option<u64>) -> bool {
    match a {
        None => true,
        Some(x) => b matches Some(y) && y <= x,
    }
}

/// Over any run of generations the best length never increases: if each step
/// leaves it no worse, so does the whole run.
pub proof fn lemma_best_never_worsens(bests: Seq<Option<u64>>)
    requires
        forall|k: int| 0 <= k < bests.len() - 1 ==> no_worse(#[trigger] bests[k], bests[k + 1]),
    ensures
        forall|j: int, k: int| 0 <= j <= k < bests.len() ==> no_worse(#[trigger] bests[j], #[trigger] bests[k]),
    decreases bests.len(),
{
    if bests.len() > 1 {
        let init = bests.drop_last();
        assert forall|k: int| 0 <= k < init.len() - 1 implies no_worse(#[trigger] init[k], init[k + 1]) by {
            assert(init[k] == bests[k] && init[k + 1] == bests[k + 1]);
        }
        lemma_best_never_worsens(init);
        assert forall|j: int, k: int| 0 <= j <= k < bests.len() implies no_worse(#[trigger] bests[j], #[trigger] bests[k]) by {
            if k == bests.len() - 1 && j < k {
                assert(no_worse(init[j], init[k - 1]));
                assert(no_worse(bests[k - 1], bests[k]));
            } else if j < k {
                assert(no_worse(init[j], init[k]));
            } else {
                assert(no_worse(bests[j], bests[j]));
            }
        }
    }
}

impl Colony {
    pub closed spec fn spec_cities(&self) -> Seq<City> {
        self.cities@
    }

    pub closed spec fn spec_parameters(&self) -> ACOParameters {
        self.parameters
    }

    pub closed spec fn spec_best_distance(&self) -> Option<u64> {
        self.best_distance
    }

    pub closed spec fn spec_best_route(&self) -> Option<Seq<usize>> {
        match self.best_route {
            Some(r) => Some(r@),
            None => None,
        }
    }

    pub closed spec fn spec_generation(&self) -> nat {
        self.generation as nat
    }

    pub closed spec fn spec_pheromones(&self) -> PheromoneMatrix {
        self.pheromone_matrix
    }

    pub closed spec fn wf(&self) -> bool {
        &&& self.cities@.len() <= MAX_CITIES
        &&& cities_ok(self.cities@)
        &&& self.pheromone_matrix.wf()
        &&& self.pheromone_matrix.spec_size() == self.cities@.len()
        &&& self.best_route.is_some() == self.best_distance.is_some()
        &&& self.best_route matches Some(r) ==> self.best_distance == Some(
            route_length(self.cities@, r@) as u64,
        ) && is_full_tour(r@, self.cities@.len())
    }

    /// The best length and route, together.
    pub open spec fn spec_best(&self) -> Option<(u64, Seq<usize>)> {
        match (self.spec_best_distance(), self.spec_best_route()) {
            (Some(d), Some(r)) => Some((d, r)),
            _ => None,
        }
    }

    /// What one generation did: `tours` are this generation's tours, one per ant,
    /// each a full tour with its measured length, ant `k` starting at city
    /// `k % n`, every move a roulette pick on the table as it stood before the
    /// generation. The best is folded over them;
    /// the table evaporated once and then took each tour's deposit in order.
    pub open spec fn generation_outcome(old: Colony, tours: Seq<(Seq<usize>, u64)>, new: Colony) -> bool {
        &&& tours.len() == old.spec_parameters().num_ants
        &&& tours_ok(tours, old.spec_cities())
        &&& forall|k: int|
            0 <= k < tours.len() ==> (#[trigger] tours[k]).0[0] == k % (old.spec_cities().len() as int)
                && built_by_roulette(
                old.spec_cities(),
                old.spec_pheromones(),
                old.spec_parameters().alpha as int,
                old.spec_parameters().beta as int,
                tours[k].0,
            )
        &&& new.spec_best() == best_after(old.spec_best(), tours)
        &&& new.spec_pheromones().cells() == table_after(
            evaporated_all(old.spec_pheromones().cells(), old.spec_parameters().evaporation_rate as int),
            tours,
        )
        &&& new.spec_cities() == old.spec_cities()
        &&& new.spec_parameters() == old.spec_parameters()
        &&& new.spec_generation() == old.spec_generation() + 1
    }

    /// What `run_iteration` does, returning `r`.
    pub open spec fn iteration_effect(old: Colony, new: Colony, r: bool) -> bool {
        &&& r == (old.spec_generation() < old.spec_parameters().max_generations
            && old.spec_cities().len() > 0)
        &&& !r ==> new == old
        &&& r ==> exists|tours: Seq<(Seq<usize>, u64)>| #[trigger] Colony::generation_outcome(old, tours, new)
    }

    /// A recorded best is the measured length of a closed route over the cities.
    pub proof fn lemma_best_is_measured(&self)
        requires
            self.wf(),
        ensures
            self.spec_best_route() is Some <==> self.spec_best_distance() is Some,
            self.spec_best() matches Some(p) ==> self.spec_best_distance() == Some(p.0)
                && self.spec_best_route() == Some(p.1),
            self.spec_best() is Some <==> self.spec_best_distance() is Some,
            self.spec_best_route() matches Some(r) ==> self.spec_best_distance() == Some(
                route_length(self.spec_cities(), r) as u64,
            ) && is_full_tour(r, self.spec_cities().len()),
    {
    }

    /// A colony at generation zero with a uniform table at the initial level and no best tour.
    pub fn new(cities: Vec<City>, parameters: ACOParameters) -> (r: Colony)
        requires
            cities@.len() <= MAX_CITIES,
            cities_ok(cities@),
        ensures
            r.wf(),
            r.spec_cities() == cities@,
            r.spec_parameters() == parameters,
            r.spec_generation() == 0,
            r.spec_best_distance() is None,
            r.spec_best_route() is None,
    {
        let num_cities = cities.len();
        let pheromone_matrix = PheromoneMatrix::new(num_cities, parameters.initial_pheromone);
        Colony {
            cities,
            pheromone_matrix,
            parameters,
            best_route: None,
            best_distance: None,
            generation: 0,
        }
    }

    /// Builds one complete tour from `start_city` under the current table.
    fn build_tour(&self, start_city: usize) -> (r: Ant)
        requires
            self.wf(),
            start_city < self.spec_cities().len(),
        ensures
            r.wf(self.spec_cities().len()),
            r.closed(),
            r.measured(self.spec_cities()),
            is_full_tour(r.spec_route(), self.spec_cities().len()),
            r.spec_route()[0] == start_city,
            built_by_roulette(
                self.spec_cities(),
                self.spec_pheromones(),
                self.spec_parameters().alpha as int,
                self.spec_parameters().beta as int,
                r.spec_route(),
            ),
    {
        let n = self.cities.len();
        let mut ant = Ant::new(start_city, n);
        let ghost cs = self.spec_cities();
        let ghost ph = self.spec_pheromones();
        let ghost al = self.spec_parameters().alpha as int;
        let ghost be = self.spec_parameters().beta as int;
        while !ant.is_tour_complete()
            invariant
                self.wf(),
                n == self.spec_cities().len(),
                ant.wf(n as nat),
                ant.measured(self.spec_cities()),
                ant.closed() ==> ant.all_visited(),
                ant.spec_route()[0] == start_city,
                cs == self.spec_cities(),
                ph == self.spec_pheromones(),
                al == self.spec_parameters().alpha as int,
                be == self.spec_parameters().beta as int,
                forall|k: int|
                    0 <= k < ant.open_part().len() - 1 ==> #[trigger] roulette_step(cs, ph, al, be, ant.open_part(), k),
            decreases n + 1 - ant.spec_route().len(),
        {
            let ghost before = ant;
            match ant.select_next_city(
                &self.cities,
                &self.pheromone_matrix,
                self.parameters.alpha,
                self.parameters.beta,
            ) {
                Some(next_city) => {
                    ant.move_to_city(next_city, &self.cities);
                    proof {
                        let o0 = before.open_part();
                        let o1 = ant.open_part();
                        assert(o1 == o0.push(next_city));
                        assert forall|k: int| 0 <= k < o1.len() - 1 implies #[trigger] roulette_step(cs, ph, al, be, o1, k) by {
                            assert(o1.subrange(0, k + 1) == o0.subrange(0, k + 1));
                            assert(o1[k] == o0[k]);
                            if k < o0.len() - 1 {
                                assert(roulette_step(cs, ph, al, be, o0, k));
                                assert(o1[k + 1] == o0[k + 1]);
                            } else {
                                assert(o0.subrange(0, k + 1) == o0);
                                assert(before.spec_visited() == visited_by(o0, n as nat));
                                assert(o0[k] == before.spec_current());
                            }
                        }
                    }
                },
                None => {
                    ant.complete_tour(&self.cities);
                    proof {
                        assert(ant.spec_route().drop_last() == before.spec_route());
                        assert(ant.open_part() == before.open_part());
                    }
                },
            }
        }
        proof {
            ant.lemma_full_tour(n as nat);
            let o = ant.open_part();
            let r = ant.spec_route();
            assert forall|k: int| 0 <= k < r.len() - 2 implies #[trigger] roulette_step(cs, ph, al, be, r, k) by {
                assert(r.subrange(0, k + 1) == o.subrange(0, k + 1));
                assert(r[k] == o[k] && r[k + 1] == o[k + 1]);
                assert(roulette_step(cs, ph, al, be, o, k));
            }
        }
        ant
    }

    /// Runs one generation: every ant builds a tour, the table evaporates once,
    /// then each tour lays `DEPOSIT_FACTOR / length` on its steps; a strictly
    /// shorter tour replaces the best one. Returns `false`, changing nothing, once
    /// the generation limit is reached or when there are no cities.
    pub fn run_iteration(&mut self) -> (r: bool)
        requires
            old(self).wf(),
        ensures
            final(self).wf(),
            final(self).spec_cities() == old(self).spec_cities(),
            final(self).spec_parameters() == old(self).spec_parameters(),
            r == (old(self).spec_generation() < old(self).spec_parameters().max_generations
                && old(self).spec_cities().len() > 0),
            !r ==> *final(self) == *old(self),
            r ==> final(self).spec_generation() == old(self).spec_generation() + 1,
            no_worse(old(self).spec_best_distance(), final(self).spec_best_distance()),
            r && old(self).spec_parameters().num_ants > 0 ==> final(self).spec_best_distance() is Some,
            Colony::iteration_effect(*old(self), *final(self), r),
            final(self).spec_best_route() is Some <==> final(self).spec_best_distance() is Some,
    {
        if self.generation >= self.parameters.max_generations || self.cities.len() == 0 {
            return false;
        }
        let n = self.cities.len();
        let mut ants: Vec<Ant> = Vec::new();
        let mut i: usize = 0;
        while i < self.parameters.num_ants
            invariant
                self.wf(),
                n == self.spec_cities().len(),
                n > 0,
                ants@.len() == i,
                forall|k: int| 0 <= k < ants@.len() ==> (#[trigger] ants@[k]).wf(n as nat),
                forall|k: int| 0 <= k < ants@.len() ==> (#[trigger] ants@[k]).closed(),
                forall|k: int| 0 <= k < ants@.len() ==> (#[trigger] ants@[k]).measured(self.spec_cities()),
                forall|k: int| 0 <= k < ants@.len() ==> is_full_tour((#[trigger] ants@[k]).spec_route(), n as nat),
                *self == *old(self),
                i <= self.parameters.num_ants,
                forall|k: int|
                    0 <= k < ants@.len() ==> (#[trigger] ants@[k]).spec_route()[0] == k % (n as int)
                        && built_by_roulette(
                        self.spec_cities(),
                        self.spec_pheromones(),
                        self.spec_parameters().alpha as int,
                        self.spec_parameters().beta as int,
                        ants@[k].spec_route(),
                    ),
            decreases self.parameters.num_ants - i,
        {
            let ant = self.build_tour(i % n);
            ants.push(ant);
            i = i + 1;
        }
        let ghost tours: Seq<(Seq<usize>, u64)> = Seq::new(ants@.len(), |k: int| (ants@[k].spec_route(), ants@[k].spec_total()));
        let ghost evap = evaporated_all(self.pheromone_matrix.cells(), self.parameters.evaporation_rate as int);
        let ghost best0 = self.spec_best();
        assert(tours.subrange(0, 0) =~= Seq::<(Seq<usize>, u64)>::empty());
        self.pheromone_matrix.evaporate(self.parameters.evaporation_rate);
        let mut k: usize = 0;
        while k < ants.len()
            invariant
                self.wf(),
                n == self.spec_cities().len(),
                self.spec_cities() == old(self).spec_cities(),
                self.spec_parameters() == old(self).spec_parameters(),
                self.generation == old(self).generation,
                k <= ants@.len(),
                forall|j: int| 0 <= j < ants@.len() ==> (#[trigger] ants@[j]).wf(n as nat),
                forall|j: int| 0 <= j < ants@.len() ==> (#[trigger] ants@[j]).closed(),
                forall|j: int| 0 <= j < ants@.len() ==> (#[trigger] ants@[j]).measured(self.spec_cities()),
                no_worse(old(self).spec_best_distance(), self.spec_best_distance()),
                k > 0 ==> self.spec_best_distance() is Some,
                forall|j: int| 0 <= j < ants@.len() ==> is_full_tour((#[trigger] ants@[j]).spec_route(), n as nat),
                tours == Seq::new(ants@.len(), |j: int| (ants@[j].spec_route(), ants@[j].spec_total())),
                ants@.len() == old(self).spec_parameters().num_ants,
                forall|j: int|
                    0 <= j < ants@.len() ==> (#[trigger] ants@[j]).spec_route()[0] == j % (n as int)
                        && built_by_roulette(
                        old(self).spec_cities(),
                        old(self).spec_pheromones(),
                        old(self).spec_parameters().alpha as int,
                        old(self).spec_parameters().beta as int,
                        ants@[j].spec_route(),
                    ),
                evap == evaporated_all(old(self).spec_pheromones().cells(), old(self).spec_parameters().evaporation_rate as int),
                best0 == old(self).spec_best(),
                self.spec_best() == best_after(best0, tours.subrange(0, k as int)),
                self.pheromone_matrix.cells() == table_after(evap, tours.subrange(0, k as int)),
            decreases ants@.len() - k,
        {
            assert(tours.subrange(0, k + 1).drop_last() =~= tours.subrange(0, k as int));
            let ant = &ants[k];
            let length = ant.total_distance();
            let better = match self.best_distance {
                None => true,
                Some(best) => length < best,
            };
            if better {
                self.best_distance = Some(length);
                self.best_route = Some(copy_route(ant.route()));
            }
            self.pheromone_matrix.deposit_tour(ant.route().as_slice(), length, DEPOSIT_FACTOR);
            k = k + 1;
        }
        self.generation = self.generation + 1;
        proof {
            assert(tours.subrange(0, ants@.len() as int) =~= tours);
            assert forall|j: int| 0 <= j < tours.len() implies is_full_tour((#[trigger] tours[j]).0, n as nat) && tours[j].1
                == route_length(old(self).spec_cities(), tours[j].0) by {
                assert(ants@[j].measured(self.spec_cities()));
            }
            assert(tours.len() == old(self).spec_parameters().num_ants);
            assert(tours_ok(tours, old(self).spec_cities()));
            assert(self.spec_best() == best_after(old(self).spec_best(), tours));
            assert(self.spec_generation() == old(self).spec_generation() + 1);
            assert(Colony::generation_outcome(*old(self), tours, *self));
        }
        true
    }

    /// The shortest tour found so far, if any.
    pub fn best_route(&self) -> (r: Option<&Vec<usize>>)
        ensures
            r is Some == self.spec_best_route() is Some,
            r matches Some(v) ==> self.spec_best_route() == Some(v@),
    {
        self.best_route.as_ref()
    }

    /// Length of the shortest tour found so far; `None` while no tour has been built.
    pub fn best_distance(&self) -> (r: Option<u64>)
        ensures
            r == self.spec_best_distance(),
    {
        self.best_distance
    }

    pub fn generation(&self) -> (r: usize)
        ensures
            r == self.spec_generation(),
    {
        self.generation
    }

    pub fn cities(&self) -> (r: &Vec<City>)
        ensures
            r@ == self.spec_cities(),
    {
        &self.cities
    }

    pub fn pheromones(&self) -> (r: &PheromoneMatrix)
        ensures
            *r == self.spec_pheromones(),
    {
        &self.pheromone_matrix
    }

    /// The generation limit has been reached.
    pub fn is_complete(&self) -> (r: bool)
        ensures
            r == (self.spec_generation() >= self.spec_parameters().max_generations),
    {
        self.generation >= self.parameters.max_generations
    }
}

/// A copy of `route`, element by element.
pub(crate) fn copy_route(route: &Vec<usize>) -> (r: Vec<usize>)
    ensures
        r@ == route@,
{
    let mut out: Vec<usize> = Vec::new();
    let mut k: usize = 0;
    while k < route.len()
        invariant
            k <= route@.len(),
            out@ == route@.subrange(0, k as int),
        decreases route@.len() - k,
    {
        out.push(route[k]);
        k = k + 1;
        assert(out@ =~= route@.subrange(0, k as int));
    }
    assert(out@ =~= route@);
    out
}

} // verus!
