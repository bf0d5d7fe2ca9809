//! An ant that builds a closed tour over a fixed set of cities.

use vstd::prelude::*;

use crate::geometry::{cities_ok, city_dist, lemma_distance_nonneg, City, MAX_CITIES, MAX_DISTANCE};
use crate::pheromone::{in_range, PheromoneMatrix, PHEROMONE_FLOOR};
use crate::selection::{
    compute_edge_weight, edge_weight, lemma_edge_weight_range, lemma_positive_sum, random_below, roulette_pick, roulette_select,
    total_weight, weight_sum,
};

verus! {

/// Number of `true` entries in `s`.
pub open spec fn count_true(s: Seq<bool>) -> nat
    decreases s.len(),
{
    if s.len() == 0 {
        0
    } else {
        count_true(s.drop_last()) + if s.last() {
            1nat
        } else {
            0nat
        }
    }
}

pub proof fn lemma_count_bound(s: Seq<bool>)
    ensures
        count_true(s) <= s.len(),
    decreases s.len(),
{
    if s.len() > 0 {
        lemma_count_bound(s.drop_last());
    }
}

proof fn lemma_count_update(s: Seq<bool>, c: int)
    requires
        0 <= c < s.len(),
        !s[c],
    ensures
        count_true(s.update(c, true)) == count_true(s) + 1,
    decreases s.len(),
{
    let t = s.update(c, true);
    if c == s.len() - 1 {
        assert(t.drop_last() =~= s.drop_last());
    } else {
        assert(t.drop_last() =~= s.drop_last().update(c, true));
        lemma_count_update(s.drop_last(), c);
    }
}

/// The indices below `k` whose entry in `visited` is `false`, in increasing order.
pub open spec fn unvisited_upto(visited: Seq<bool>, k: int) -> Seq<usize>
    decreases k,
{
    if k <= 0 {
        Seq::empty()
    } else if !visited[k - 1] {
        unvisited_upto(visited, k - 1).push((k - 1) as usize)
    } else {
        unvisited_upto(visited, k - 1)
    }
}

/// The cities not yet visited, in increasing order.
pub open spec fn unvisited(visited: Seq<bool>) -> Seq<usize> {
    unvisited_upto(visited, visited.len() as int)
}

proof fn lemma_unvisited_members(visited: Seq<bool>, k: int)
    requires
        0 <= k <= visited.len(),
        k <= usize::MAX,
    ensures
        forall|x: int|
            0 <= x < unvisited_upto(visited, k).len() ==> {
                let c = #[trigger] unvisited_upto(visited, k)[x];
                0 <= c < k && !visited[c as int]
            },
    decreases k,
{
    if k > 0 {
        lemma_unvisited_members(visited, k - 1);
        let prev = unvisited_upto(visited, k - 1);
        let cur = unvisited_upto(visited, k);
        assert forall|x: int| 0 <= x < cur.len() implies {
            let c = #[trigger] cur[x];
            0 <= c < k && !visited[c as int]
        } by {
            if x < prev.len() {
                assert(cur[x] == prev[x]);
            } else {
                assert(!visited[k - 1]);
                assert(cur[x] == (k - 1) as usize);
            }
        }
    }
}

/// Weight of moving from `from` to `to` under the given levels and exponents.
pub open spec fn move_weight(
    cities: Seq<City>,
    pheromones: PheromoneMatrix,
    from: int,
    to: int,
    alpha: int,
    beta: int,
) -> u64 {
    edge_weight(
        (if in_range(pheromones.spec_size() as int, from, to) {
            pheromones.level(from, to)
        } else {
            pheromones.initial()
        }) as int,
        city_dist(cities[from], cities[to]),
        alpha,
        beta,
    ) as u64
}

/// Weights of the candidates, in their order.
pub open spec fn weights_of(
    cities: Seq<City>,
    pheromones: PheromoneMatrix,
    from: int,
    cands: Seq<usize>,
    alpha: int,
    beta: int,
) -> Seq<u64> {
    Seq::new(cands.len(), |x: int| move_weight(cities, pheromones, from, cands[x] as int, alpha, beta))
}

/// The roulette choice among `cands`, mapped back to a city.
pub open spec fn city_pick(cands: Seq<usize>, weights: Seq<u64>, draw: int) -> Option<usize> {
    match roulette_pick(weights, draw) {
        Some(i) => Some(cands[i]),
        None => None,
    }
}

/// Length of the path that visits the cities of `route` in order.
pub open spec fn route_length(cities: Seq<City>, route: Seq<usize>) -> int
    decreases route.len(),
{
    if route.len() < 2 {
        0
    } else {
        route_length(cities, route.drop_last()) + city_dist(
            cities[route[route.len() - 2] as int],
            cities[route[route.len() - 1] as int],
        )
    }
}

/// `route` visits each of `n` cities once and returns to its first: `n + 1`
/// entries, the first `n` all different, the last equal to the first.
pub open spec fn is_full_tour(route: Seq<usize>, n: nat) -> bool {
    &&& route.len() == n + 1
    &&& route[0] == route[n as int]
    &&& route.subrange(0, n as int).no_duplicates()
    &&& forall|k: int| 0 <= k < route.len() ==> #[trigger] route[k] < n
}

/// The cities among `0..n` that occur in `prefix`.
pub open spec fn visited_by(prefix: Seq<usize>, n: nat) -> Seq<bool> {
    Seq::new(n, |c: int| prefix.contains(c as usize))
}

/// Step `k` of `route` was a roulette pick: `route[k + 1]` is what the roulette
/// rule gives, for some draw below the total weight, among the cities not in
/// `route[0..=k]`, weighted from `route[k]` under `pheromones`.
pub open spec fn roulette_step(
    cities: Seq<City>,
    pheromones: PheromoneMatrix,
    alpha: int,
    beta: int,
    route: Seq<usize>,
    k: int,
) -> bool {
    let cands = unvisited(visited_by(route.subrange(0, k + 1), cities.len()));
    let ws = weights_of(cities, pheromones, route[k] as int, cands, alpha, beta);
    exists|d: int| 0 <= d < weight_sum(ws) && #[trigger] city_pick(cands, ws, d) == Some(route[k + 1])
}

/// Every move of `route`, all but its closing step, was a roulette pick.
pub open spec fn built_by_roulette(
    cities: Seq<City>,
    pheromones: PheromoneMatrix,
    alpha: int,
    beta: int,
    route: Seq<usize>,
) -> bool {
    forall|k: int| 0 <= k < route.len() - 2 ==> #[trigger] roulette_step(cities, pheromones, alpha, beta, route, k)
}

/// One ant's tour in progress.
#[derive(Clone, Debug)]
pub struct Ant {
    current_city: usize,
    visited_cities: Vec<bool>,
    route: Vec<usize>,
    total_distance: u64,
}

impl Ant {
    pub closed spec fn spec_current(&self) -> usize {
        self.current_city
    }

    pub closed spec fn spec_visited(&self) -> Seq<bool> {
        self.visited_cities@
    }

    pub closed spec fn spec_route(&self) -> Seq<usize> {
        self.route@
    }

    pub closed spec fn spec_total(&self) -> u64 {
        self.total_distance
    }

    /// The route has returned to its first city.
    pub open spec fn closed(&self) -> bool {
        self.spec_route().len() > 1 && self.spec_route()[0] == self.spec_route().last()
    }

    /// The route without its closing step.
    pub open spec fn open_part(&self) -> Seq<usize> {
        if self.closed() {
            self.spec_route().drop_last()
        } else {
            self.spec_route()
        }
    }

    /// Every city has been visited.
    pub open spec fn all_visited(&self) -> bool {
        forall|k: int| 0 <= k < self.spec_visited().len() ==> #[trigger] self.spec_visited()[k]
    }

    /// The ant's invariant for a tour over `n` cities.
    pub open spec fn wf(&self, n: nat) -> bool {
        &&& n <= MAX_CITIES
        &&& self.spec_visited().len() == n
        &&& self.spec_current() < n
        &&& self.spec_visited()[self.spec_current() as int]
        &&& 1 <= self.spec_route().len() <= n + 1
        &&& self.spec_visited()[self.spec_route()[0] as int]
        &&& forall|k: int|
            0 <= k < self.spec_route().len() ==> (#[trigger] self.spec_route()[k]) < n
        &&& self.spec_route().len() == count_true(self.spec_visited()) + if self.closed() {
            1nat
        } else {
            0nat
        }
        &&& !self.closed() ==> self.spec_route().last() == self.spec_current()
        &&& self.open_part().no_duplicates()
        &&& self.spec_visited() == visited_by(self.open_part(), n)
        &&& forall|k: int|
            0 <= k < self.open_part().len() ==> self.spec_visited()[(#[trigger] self.open_part()[k]) as int]
        &&& self.spec_total() <= (self.spec_route().len() - 1) * MAX_DISTANCE
    }

    /// A closed route over all cities is a full tour.
    pub proof fn lemma_full_tour(&self, n: nat)
        requires
            self.wf(n),
            self.closed(),
            self.all_visited(),
        ensures
            is_full_tour(self.spec_route(), n),
    {
        lemma_count_all(self.spec_visited());
        assert(self.spec_route().subrange(0, n as int) == self.open_part());
    }

    /// The recorded total is the length of the route over `cities`.
    pub open spec fn measured(&self, cities: Seq<City>) -> bool {
        self.spec_total() == route_length(cities, self.spec_route())
    }

    /// An ant at `start_city`, having visited only it.
    pub fn new(start_city: usize, num_cities: usize) -> (r: Ant)
        requires
            start_city < num_cities <= MAX_CITIES,
        ensures
            r.wf(num_cities as nat),
            r.spec_current() == start_city,
            r.spec_route() == seq![start_city],
            r.spec_total() == 0,
            r.spec_visited() == Seq::new(num_cities as nat, |k: int| k == start_city),
            forall|cities: Seq<City>| #[trigger] r.measured(cities),
    {
        let mut visited: Vec<bool> = Vec::new();
        let mut k: usize = 0;
        while k < num_cities
            invariant
                k <= num_cities,
                visited@ == Seq::new(k as nat, |x: int| x == start_city),
            decreases num_cities - k,
        {
            visited.push(k == start_city);
            k = k + 1;
            assert(visited@ =~= Seq::new(k as nat, |x: int| x == start_city));
        }
        let mut route: Vec<usize> = Vec::new();
        route.push(start_city);
        let r = Ant { current_city: start_city, visited_cities: visited, route, total_distance: 0 };
        proof {
            let s = r.spec_visited();
            let f = Seq::new(num_cities as nat, |x: int| false);
            assert(s =~= f.update(start_city as int, true));
            lemma_count_update(f, start_city as int);
            lemma_count_zero(num_cities as nat);
            assert(r.open_part() == seq![start_city]);
            assert(r.spec_visited() =~= visited_by(seq![start_city], num_cities as nat)) by {
                assert forall|c: int| 0 <= c < num_cities implies r.spec_visited()[c] == seq![start_city].contains(c as usize) by {
                    if c == start_city {
                        assert(seq![start_city][0] == c as usize);
                    }
                }
            }
        }
        r
    }

    /// The unvisited cities and the weight of moving to each from the current city.
    pub fn candidate_weights(
        &self,
        cities: &[City],
        pheromones: &PheromoneMatrix,
        alpha: u32,
        beta: u32,
    ) -> (r: (Vec<usize>, Vec<u64>))
        requires
            self.wf(cities@.len()),
            cities_ok(cities@),
            pheromones.wf(),
        ensures
            r.0@ == unvisited(self.spec_visited()),
            r.1@ == weights_of(
                cities@,
                *pheromones,
                self.spec_current() as int,
                r.0@,
                alpha as int,
                beta as int,
            ),
    {
        let n = cities.len();
        let cur = self.current_city;
        let mut cands: Vec<usize> = Vec::new();
        let mut weights: Vec<u64> = Vec::new();
        let mut k: usize = 0;
        proof {
            pheromones.lemma_wf();
        }
        while k < n
            invariant
                n == cities@.len(),
                self.wf(n as nat),
                cities_ok(cities@),
                pheromones.wf(),
                cur == self.spec_current(),
                k <= n,
                cands@ == unvisited_upto(self.spec_visited(), k as int),
                weights@ == weights_of(cities@, *pheromones, cur as int, cands@, alpha as int, beta as int),
            decreases n - k,
        {
            if !self.visited_cities[k] {
                let level = pheromones.get(cur, k);
                proof {
                    pheromones.lemma_wf();
                }
                let d = cities[cur].distance_to(&cities[k]);
                let w = compute_edge_weight(level, d, alpha, beta);
                cands.push(k);
                weights.push(w);
                assert(weights@ =~= weights_of(cities@, *pheromones, cur as int, cands@, alpha as int, beta as int));
            }
            k = k + 1;
        }
        (cands, weights)
    }

    /// The next city for a given draw: the roulette choice among the unvisited
    /// cities, weighted by pheromone and closeness. `None` when no unvisited city
    /// has a positive weight.
    pub fn choose_next_city(
        &self,
        cities: &[City],
        pheromones: &PheromoneMatrix,
        alpha: u32,
        beta: u32,
        draw: u128,
    ) -> (r: Option<usize>)
        requires
            self.wf(cities@.len()),
            cities_ok(cities@),
            pheromones.wf(),
        ensures
            ({
                let cands = unvisited(self.spec_visited());
                let ws = weights_of(cities@, *pheromones, self.spec_current() as int, cands, alpha as int, beta as int);
                r == city_pick(cands, ws, draw as int)
            }),
            r matches Some(c) ==> c < cities@.len() && !self.spec_visited()[c as int],
    {
        let (cands, weights) = self.candidate_weights(cities, pheromones, alpha, beta);
        proof {
            assert(cities@.len() == cities.len());
            lemma_unvisited_members(self.spec_visited(), cities@.len() as int);
        }
        let ghost ws = weights@;
        match roulette_select(&weights, draw) {
            Some(i) => {
                assert(roulette_pick(ws, draw as int) == Some(i as int));
                Some(cands[i])
            },
            None => None,
        }
    }

    /// The next city, drawn at random by the roulette rule among the unvisited
    /// cities. `None` exactly when no unvisited city has a positive weight.
    pub fn select_next_city(
        &self,
        cities: &[City],
        pheromones: &PheromoneMatrix,
        alpha: u32,
        beta: u32,
    ) -> (r: Option<usize>)
        requires
            self.wf(cities@.len()),
            cities_ok(cities@),
            pheromones.wf(),
        ensures
            ({
                let cands = unvisited(self.spec_visited());
                let ws = weights_of(cities@, *pheromones, self.spec_current() as int, cands, alpha as int, beta as int);
                &&& (r is None <==> weight_sum(ws) == 0)
                &&& r is Some ==> exists|d: int| 0 <= d < weight_sum(ws) && r == city_pick(cands, ws, d)
            }),
            r is None <==> self.all_visited(),
            r matches Some(c) ==> c < cities@.len() && !self.spec_visited()[c as int],
    {
        let (cands, weights) = self.candidate_weights(cities, pheromones, alpha, beta);
        proof {
            assert(cities@.len() == cities.len());
            lemma_unvisited_members(self.spec_visited(), cities@.len() as int);
        }
        let total = total_weight(&weights);
        proof {
            lemma_unvisited_empty(self.spec_visited(), cities@.len() as int);
            pheromones.lemma_wf();
            if weights@.len() > 0 {
                assert forall|k: int| 0 <= k < weights@.len() implies #[trigger] weights@[k] > 0 by {
                    let c = cands@[k] as int;
                    assert(0 <= c < cities@.len());
                    let lv = (if in_range(pheromones.spec_size() as int, self.spec_current() as int, c) {
                        pheromones.level(self.spec_current() as int, c)
                    } else {
                        pheromones.initial()
                    }) as int;
                    if in_range(pheromones.spec_size() as int, self.spec_current() as int, c) {
                        assert(pheromones.level(self.spec_current() as int, c) >= PHEROMONE_FLOOR);
                    }
                    let d = city_dist(cities@[self.spec_current() as int], cities@[c]);
                    lemma_distance_nonneg(cities@[self.spec_current() as int].x as int, cities@[self.spec_current() as int].y as int, cities@[c].x as int, cities@[c].y as int);
                    lemma_edge_weight_range(lv, d, alpha as int, beta as int);
                }
                lemma_positive_sum(weights@);
            }
        }
        if total == 0 {
            return None;
        }
        let draw = random_below(total);
        let ghost ws = weights@;
        match roulette_select(&weights, draw) {
            Some(i) => {
                assert(roulette_pick(ws, draw as int) == Some(i as int));
                assert(city_pick(cands@, ws, draw as int) == Some(cands@[i as int]));
                Some(cands[i])
            },
            None => None,
        }
    }

    /// Moves to `city` when it has not been visited: the distance is added to the
    /// total, the city is marked and appended to the route. A visited city, or a
    /// closed tour, leaves the ant as it is.
    pub fn move_to_city(&mut self, city: usize, cities: &[City])
        requires
            old(self).wf(cities@.len()),
            cities_ok(cities@),
            city < cities@.len(),
        ensures
            final(self).wf(cities@.len()),
            old(self).measured(cities@) ==> final(self).measured(cities@),
            if old(self).spec_visited()[city as int] || old(self).closed() {
                *final(self) == *old(self)
            } else {
                &&& final(self).spec_current() == city
                &&& final(self).spec_visited() == old(self).spec_visited().update(city as int, true)
                &&& final(self).spec_route() == old(self).spec_route().push(city)
                &&& final(self).spec_total() == old(self).spec_total() + city_dist(
                    cities@[old(self).spec_current() as int],
                    cities@[city as int],
                )
            },
    {
        if !self.visited_cities[city] && !self.is_tour_complete() {
            let d = cities[self.current_city].distance_to(&cities[city]);
            proof {
                lemma_count_update(self.spec_visited(), city as int);
                lemma_count_bound(self.spec_visited().update(city as int, true));
                assert((self.route@.len() - 1) * MAX_DISTANCE + MAX_DISTANCE == self.route@.len() * MAX_DISTANCE) by (nonlinear_arith);
                assert(self.route@.len() * MAX_DISTANCE <= 1_000_000 * 0x400_0000_0000) by (nonlinear_arith)
                    requires
                        self.route@.len() <= 1_000_000,
                ;
            }
            self.total_distance = self.total_distance + d;
            self.visited_cities.set(city, true);
            let ghost r0 = self.route@;
            let ghost v0 = self.visited_cities@;
            self.route.push(city);
            self.current_city = city;
            assert(self.route@.drop_last() == r0);
            proof {
                assert(r0[0] != city);
                assert(!self.closed());
                assert forall|k: int| 0 <= k < r0.len() implies r0[k] != city by {
                    assert(old(self).open_part()[k] == r0[k]);
                }
                assert forall|j: int, k: int| 0 <= j < k < self.route@.len() implies self.route@[j] != self.route@[k] by {
                    if k < r0.len() {
                        assert(old(self).open_part()[j] == r0[j]);
                        assert(old(self).open_part()[k] == r0[k]);
                    }
                }
                assert(self.spec_visited() =~= visited_by(self.open_part(), cities@.len())) by {
                    assert forall|c: int| 0 <= c < cities@.len() implies self.spec_visited()[c] == self.open_part().contains(c as usize) by {
                        if c == city as int {
                            assert(self.open_part()[r0.len() as int] == city);
                        } else {
                            assert(v0[c] == r0.contains(c as usize));
                            if r0.contains(c as usize) {
                                let j = choose|j: int| 0 <= j < r0.len() && r0[j] == c as usize;
                                assert(self.open_part()[j] == c as usize);
                            }
                            if self.open_part().contains(c as usize) {
                                let j = choose|j: int| 0 <= j < self.open_part().len() && self.open_part()[j] == c as usize;
                                assert(r0[j] == c as usize);
                            }
                        }
                    }
                }
                assert forall|k: int| 0 <= k < self.open_part().len() implies self.spec_visited()[(#[trigger] self.open_part()[k]) as int] by {
                    if k < r0.len() {
                        assert(old(self).open_part()[k] == r0[k]);
                        assert(v0[r0[k] as int]);
                    }
                }
            }
        }
    }

    /// Closes the tour: adds the distance back to the first city and appends it.
    /// A tour that is already closed stays as it is.
    pub fn complete_tour(&mut self, cities: &[City])
        requires
            old(self).wf(cities@.len()),
            cities_ok(cities@),
        ensures
            final(self).wf(cities@.len()),
            final(self).closed(),
            old(self).measured(cities@) ==> final(self).measured(cities@),
            if old(self).closed() {
                *final(self) == *old(self)
            } else {
                &&& final(self).spec_current() == old(self).spec_current()
                &&& final(self).spec_visited() == old(self).spec_visited()
                &&& final(self).spec_route() == old(self).spec_route().push(old(self).spec_route()[0])
                &&& final(self).spec_total() == old(self).spec_total() + city_dist(
                    cities@[old(self).spec_current() as int],
                    cities@[old(self).spec_route()[0] as int],
                )
            },
    {
        if !self.is_tour_complete() {
            let start_city = self.route[0];
            let d = cities[self.current_city].distance_to(&cities[start_city]);
            proof {
                lemma_count_bound(self.spec_visited());
                assert((self.route@.len() - 1) * MAX_DISTANCE + MAX_DISTANCE == self.route@.len() * MAX_DISTANCE) by (nonlinear_arith);
                assert(self.route@.len() * MAX_DISTANCE <= 1_000_000 * 0x400_0000_0000) by (nonlinear_arith)
                    requires
                        self.route@.len() <= 1_000_000,
                ;
            }
            self.total_distance = self.total_distance + d;
            let ghost r0 = self.route@;
            self.route.push(start_city);
            assert(self.route@.drop_last() == r0);
            proof {
                assert(self.closed());
                assert(self.open_part() == r0);
            }
        }
    }

    pub fn route(&self) -> (r: &Vec<usize>)
        ensures
            r@ == self.spec_route(),
    {
        &self.route
    }

    pub fn total_distance(&self) -> (r: u64)
        ensures
            r == self.spec_total(),
    {
        self.total_distance
    }

    pub fn current_city(&self) -> (r: usize)
        ensures
            r == self.spec_current(),
    {
        self.current_city
    }

    /// Whether city `i` has been visited; `false` out of range.
    pub fn is_visited(&self, i: usize) -> (r: bool)
        ensures
            r == (i < self.spec_visited().len() && self.spec_visited()[i as int]),
    {
        i < self.visited_cities.len() && self.visited_cities[i]
    }

    /// The route has more than one city and ends where it began.
    pub fn is_tour_complete(&self) -> (r: bool)
        ensures
            r == self.closed(),
    {
        self.route.len() > 1 && self.route[0] == self.route[self.route.len() - 1]
    }
}

proof fn lemma_unvisited_empty(visited: Seq<bool>, k: int)
    requires
        0 <= k <= visited.len(),
        k <= usize::MAX,
    ensures
        unvisited_upto(visited, k).len() == 0 <==> forall|j: int| 0 <= j < k ==> #[trigger] visited[j],
    decreases k,
{
    if k > 0 {
        lemma_unvisited_empty(visited, k - 1);
    }
}

/// A sequence of all `true` has every entry counted.
pub proof fn lemma_count_all(s: Seq<bool>)
    requires
        forall|k: int| 0 <= k < s.len() ==> #[trigger] s[k],
    ensures
        count_true(s) == s.len(),
    decreases s.len(),
{
    if s.len() > 0 {
        assert forall|k: int| 0 <= k < s.drop_last().len() implies #[trigger] s.drop_last()[k] by {
            assert(s.drop_last()[k] == s[k]);
        }
        lemma_count_all(s.drop_last());
    }
}

proof fn lemma_count_zero(n: nat)
    ensures
        count_true(Seq::new(n, |x: int| false)) == 0,
    decreases n,
{
    if n > 0 {
        assert(Seq::new(n, |x: int| false).drop_last() =~= Seq::new((n - 1) as nat, |x: int| false));
        lemma_count_zero((n - 1) as nat);
    }
}

} // verus!
