//! The host-facing driver of the tour colony: a growing list of cities, a
//! colony built from them on request, and a running flag.

use vstd::prelude::*;

use crate::colony::{copy_route, ACOParameters, Colony};
use crate::geometry::{cities_ok, coord_ok, City, MAX_CITIES, SCALE};

verus! {

/// Fewest cities a colony is built over.
pub const MIN_COLONY_CITIES: usize = 3;

pub struct ACOEngine {
    colony: Option<Colony>,
    cities: Vec<City>,
    is_running: bool,
}

impl ACOEngine {
    pub closed spec fn spec_cities(&self) -> Seq<City> {
        self.cities@
    }

    pub closed spec fn spec_colony(&self) -> Option<Colony> {
        self.colony
    }

    pub closed spec fn spec_running(&self) -> bool {
        self.is_running
    }

    pub closed spec fn wf(&self) -> bool {
        &&& self.cities@.len() <= MAX_CITIES
        &&& cities_ok(self.cities@)
        &&& self.colony matches Some(c) ==> c.wf()
    }

    pub fn new() -> (r: ACOEngine)
        ensures
            r.wf(),
            r.spec_cities().len() == 0,
            r.spec_colony() is None,
            !r.spec_running(),
    {
        ACOEngine { colony: None, cities: Vec::new(), is_running: false }
    }

    /// Appends a city at `(x, y)` whose id is its position in the list, and
    /// returns the id. Once `MAX_CITIES` are held, or the id would not fit in
    /// `u32`, nothing is added and `None` is returned.
    pub fn add_city(&mut self, x: i64, y: i64) -> (r: Option<u32>)
        requires
            old(self).wf(),
            coord_ok(x),
            coord_ok(y),
        ensures
            final(self).wf(),
            final(self).spec_colony() == old(self).spec_colony(),
            final(self).spec_running() == old(self).spec_running(),
            r is None <==> old(self).spec_cities().len() >= MAX_CITIES,
            r is None ==> final(self).spec_cities() == old(self).spec_cities(),
            r matches Some(id) ==> id == old(self).spec_cities().len() && final(self).spec_cities()
                == old(self).spec_cities().push(City { id, x, y }),
    {
        let n = self.cities.len();
        if n >= MAX_CITIES {
            return None;
        }
        let id = n as u32;
        self.cities.push(City::new(id, x, y));
        proof {
            assert forall|k: int| 0 <= k < self.cities@.len() implies (#[trigger] self.cities@[k]).wf() by {
                if k < n {
                    assert(old(self).cities@[k].wf());
                }
            }
        }
        Some(id)
    }

    /// Removes every city and the colony.
    pub fn clear_cities(&mut self)
        requires
            old(self).wf(),
        ensures
            final(self).wf(),
            final(self).spec_cities().len() == 0,
            final(self).spec_colony() is None,
            final(self).spec_running() == old(self).spec_running(),
    {
        self.cities = Vec::new();
        self.colony = None;
    }

    pub fn get_city_count(&self) -> (r: usize)
        ensures
            r == self.spec_cities().len(),
    {
        self.cities.len()
    }

    pub fn cities(&self) -> (r: &Vec<City>)
        ensures
            r@ == self.spec_cities(),
    {
        &self.cities
    }

    /// Builds a fresh colony over the current cities with the given settings and an
    /// initial level of 1.0. Fewer than `MIN_COLONY_CITIES` cities leave the
    /// engine as it is. Returns whether a colony was built.
    pub fn initialize_colony(
        &mut self,
        num_ants: usize,
        max_generations: usize,
        evaporation_rate: u64,
        alpha: u32,
        beta: u32,
    ) -> (r: bool)
        requires
            old(self).wf(),
        ensures
            final(self).wf(),
            r == (old(self).spec_cities().len() >= MIN_COLONY_CITIES),
            !r ==> *final(self) == *old(self),
            r ==> (final(self).spec_colony() matches Some(c) && c.spec_cities() == old(self).spec_cities()
                && c.spec_generation() == 0 && c.spec_best_distance() is None
                && c.spec_parameters() == (ACOParameters {
                num_ants,
                max_generations,
                evaporation_rate,
                alpha,
                beta,
                initial_pheromone: SCALE,
            })),
            final(self).spec_cities() == old(self).spec_cities(),
            final(self).spec_running() == old(self).spec_running(),
    {
        if self.cities.len() < MIN_COLONY_CITIES {
            return false;
        }
        let parameters = ACOParameters {
            num_ants,
            max_generations,
            evaporation_rate,
            alpha,
            beta,
            initial_pheromone: SCALE,
        };
        let cities = copy_cities(&self.cities);
        self.colony = Some(Colony::new(cities, parameters));
        true
    }

    pub fn start(&mut self)
        requires
            old(self).wf(),
        ensures
            final(self).wf(),
            final(self).spec_running(),
            final(self).spec_cities() == old(self).spec_cities(),
            final(self).spec_colony() == old(self).spec_colony(),
    {
        self.is_running = true;
    }

    pub fn stop(&mut self)
        requires
            old(self).wf(),
        ensures
            final(self).wf(),
            !final(self).spec_running(),
            final(self).spec_cities() == old(self).spec_cities(),
            final(self).spec_colony() == old(self).spec_colony(),
    {
        self.is_running = false;
    }

    /// Runs one generation of the colony while running; `false` when stopped, when
    /// there is no colony, or when the colony declines.
    pub fn run_iteration(&mut self) -> (r: bool)
        requires
            old(self).wf(),
        ensures
            final(self).wf(),
            final(self).spec_cities() == old(self).spec_cities(),
            final(self).spec_running() == old(self).spec_running(),
            !old(self).spec_running() || old(self).spec_colony() is None ==> *final(self) == *old(self) && !r,
            final(self).spec_colony() is Some == old(self).spec_colony() is Some,
            old(self).spec_running() ==> match old(self).spec_colony() {
                Some(c) => (final(self).spec_colony() matches Some(c2) && Colony::iteration_effect(c, c2, r)),
                None => true,
            },
    {
        if !self.is_running {
            return false;
        }
        match &mut self.colony {
            Some(colony) => colony.run_iteration(),
            None => false,
        }
    }

    /// The colony's best length; `None` without a colony or before its first generation.
    pub fn get_best_distance(&self) -> (r: Option<u64>)
        ensures
            r == match self.spec_colony() {
                Some(c) => c.spec_best_distance(),
                None => None,
            },
    {
        match &self.colony {
            Some(colony) => colony.best_distance(),
            None => None,
        }
    }

    pub fn get_generation(&self) -> (r: usize)
        ensures
            r == match self.spec_colony() {
                Some(c) => c.spec_generation(),
                None => 0,
            },
    {
        match &self.colony {
            Some(colony) => colony.generation(),
            None => 0,
        }
    }

    /// The colony's best route; empty without one.
    pub fn get_best_route(&self) -> (r: Vec<usize>)
        ensures
            r@ == match self.spec_colony() {
                Some(c) => match c.spec_best_route() {
                    Some(route) => route,
                    None => Seq::empty(),
                },
                None => Seq::empty(),
            },
    {
        match &self.colony {
            Some(colony) => match colony.best_route() {
                Some(route) => copy_route(route),
                None => Vec::new(),
            },
            None => Vec::new(),
        }
    }

    pub fn is_complete(&self) -> (r: bool)
        ensures
            r == match self.spec_colony() {
                Some(c) => c.spec_generation() >= c.spec_parameters().max_generations,
                None => false,
            },
    {
        match &self.colony {
            Some(colony) => colony.is_complete(),
            None => false,
        }
    }

    pub fn is_running(&self) -> (r: bool)
        ensures
            r == self.spec_running(),
    {
        self.is_running
    }

    pub fn colony(&self) -> (r: Option<&Colony>)
        ensures
            r is Some == self.spec_colony() is Some,
            r matches Some(c) ==> self.spec_colony() == Some(*c),
    {
        self.colony.as_ref()
    }
}

fn copy_cities(cities: &Vec<City>) -> (r: Vec<City>)
    ensures
        r@ == cities@,
{
    let mut out: Vec<City> = Vec::new();
    let mut k: usize = 0;
    while k < cities.len()
        invariant
            k <= cities@.len(),
            out@ == cities@.subrange(0, k as int),
        decreases cities@.len() - k,
    {
        out.push(cities[k]);
        k = k + 1;
        assert(out@ =~= cities@.subrange(0, k as int));
    }
    assert(out@ =~= cities@);
    out
}

} // verus!
