//! Decisions of the free-roaming walk: when an ant re-decides its heading, what
//! it turns towards, and how it is kept inside the field. The heading itself, an
//! angle, is left to the caller.

use vstd::prelude::*;

use crate::forage::FoodSource;
use crate::geometry::{coord_ok, Location};
use crate::grid::PheromoneGrid;
use crate::simulation::clamp_to;

verus! {

/// Number of points sampled around an ant.
pub const SAMPLE_COUNT: u32 = 8;

/// Distance of the sampled points from the ant (20.0).
pub const SAMPLE_DISTANCE: i64 = 20_000_000;

/// `SAMPLE_DISTANCE` times the cosine of 45 degrees, rounded (14.142136).
pub const SAMPLE_DIAGONAL: i64 = 14_142_136;

/// A source within this distance is sensed (100.0).
pub const SENSING_RADIUS: u64 = 100_000_000;

/// A sampled level above this is followed (0.1).
pub const FOLLOW_THRESHOLD: u64 = 100_000;

/// Closest an ant comes to an edge of the field (20.0).
pub const MARGIN: i64 = 20_000_000;

/// Width of the field (800.0).
pub const FIELD_WIDTH: i64 = 800_000_000;

/// Height of the field (600.0).
pub const FIELD_HEIGHT: i64 = 600_000_000;

/// What an ant turns towards when it re-decides its heading.
#[derive(Clone, Copy, Debug, PartialEq, Eq, Structural)]
pub enum Steering {
    /// Not a re-decision: keep the heading.
    Keep,
    /// Turn towards this food source.
    TowardFood(usize),
    /// Turn towards this sampled point (see `sample_offset`).
    TowardSample(u32),
    /// Turn at random.
    Wander,
}

/// Offset of sampled point `k`, at `k` eighths of a full turn from the x axis.
pub open spec fn sample_offset_spec(k: int) -> (int, int) {
    if k == 0 {
        (SAMPLE_DISTANCE as int, 0)
    } else if k == 1 {
        (SAMPLE_DIAGONAL as int, SAMPLE_DIAGONAL as int)
    } else if k == 2 {
        (0, SAMPLE_DISTANCE as int)
    } else if k == 3 {
        (-SAMPLE_DIAGONAL, SAMPLE_DIAGONAL as int)
    } else if k == 4 {
        (-SAMPLE_DISTANCE, 0)
    } else if k == 5 {
        (-SAMPLE_DIAGONAL, -SAMPLE_DIAGONAL)
    } else if k == 6 {
        (0, -SAMPLE_DISTANCE)
    } else {
        (SAMPLE_DIAGONAL as int, -SAMPLE_DIAGONAL)
    }
}

pub fn sample_offset(k: u32) -> (r: (i64, i64))
    requires
        k < SAMPLE_COUNT,
    ensures
        r.0 == sample_offset_spec(k as int).0,
        r.1 == sample_offset_spec(k as int).1,
{
    match k {
        0 => (SAMPLE_DISTANCE, 0),
        1 => (SAMPLE_DIAGONAL, SAMPLE_DIAGONAL),
        2 => (0, SAMPLE_DISTANCE),
        3 => (-SAMPLE_DIAGONAL, SAMPLE_DIAGONAL),
        4 => (-SAMPLE_DISTANCE, 0),
        5 => (-SAMPLE_DIAGONAL, -SAMPLE_DIAGONAL),
        6 => (0, -SAMPLE_DISTANCE),
        _ => (SAMPLE_DIAGONAL, -SAMPLE_DIAGONAL),
    }
}

/// The grid level at sampled point `k` around `(x, y)`.
pub open spec fn sample_level(grid: PheromoneGrid, x: int, y: int, k: int) -> int {
    grid.level_at(x + sample_offset_spec(k).0, y + sample_offset_spec(k).1)
}

/// Among the first `k` sampled points, the first holding the highest level above
/// zero, with that level; `(-1, 0)` when all of them are zero.
pub open spec fn best_sample_upto(grid: PheromoneGrid, x: int, y: int, k: int) -> (int, int)
    decreases k,
{
    if k <= 0 {
        (-1, 0)
    } else {
        let prev = best_sample_upto(grid, x, y, k - 1);
        let level = sample_level(grid, x, y, k - 1);
        if level > prev.1 {
            (k - 1, level)
        } else {
            prev
        }
    }
}

/// `fs[k]` holds food and lies within `SENSING_RADIUS` of `here`.
pub open spec fn sensed(fs: Seq<FoodSource>, here: Location, k: int) -> bool {
    fs[k].food_amount > 0 && here.dist_to(fs[k].location) < SENSING_RADIUS
}

/// Among the first `k` sources, the first of the nearest sensed ones.
pub open spec fn nearest_sensed_upto(fs: Seq<FoodSource>, here: Location, k: int) -> Option<int>
    decreases k,
{
    if k <= 0 {
        None
    } else {
        let prev = nearest_sensed_upto(fs, here, k - 1);
        if sensed(fs, here, k - 1) && match prev {
            None => true,
            Some(j) => here.dist_to(fs[k - 1].location) < here.dist_to(fs[j].location),
        } {
            Some(k - 1)
        } else {
            prev
        }
    }
}

/// The steering of a re-decision at `(x, y)`: the nearest sensed source if any
/// (the first of them on a tie); else the sampled point with the highest level (the
/// first on a tie) when that level exceeds `FOLLOW_THRESHOLD`; else a random turn.
pub open spec fn steering_spec(grid: PheromoneGrid, fs: Seq<FoodSource>, x: int, y: int) -> Steering {
    match nearest_sensed_upto(fs, Location { x: x as i64, y: y as i64 }, fs.len() as int) {
        Some(k) => Steering::TowardFood(k as usize),
        None => {
            let best = best_sample_upto(grid, x, y, SAMPLE_COUNT as int);
            if best.1 > FOLLOW_THRESHOLD {
                Steering::TowardSample(best.0 as u32)
            } else {
                Steering::Wander
            }
        },
    }
}

/// Steps between re-decisions, for a walk whose timer reads `timer`.
pub open spec fn redecide_interval(timer: int) -> int {
    20 + timer % 40
}

/// The steering at `(x, y)` for a walk whose timer reads `timer`, and the timer
/// after this step: a re-decision once the timer reaches `redecide_interval`,
/// which restarts it; otherwise the heading is kept and the timer counts on.
pub fn choose_steering(grid: &PheromoneGrid, food_sources: &[FoodSource], x: i64, y: i64, timer: u32) -> (r: (
    Steering,
    u32,
))
    requires
        grid.wf(),
        coord_ok(x),
        coord_ok(y),
        forall|k: int| 0 <= k < food_sources@.len() ==> (#[trigger] food_sources@[k]).wf(),
    ensures
        r.1 == if timer >= redecide_interval(timer as int) {
            0
        } else {
            timer + 1
        },
        timer < redecide_interval(timer as int) ==> r.0 == Steering::Keep,
        timer >= redecide_interval(timer as int) ==> r.0 == steering_spec(
            *grid,
            food_sources@,
            x as int,
            y as int,
        ),
{
    let interval = 20 + timer % 40;
    if timer < interval {
        return (Steering::Keep, timer + 1);
    }
    let here = Location { x, y };
    let n = food_sources.len();
    let mut nearest: Option<usize> = None;
    let mut nearest_distance: u64 = 0;
    let mut k: usize = 0;
    while k < n
        invariant
            n == food_sources@.len(),
            k <= n,
            here == (Location { x, y }),
            here.wf(),
            forall|j: int| 0 <= j < food_sources@.len() ==> (#[trigger] food_sources@[j]).wf(),
            nearest_sensed_upto(food_sources@, here, k as int) == match nearest {
                Some(j) => Some(j as int),
                None => None::<int>,
            },
            nearest matches Some(j) ==> j < k && nearest_distance == here.dist_to(food_sources@[j as int].location),
        decreases n - k,
    {
        let f = &food_sources[k];
        assert(food_sources@[k as int].wf());
        if f.food_amount > 0 {
            let d = here.distance_to(&f.location);
            if d < SENSING_RADIUS {
                let closer = match nearest {
                    None => true,
                    Some(_) => d < nearest_distance,
                };
                if closer {
                    nearest = Some(k);
                    nearest_distance = d;
                }
            }
        }
        k = k + 1;
    }
    if let Some(j) = nearest {
        return (Steering::TowardFood(j), 0);
    }
    let mut best_index: i64 = -1;
    let mut best_level: u64 = 0;
    let mut s: u32 = 0;
    while s < SAMPLE_COUNT
        invariant
            grid.wf(),
            coord_ok(x),
            coord_ok(y),
            s <= SAMPLE_COUNT,
            best_sample_upto(*grid, x as int, y as int, s as int) == (best_index as int, best_level as int),
            -1 <= best_index < s,
        decreases SAMPLE_COUNT - s,
    {
        let (dx, dy) = sample_offset(s);
        let level = grid.get_at(x + dx, y + dy);
        if level > best_level {
            best_index = s as i64;
            best_level = level;
        }
        s = s + 1;
    }
    if best_level > FOLLOW_THRESHOLD {
        (Steering::TowardSample(best_index as u32), 0)
    } else {
        (Steering::Wander, 0)
    }
}

/// A position brought inside the margin of the field, with whether each axis was
/// brought in (and so reflects the heading).
pub fn keep_in_bounds(x: i64, y: i64) -> (r: (i64, i64, bool, bool))
    ensures
        r.0 == clamp_to(x as int, MARGIN as int, (FIELD_WIDTH - MARGIN) as int),
        r.1 == clamp_to(y as int, MARGIN as int, (FIELD_HEIGHT - MARGIN) as int),
        r.2 == (x < MARGIN || x > FIELD_WIDTH - MARGIN),
        r.3 == (y < MARGIN || y > FIELD_HEIGHT - MARGIN),
        coord_ok(r.0),
        coord_ok(r.1),
{
    let (nx, fx) = if x < MARGIN {
        (MARGIN, true)
    } else if x > FIELD_WIDTH - MARGIN {
        (FIELD_WIDTH - MARGIN, true)
    } else {
        (x, false)
    };
    let (ny, fy) = if y < MARGIN {
        (MARGIN, true)
    } else if y > FIELD_HEIGHT - MARGIN {
        (FIELD_HEIGHT - MARGIN, true)
    } else {
        (y, false)
    };
    (nx, ny, fx, fy)
}

} // verus!
