//! Locations on the plane and the Euclidean distance between them.

use vstd::prelude::*;

verus! {

/// One unit in the fixed-point representation: a stored value `v` stands for `v / SCALE`.
pub const SCALE: u64 = 1_000_000;

/// Largest magnitude of a coordinate (in millionths); keeps squared distances within `u128`.
pub const COORD_LIMIT: i64 = 1_099_511_627_776;

/// `r` is the integer square root of `n`, rounded down.
pub open spec fn is_floor_sqrt(r: int, n: int) -> bool {
    0 <= r && r * r <= n && n < (r + 1) * (r + 1)
}

/// The integer square root of `n`, rounded down.
pub open spec fn floor_sqrt(n: int) -> int {
    choose|r: int| is_floor_sqrt(r, n)
}

/// At most one value is the rounded-down square root of `n`.
pub proof fn lemma_floor_sqrt_unique(r1: int, r2: int, n: int)
    requires
        is_floor_sqrt(r1, n),
        is_floor_sqrt(r2, n),
    ensures
        r1 == r2,
{
    if r1 < r2 {
        assert((r1 + 1) * (r1 + 1) <= r2 * r2) by (nonlinear_arith)
            requires
                0 <= r1 < r2,
        ;
    } else if r2 < r1 {
        assert((r2 + 1) * (r2 + 1) <= r1 * r1) by (nonlinear_arith)
            requires
                0 <= r2 < r1,
        ;
    }
}

/// Every non-negative integer has a rounded-down square root, and it is non-negative.
pub proof fn lemma_floor_sqrt_exists(n: int)
    requires
        n >= 0,
    ensures
        is_floor_sqrt(floor_sqrt(n), n),
        floor_sqrt(n) >= 0,
    decreases n,
{
    if n == 0 {
        assert(is_floor_sqrt(0, 0));
    } else {
        lemma_floor_sqrt_exists(n - 1);
        let r = floor_sqrt(n - 1);
        if (r + 1) * (r + 1) <= n {
            assert(n < (r + 2) * (r + 2)) by (nonlinear_arith)
                requires
                    n - 1 < (r + 1) * (r + 1),
                    r >= 0,
            ;
            assert(is_floor_sqrt(r + 1, n));
        } else {
            assert(is_floor_sqrt(r, n));
        }
    }
}

/// Distances are never negative.
pub proof fn lemma_distance_nonneg(x1: int, y1: int, x2: int, y2: int)
    ensures
        distance(x1, y1, x2, y2) >= 0,
{
    assert(dist_sq(x1, y1, x2, y2) >= 0) by (nonlinear_arith);
    lemma_floor_sqrt_exists(dist_sq(x1, y1, x2, y2));
}

/// A witness fixes `floor_sqrt`.
pub proof fn lemma_floor_sqrt_is(r: int, n: int)
    requires
        is_floor_sqrt(r, n),
    ensures
        floor_sqrt(n) == r,
{
    lemma_floor_sqrt_unique(floor_sqrt(n), r, n);
}

/// Integer square root, rounded down.
pub fn isqrt(n: u128) -> (r: u64)
    ensures
        is_floor_sqrt(r as int, n as int),
        r == floor_sqrt(n as int),
{
    let mut lo: u128 = 0;
    let mut hi: u128 = 0x1_0000_0000_0000_0000;
    proof {
        assert(0x1_0000_0000_0000_0000 * 0x1_0000_0000_0000_0000 > u128::MAX) by (nonlinear_arith);
    }
    while hi - lo > 1
        invariant
            lo < hi <= 0x1_0000_0000_0000_0000,
            lo * lo <= n,
            n < hi * hi,
        decreases hi - lo,
    {
        let mid: u128 = lo + (hi - lo) / 2;
        assert(mid * mid < 0x1_0000_0000_0000_0000 * 0x1_0000_0000_0000_0000) by (nonlinear_arith)
            requires
                mid < 0x1_0000_0000_0000_0000,
        ;
        assert(0x1_0000_0000_0000_0000 * 0x1_0000_0000_0000_0000 == u128::MAX + 1) by (nonlinear_arith);
        if mid * mid <= n {
            lo = mid;
        } else {
            hi = mid;
        }
    }
    assert(hi == lo + 1);
    proof {
        lemma_floor_sqrt_is(lo as int, n as int);
    }
    lo as u64
}

/// A point whose coordinates are each within `COORD_LIMIT`.
pub open spec fn coord_ok(v: i64) -> bool {
    -COORD_LIMIT <= v <= COORD_LIMIT
}

/// Squared Euclidean distance between two points.
pub open spec fn dist_sq(x1: int, y1: int, x2: int, y2: int) -> int {
    (x1 - x2) * (x1 - x2) + (y1 - y2) * (y1 - y2)
}

/// Euclidean distance (rounded down) between `(x1, y1)` and `(x2, y2)`.
pub open spec fn distance(x1: int, y1: int, x2: int, y2: int) -> int {
    floor_sqrt(dist_sq(x1, y1, x2, y2))
}

/// Every distance between points within `COORD_LIMIT` is below `MAX_DISTANCE`.
pub const MAX_DISTANCE: u64 = 0x400_0000_0000;

/// Euclidean distance between two points, in millionths, rounded down.
pub fn point_distance(x1: i64, y1: i64, x2: i64, y2: i64) -> (r: u64)
    requires
        coord_ok(x1),
        coord_ok(y1),
        coord_ok(x2),
        coord_ok(y2),
    ensures
        r == distance(x1 as int, y1 as int, x2 as int, y2 as int),
        r < MAX_DISTANCE,
{
    let dx: i128 = x1 as i128 - x2 as i128;
    let dy: i128 = y1 as i128 - y2 as i128;
    let ax: u128 = if dx < 0 { (-dx) as u128 } else { dx as u128 };
    let ay: u128 = if dy < 0 { (-dy) as u128 } else { dy as u128 };
    assert(ax * ax <= 0x200_0000_0000 * 0x200_0000_0000) by (nonlinear_arith)
        requires
            ax <= 0x200_0000_0000,
    ;
    assert(ay * ay <= 0x200_0000_0000 * 0x200_0000_0000) by (nonlinear_arith)
        requires
            ay <= 0x200_0000_0000,
    ;
    assert(ax * ax == dx * dx && ay * ay == dy * dy) by (nonlinear_arith)
        requires
            ax == dx || ax == -dx,
            ay == dy || ay == -dy,
    ;
    let r = isqrt(ax * ax + ay * ay);
    assert(r < MAX_DISTANCE) by (nonlinear_arith)
        requires
            r * r <= 2 * (0x200_0000_0000 * 0x200_0000_0000),
    ;
    r
}

/// A point on the plane, in millionths of a unit.
#[derive(Clone, Copy, Debug, PartialEq, Eq, Structural)]
pub struct Location {
    pub x: i64,
    pub y: i64,
}

impl Location {
    /// Both coordinates are within `COORD_LIMIT`.
    pub open spec fn wf(&self) -> bool {
        coord_ok(self.x) && coord_ok(self.y)
    }

    pub open spec fn dist_to(&self, other: Location) -> int {
        distance(self.x as int, self.y as int, other.x as int, other.y as int)
    }

    pub fn new(x: i64, y: i64) -> (r: Location)
        requires
            coord_ok(x),
            coord_ok(y),
        ensures
            r.x == x,
            r.y == y,
            r.wf(),
    {
        Location { x, y }
    }

    /// Euclidean distance to `other`, rounded down.
    pub fn distance_to(&self, other: &Location) -> (r: u64)
        requires
            self.wf(),
            other.wf(),
        ensures
            r == self.dist_to(*other),
            r < MAX_DISTANCE,
    {
        point_distance(self.x, self.y, other.x, other.y)
    }
}

/// A node of a tour: an identity and a place.
#[derive(Clone, Copy, Debug, PartialEq, Eq, Structural)]
pub struct City {
    pub id: u32,
    pub x: i64,
    pub y: i64,
}

/// Distance between two cities.
pub open spec fn city_dist(a: City, b: City) -> int {
    distance(a.x as int, a.y as int, b.x as int, b.y as int)
}

/// Every city of `cities` has its coordinates within `COORD_LIMIT`.
pub open spec fn cities_ok(cities: Seq<City>) -> bool {
    forall|k: int| 0 <= k < cities.len() ==> (#[trigger] cities[k]).wf()
}

/// Length of the open path through `cities` in their order.
pub open spec fn chain_length(cities: Seq<City>) -> int
    decreases cities.len(),
{
    if cities.len() < 2 {
        0
    } else {
        chain_length(cities.drop_last()) + city_dist(
            cities[cities.len() - 2],
            cities[cities.len() - 1],
        )
    }
}

/// Length of the closed tour through `cities` in their order, back to the first.
pub open spec fn cycle_length(cities: Seq<City>) -> int {
    if cities.len() < 2 {
        0
    } else {
        chain_length(cities) + city_dist(cities[cities.len() - 1], cities[0])
    }
}

/// Most cities a tour may hold; keeps tour lengths within `u64`.
pub const MAX_CITIES: usize = 1_000_000;

impl City {
    pub open spec fn wf(&self) -> bool {
        coord_ok(self.x) && coord_ok(self.y)
    }

    pub fn new(id: u32, x: i64, y: i64) -> (r: City)
        requires
            coord_ok(x),
            coord_ok(y),
        ensures
            r == (City { id, x, y }),
            r.wf(),
    {
        City { id, x, y }
    }

    pub fn id(&self) -> (r: u32)
        ensures
            r == self.id,
    {
        self.id
    }

    pub fn x(&self) -> (r: i64)
        ensures
            r == self.x,
    {
        self.x
    }

    pub fn y(&self) -> (r: i64)
        ensures
            r == self.y,
    {
        self.y
    }

    pub fn location(&self) -> (r: Location)
        ensures
            r.x == self.x,
            r.y == self.y,
    {
        Location { x: self.x, y: self.y }
    }

    /// Euclidean distance to `other`, rounded down.
    pub fn distance_to(&self, other: &City) -> (r: u64)
        requires
            self.wf(),
            other.wf(),
        ensures
            r == city_dist(*self, *other),
            r < MAX_DISTANCE,
    {
        point_distance(self.x, self.y, other.x, other.y)
    }
}

/// Distance between two cities.
pub fn calculate_distance(city1: &City, city2: &City) -> (r: u64)
    requires
        city1.wf(),
        city2.wf(),
    ensures
        r == city_dist(*city1, *city2),
        r < MAX_DISTANCE,
{
    city1.distance_to(city2)
}

/// Length of the closed tour that visits `cities` in order and returns to the first.
pub fn calculate_total_distance(cities: &[City]) -> (r: u64)
    requires
        cities@.len() <= MAX_CITIES,
        cities_ok(cities@),
    ensures
        r == cycle_length(cities@),
{
    let n = cities.len();
    if n < 2 {
        return 0;
    }
    let mut total: u64 = 0;
    let mut i: usize = 1;
    while i < n
        invariant
            1 <= i <= n,
            n == cities@.len(),
            n <= MAX_CITIES,
            cities_ok(cities@),
            total == chain_length(cities@.subrange(0, i as int)),
            total <= i * 0x400_0000_0000,
        decreases n - i,
    {
        let d = calculate_distance(&cities[i - 1], &cities[i]);
        assert(d < 0x400_0000_0000);
        assert(cities@.subrange(0, i + 1).drop_last() == cities@.subrange(0, i as int));
        total = total + d;
        i = i + 1;
    }
    assert(cities@.subrange(0, n as int) == cities@);
    let closing = calculate_distance(&cities[n - 1], &cities[0]);
    assert(closing < 0x400_0000_0000);
    total + closing
}

} // verus!
