//! Desirability weights and roulette-wheel selection.
//!
//! Weights are fixed-point values with `WEIGHT_ONE` standing for one; every
//! product saturates at `WEIGHT_CAP`, which keeps exponentiation finite.

use vstd::prelude::*;

verus! {

/// One, in the fixed-point scale of weights.
pub const WEIGHT_ONE: u64 = 1_000_000_000_000;

/// Largest weight; products saturate here.
pub const WEIGHT_CAP: u64 = 0xFFFF_FFFF_FFFF_FFFF;

/// Largest exponent applied to pheromone or closeness.
pub const MAX_EXPONENT: u32 = 10;

/// Product of two weights, rounded down and saturated at `WEIGHT_CAP`.
pub open spec fn sat_mul(a: int, b: int) -> int {
    let p = a * b / (WEIGHT_ONE as int);
    if p > WEIGHT_CAP {
        WEIGHT_CAP as int
    } else {
        p
    }
}

/// `base` raised to `e` with `sat_mul`.
pub open spec fn sat_pow(base: int, e: nat) -> int
    decreases e,
{
    if e == 0 {
        WEIGHT_ONE as int
    } else {
        sat_mul(sat_pow(base, (e - 1) as nat), base)
    }
}

/// An exponent brought into `[0, MAX_EXPONENT]`.
pub open spec fn clamp_exponent(e: int) -> nat {
    if e > MAX_EXPONENT {
        MAX_EXPONENT as nat
    } else {
        e as nat
    }
}

/// A pheromone level (in millionths) as a weight.
pub open spec fn pheromone_weight(level: int) -> int {
    level * 1_000_000
}

/// The reciprocal of a distance (in millionths) as a weight; one when the distance is zero.
pub open spec fn closeness(distance: int) -> int {
    if distance > 0 {
        1_000_000_000_000_000_000int / distance
    } else {
        WEIGHT_ONE as int
    }
}

/// `w`, raised to the smallest weight when rounding took a positive product to zero.
pub open spec fn keep_positive(w: int, positive: bool) -> int {
    if w == 0 && positive {
        1
    } else {
        w
    }
}

/// Desirability of a candidate: `pheromone^alpha * (1 / distance)^beta`. A positive
/// pheromone level always gives a positive weight: a product that rounds to zero
/// counts as the smallest weight.
pub open spec fn edge_weight(level: int, distance: int, alpha: int, beta: int) -> int {
    keep_positive(
        sat_mul(
            sat_pow(pheromone_weight(level), clamp_exponent(alpha)),
            sat_pow(closeness(distance), clamp_exponent(beta)),
        ),
        level > 0,
    )
}

proof fn lemma_sat_mul_range(a: int, b: int)
    requires
        a >= 0,
        b >= 0,
    ensures
        0 <= sat_mul(a, b) <= WEIGHT_CAP,
{
    assert(a * b >= 0) by (nonlinear_arith)
        requires
            a >= 0,
            b >= 0,
    ;
}

proof fn lemma_sat_pow_range(base: int, e: nat)
    requires
        base >= 0,
    ensures
        0 <= sat_pow(base, e) <= WEIGHT_CAP,
    decreases e,
{
    if e > 0 {
        lemma_sat_pow_range(base, (e - 1) as nat);
        lemma_sat_mul_range(sat_pow(base, (e - 1) as nat), base);
    }
}

/// Weights lie within `[0, WEIGHT_CAP]`, and a positive level gives a positive weight.
pub proof fn lemma_edge_weight_range(level: int, distance: int, alpha: int, beta: int)
    requires
        level >= 0,
        distance >= 0,
    ensures
        0 <= edge_weight(level, distance, alpha, beta) <= WEIGHT_CAP,
        level > 0 ==> edge_weight(level, distance, alpha, beta) > 0,
{
    lemma_sat_pow_range(pheromone_weight(level), clamp_exponent(alpha));
    lemma_sat_pow_range(closeness(distance), clamp_exponent(beta));
    lemma_sat_mul_range(
        sat_pow(pheromone_weight(level), clamp_exponent(alpha)),
        sat_pow(closeness(distance), clamp_exponent(beta)),
    );
}

/// Scaling a weight by a factor of at least one keeps it within range and positive.
pub proof fn lemma_scaled_weight_range(w: int, factor: int)
    requires
        0 <= w <= WEIGHT_CAP,
        factor >= WEIGHT_ONE,
    ensures
        0 <= sat_mul(w, factor) <= WEIGHT_CAP,
        w > 0 ==> sat_mul(w, factor) > 0,
{
    lemma_sat_mul_range(w, factor);
    if w > 0 {
        assert(w * factor >= 1_000_000_000_000) by (nonlinear_arith)
            requires
                w >= 1,
                factor >= 1_000_000_000_000,
        ;
    }
}

/// `sat_mul` on machine integers.
pub fn weight_mul(a: u64, b: u64) -> (r: u64)
    requires
        a <= WEIGHT_CAP,
        b <= WEIGHT_CAP,
    ensures
        r == sat_mul(a as int, b as int),
{
    assert(a as u128 * b as u128 <= 0xFFFF_FFFF_FFFF_FFFF * 0xFFFF_FFFF_FFFF_FFFF) by (nonlinear_arith)
        requires
            a <= 0xFFFF_FFFF_FFFF_FFFF,
            b <= 0xFFFF_FFFF_FFFF_FFFF,
    ;
    let p: u128 = a as u128 * b as u128 / WEIGHT_ONE as u128;
    if p > WEIGHT_CAP as u128 {
        WEIGHT_CAP
    } else {
        p as u64
    }
}

/// `sat_pow` on machine integers.
pub fn weight_pow(base: u64, e: u32) -> (r: u64)
    ensures
        r == sat_pow(base as int, e as nat),
{
    let mut acc: u64 = WEIGHT_ONE;
    let mut k: u32 = 0;
    while k < e
        invariant
            k <= e,
            acc == sat_pow(base as int, k as nat),
        decreases e - k,
    {
        acc = weight_mul(acc, base);
        k = k + 1;
    }
    acc
}

/// Desirability of a candidate at pheromone `level` and `distance` (both in
/// millionths), with the exponents clamped into `[0, MAX_EXPONENT]`.
pub fn compute_edge_weight(level: u64, distance: u64, alpha: u32, beta: u32) -> (r: u64)
    requires
        level <= 1_000_000_000_000,
    ensures
        r == edge_weight(level as int, distance as int, alpha as int, beta as int),
        level > 0 ==> r > 0,
{
    let a = if alpha > MAX_EXPONENT { MAX_EXPONENT } else { alpha };
    let b = if beta > MAX_EXPONENT { MAX_EXPONENT } else { beta };
    let tau = level * 1_000_000;
    let eta: u64 = if distance > 0 {
        (1_000_000_000_000_000_000u128 / distance as u128) as u64
    } else {
        WEIGHT_ONE
    };
    let w = weight_mul(weight_pow(tau, a), weight_pow(eta, b));
    if w == 0 && level > 0 {
        1
    } else {
        w
    }
}

/// Sum of the first `k` weights.
pub open spec fn prefix_sum(w: Seq<u64>, k: int) -> int
    decreases k,
{
    if k <= 0 {
        0
    } else {
        prefix_sum(w, k - 1) + w[k - 1]
    }
}

/// Sum of all weights.
pub open spec fn weight_sum(w: Seq<u64>) -> int {
    prefix_sum(w, w.len() as int)
}

/// Index of the first positive weight at or after `k`, or `w.len()` when there is none.
pub open spec fn first_positive_from(w: Seq<u64>, k: int) -> int
    decreases w.len() - k,
{
    if k >= w.len() || k < 0 {
        w.len() as int
    } else if w[k] > 0 {
        k
    } else {
        first_positive_from(w, k + 1)
    }
}

/// The roulette rule: among the positive weights, the first whose running total
/// reaches `draw`; the first positive weight when none does; nothing when all are zero.
pub open spec fn roulette_pick(w: Seq<u64>, draw: int) -> Option<int> {
    if weight_sum(w) == 0 {
        None
    } else {
        Some(pick_from(w, draw, 0))
    }
}

/// The roulette rule, scanning from `k`.
pub open spec fn pick_from(w: Seq<u64>, draw: int, k: int) -> int
    decreases w.len() - k,
{
    if k >= w.len() || k < 0 {
        first_positive_from(w, 0)
    } else if w[k] > 0 && prefix_sum(w, k + 1) >= draw {
        k
    } else {
        pick_from(w, draw, k + 1)
    }
}

pub proof fn lemma_prefix_monotone(w: Seq<u64>, j: int, k: int)
    requires
        0 <= j <= k <= w.len(),
    ensures
        prefix_sum(w, j) <= prefix_sum(w, k),
    decreases k - j,
{
    if j < k {
        lemma_prefix_monotone(w, j, k - 1);
    }
}

proof fn lemma_prefix_bound(w: Seq<u64>, k: int)
    requires
        0 <= k <= w.len(),
    ensures
        0 <= prefix_sum(w, k) <= k * 0xFFFF_FFFF_FFFF_FFFF,
    decreases k,
{
    if k > 0 {
        lemma_prefix_bound(w, k - 1);
    }
}

/// A zero sum means every weight is zero; a positive one has a positive weight.
proof fn lemma_positive_exists(w: Seq<u64>, k: int)
    requires
        0 <= k <= w.len(),
        prefix_sum(w, k) > 0,
    ensures
        0 <= first_positive_from(w, 0) < k,
        w[first_positive_from(w, 0)] > 0,
    decreases k,
{
    lemma_prefix_bound(w, k - 1);
    if prefix_sum(w, k - 1) > 0 {
        lemma_positive_exists(w, k - 1);
    } else {
        lemma_zero_prefix(w, k - 1);
    }
}

proof fn lemma_zero_prefix(w: Seq<u64>, k: int)
    requires
        0 <= k < w.len(),
        prefix_sum(w, k) == 0,
        w[k] > 0,
    ensures
        first_positive_from(w, 0) == k,
{
    lemma_zero_scan(w, k, 0);
}

proof fn lemma_zero_scan(w: Seq<u64>, k: int, j: int)
    requires
        0 <= j <= k < w.len(),
        prefix_sum(w, k) == 0,
        w[k] > 0,
    ensures
        first_positive_from(w, j) == k,
    decreases k - j,
{
    if j < k {
        lemma_prefix_monotone(w, j + 1, k);
        lemma_prefix_bound(w, j);
        assert(w[j] == 0);
        lemma_zero_scan(w, k, j + 1);
    }
}

/// Positive weights have a positive sum.
pub proof fn lemma_positive_sum(w: Seq<u64>)
    requires
        w.len() > 0,
        forall|k: int| 0 <= k < w.len() ==> #[trigger] w[k] > 0,
    ensures
        weight_sum(w) > 0,
{
    lemma_prefix_monotone(w, 1, w.len() as int);
    assert(prefix_sum(w, 1) == prefix_sum(w, 0) + w[0]);
}

/// One positive weight makes the sum positive.
pub proof fn lemma_some_positive(w: Seq<u64>, k: int)
    requires
        0 <= k < w.len(),
        w[k] > 0,
    ensures
        weight_sum(w) > 0,
{
    lemma_prefix_bound(w, k);
    lemma_prefix_monotone(w, k + 1, w.len() as int);
}

/// Zero weights sum to zero.
pub proof fn lemma_zero_sum(w: Seq<u64>, k: int)
    requires
        0 <= k <= w.len(),
        forall|j: int| 0 <= j < w.len() ==> #[trigger] w[j] == 0,
    ensures
        prefix_sum(w, k) == 0,
    decreases k,
{
    if k > 0 {
        lemma_zero_sum(w, k - 1);
    }
}

/// Sum of all weights, without overflow.
pub fn total_weight(weights: &Vec<u64>) -> (r: u128)
    ensures
        r == weight_sum(weights@),
{
    let n = weights.len();
    let mut total: u128 = 0;
    let mut k: usize = 0;
    while k < n
        invariant
            n == weights@.len(),
            k <= n,
            total == prefix_sum(weights@, k as int),
        decreases n - k,
    {
        proof {
            lemma_prefix_bound(weights@, (k + 1) as int);
            assert((k + 1) * 0xFFFF_FFFF_FFFF_FFFFu128 <= 0x1_0000_0000_0000_0000 * 0xFFFF_FFFF_FFFF_FFFF)
                by (nonlinear_arith)
                requires
                    k + 1 <= 0x1_0000_0000_0000_0000,
            ;
        }
        total = total + weights[k] as u128;
        k = k + 1;
    }
    total
}

/// Roulette-wheel selection for a given draw: among the positive weights, the
/// index of the first whose running total reaches `draw`. When `draw` lies past
/// the total the first positive weight is picked; when all weights are zero,
/// nothing is.
pub fn roulette_select(weights: &Vec<u64>, draw: u128) -> (r: Option<usize>)
    ensures
        r matches Some(i) ==> 0 <= i < weights@.len() && weights@[i as int] > 0,
        r is None <==> roulette_pick(weights@, draw as int) is None,
        r matches Some(i) ==> roulette_pick(weights@, draw as int) == Some(i as int),
{
    let total = total_weight(weights);
    if total == 0 {
        return None;
    }
    proof {
        lemma_positive_exists(weights@, weights@.len() as int);
    }
    let n = weights.len();
    let mut cumulative: u128 = 0;
    let mut k: usize = 0;
    while k < n
        invariant
            n == weights@.len(),
            k <= n,
            cumulative == prefix_sum(weights@, k as int),
            total == weight_sum(weights@),
            total > 0,
            pick_from(weights@, draw as int, 0) == pick_from(weights@, draw as int, k as int),
        decreases n - k,
    {
        proof {
            lemma_prefix_monotone(weights@, k + 1, n as int);
        }
        cumulative = cumulative + weights[k] as u128;
        if weights[k] > 0 && cumulative >= draw {
            return Some(k);
        }
        k = k + 1;
    }
    let mut j: usize = 0;
    while j < n && weights[j] == 0
        invariant
            n == weights@.len(),
            j <= n,
            first_positive_from(weights@, 0) == first_positive_from(weights@, j as int),
            first_positive_from(weights@, 0) < n,
        decreases n - j,
    {
        j = j + 1;
    }
    Some(j)
}

/// Relies on `rand::Rng::gen_range` over `thread_rng`: a value drawn uniformly
/// from `[0, bound)`; the range is never empty here.
#[verifier::external_body]
pub(crate) fn random_below(bound: u128) -> (r: u128)
    requires
        bound > 0,
    ensures
        r < bound,
{
    rand::Rng::gen_range(&mut rand::thread_rng(), 0..bound)
}

/// Index `i` satisfies the roulette rule for `draw`: its weight is positive, the
/// running total through it reaches `draw`, and no earlier positive weight's does.
pub open spec fn reaches_first(w: Seq<u64>, draw: int, i: int) -> bool {
    &&& 0 <= i < w.len()
    &&& w[i] > 0
    &&& prefix_sum(w, i + 1) >= draw
    &&& forall|k: int| 0 <= k < i && w[k] > 0 ==> #[trigger] prefix_sum(w, k + 1) < draw
}

/// For a fixed weight vector and a fixed draw the roulette rule admits one choice
/// only, and `roulette_pick` makes it whenever the draw is within the total.
pub proof fn lemma_roulette_deterministic(w: Seq<u64>, draw: int, i: int, j: int)
    requires
        reaches_first(w, draw, i),
        reaches_first(w, draw, j),
    ensures
        i == j,
        roulette_pick(w, draw) == Some(i),
{
    if i < j {
        assert(prefix_sum(w, i + 1) < draw);
    } else if j < i {
        assert(prefix_sum(w, j + 1) < draw);
    }
    lemma_prefix_monotone(w, i + 1, w.len() as int);
    lemma_prefix_bound(w, i);
    lemma_pick_scan(w, draw, i, 0);
}

proof fn lemma_pick_scan(w: Seq<u64>, draw: int, i: int, k: int)
    requires
        reaches_first(w, draw, i),
        0 <= k <= i,
    ensures
        pick_from(w, draw, k) == i,
    decreases i - k,
{
    if k < i {
        lemma_pick_scan(w, draw, i, k + 1);
    }
}

} // verus!
