use ant_colony::grid::PheromoneGrid;
use ant_colony::pheromone::{PheromoneMatrix, PHEROMONE_CEILING, PHEROMONE_FLOOR};
use ant_colony::selection::{compute_edge_weight, roulette_select, total_weight, weight_pow};

#[test]
fn test_pheromone_matrix_creation() {
    let matrix = PheromoneMatrix::new(3, 1_000_000);
    assert_eq!(matrix.size(), 3);
    assert_eq!(matrix.get(0, 1), 1_000_000);
    assert_eq!(matrix.get(1, 2), 1_000_000);
}

#[test]
fn test_pheromone_matrix_set_get() {
    let mut matrix = PheromoneMatrix::new(3, 1_000_000);
    matrix.set(0, 1, 2_000_000);
    assert_eq!(matrix.get(0, 1), 2_000_000);
    assert_eq!(matrix.get(1, 0), 2_000_000);
}

#[test]
fn test_pheromone_evaporation() {
    let mut matrix = PheromoneMatrix::new(3, 1_000_000);
    matrix.evaporate(100_000);
    assert_eq!(matrix.get(0, 1), 900_000);
    assert_eq!(matrix.get(1, 2), 900_000);
}

#[test]
fn test_pheromone_deposit() {
    let mut matrix = PheromoneMatrix::new(3, 1_000_000);
    let route = vec![0, 1, 2, 0];
    matrix.deposit_tour(&route, 10_000_000, 1_000_000);
    assert_eq!(matrix.get(0, 1), 1_100_000);
    assert_eq!(matrix.get(1, 2), 1_100_000);
    assert_eq!(matrix.get(2, 0), 1_100_000);
}

#[test]
fn deposit_tour_closes_back_to_the_start() {
    let mut matrix = PheromoneMatrix::new(3, 1_000_000);
    matrix.deposit_tour(&[0, 1, 2], 10_000_000, 1_000_000);
    assert_eq!(matrix.get(2, 0), 1_100_000);
    assert_eq!(matrix.get(0, 2), 1_100_000);
    matrix.deposit_tour(&[0, 1, 2], 0, 1_000_000);
    assert_eq!(matrix.get(0, 1), 1_100_000);
}

#[test]
fn short_or_closed_routes_leave_the_diagonal() {
    let mut matrix = PheromoneMatrix::new(3, 1_000_000);
    matrix.deposit_tour(&[1], 10_000_000, 1_000_000);
    matrix.deposit_tour(&[], 10_000_000, 1_000_000);
    assert_eq!(matrix.get(1, 1), 1_000_000);
    matrix.deposit_tour(&[0, 1, 2, 0], 10_000_000, 1_000_000);
    assert_eq!(matrix.get(0, 0), 1_000_000);
    assert_eq!(matrix.get(0, 2), 1_100_000);
}

#[test]
fn far_candidates_keep_a_positive_weight() {
    // closeness of 400 units to the fifth power rounds to zero; the weight stays positive.
    assert_eq!(compute_edge_weight(1_000_000, 400_000_000, 1, 5), 1);
    assert_eq!(compute_edge_weight(0, 400_000_000, 1, 5), 0);
}

#[test]
fn evaporation_stops_at_floor_and_spares_diagonal() {
    let mut matrix = PheromoneMatrix::new(2, 11_000);
    matrix.evaporate(500_000);
    assert_eq!(matrix.get(0, 1), PHEROMONE_FLOOR);
    assert_eq!(matrix.get(1, 0), PHEROMONE_FLOOR);
    assert_eq!(matrix.get(0, 0), 11_000);
    assert_eq!(matrix.get(1, 1), 11_000);
}

#[test]
fn evaporation_rate_is_clamped_to_one() {
    let mut matrix = PheromoneMatrix::new(2, 1_000_000);
    matrix.evaporate(5_000_000);
    assert_eq!(matrix.get(0, 1), PHEROMONE_FLOOR);
    let mut other = PheromoneMatrix::new(2, 1_000_000);
    other.evaporate(0);
    assert_eq!(other.get(0, 1), 1_000_000);
}

#[test]
fn deposit_is_symmetric() {
    let mut matrix = PheromoneMatrix::new(4, 1_000_000);
    matrix.deposit(0, 2, 500_000);
    assert_eq!(matrix.get(0, 2), 1_500_000);
    assert_eq!(matrix.get(0, 2), matrix.get(2, 0));
    assert_eq!(matrix.get(0, 1), 1_000_000);
}

#[test]
fn repeated_deposits_stop_at_ceiling() {
    let mut matrix = PheromoneMatrix::new(3, 1_000_000);
    for _ in 0..5 {
        matrix.deposit(1, 2, 400_000_000);
        assert!(matrix.get(1, 2) <= PHEROMONE_CEILING);
    }
    assert_eq!(matrix.get(1, 2), PHEROMONE_CEILING);
    assert_eq!(matrix.get(2, 1), PHEROMONE_CEILING);
    matrix.deposit(1, 2, u64::MAX);
    assert_eq!(matrix.get(1, 2), PHEROMONE_CEILING);
    assert_eq!(matrix.get_max_pheromone(), PHEROMONE_CEILING);
}

#[test]
fn out_of_range_access_is_harmless() {
    let mut matrix = PheromoneMatrix::new(2, 2_000_000);
    matrix.deposit(0, 5, 1_000_000);
    matrix.set(7, 0, 1);
    assert_eq!(matrix.get(0, 5), 2_000_000);
    assert_eq!(matrix.get(0, 1), 2_000_000);
}

#[test]
fn initial_level_is_clamped() {
    let matrix = PheromoneMatrix::new(2, 0);
    assert_eq!(matrix.get(0, 1), PHEROMONE_FLOOR);
    let matrix = PheromoneMatrix::new(2, u64::MAX);
    assert_eq!(matrix.get(0, 1), PHEROMONE_CEILING);
}

#[test]
fn reset_restores_initial_level() {
    let mut matrix = PheromoneMatrix::new(3, 1_000_000);
    matrix.deposit(0, 1, 3_000_000);
    matrix.evaporate(200_000);
    assert_eq!(matrix.get_max_pheromone(), 3_200_000);
    matrix.reset();
    assert_eq!(matrix.get(0, 1), 1_000_000);
    assert_eq!(matrix.get(2, 1), 1_000_000);
    assert_eq!(PheromoneMatrix::new(1, 1_000_000).get_max_pheromone(), 0);
}

#[test]
fn roulette_picks_first_reaching_draw() {
    let weights = vec![0, 3, 5];
    assert_eq!(total_weight(&weights), 8);
    assert_eq!(roulette_select(&weights, 0), Some(1));
    assert_eq!(roulette_select(&weights, 3), Some(1));
    assert_eq!(roulette_select(&weights, 4), Some(2));
    assert_eq!(roulette_select(&weights, 7), Some(2));
    assert_eq!(roulette_select(&weights, 100), Some(1));
    assert_eq!(roulette_select(&vec![0, 0], 0), None);
    assert_eq!(roulette_select(&Vec::new(), 0), None);
}

#[test]
fn roulette_is_deterministic() {
    let weights = vec![7, 0, 2, 9, 1];
    for draw in 0..25u128 {
        assert_eq!(roulette_select(&weights, draw), roulette_select(&weights, draw));
    }
    assert_eq!(roulette_select(&weights, 9), Some(2));
    assert_eq!(roulette_select(&weights, 10), Some(3));
}

#[test]
fn edge_weight_formula() {
    // pheromone 1.0, distance 5.0, alpha 1, beta 2: 1/25 = 0.04.
    assert_eq!(compute_edge_weight(1_000_000, 5_000_000, 1, 2), 40_000_000_000);
    // pheromone 2.0, distance 1.0, alpha 2, beta 0: 4.
    assert_eq!(compute_edge_weight(2_000_000, 1_000_000, 2, 0), 4_000_000_000_000);
    // zero distance counts as closeness one.
    assert_eq!(compute_edge_weight(1_000_000, 0, 1, 3), 1_000_000_000_000);
    // exponents above the bound are clamped.
    assert_eq!(
        compute_edge_weight(1_000_000, 1_000_000, 30, 30),
        compute_edge_weight(1_000_000, 1_000_000, 10, 10)
    );
    assert_eq!(weight_pow(u64::MAX, 3), u64::MAX);
}

#[test]
fn grid_deposit_spreads_half_to_neighbours() {
    let mut grid = PheromoneGrid::new(4, 3, 10_000_000);
    grid.deposit_at(15_000_000, 15_000_000, 2_000_000);
    assert_eq!(grid.get_at(15_000_000, 15_000_000), 2_000_000);
    assert_eq!(grid.get_at(5_000_000, 15_000_000), 1_000_000);
    assert_eq!(grid.get_at(25_000_000, 15_000_000), 1_000_000);
    assert_eq!(grid.get_at(15_000_000, 5_000_000), 1_000_000);
    assert_eq!(grid.get_at(15_000_000, 25_000_000), 1_000_000);
    assert_eq!(grid.get_at(5_000_000, 5_000_000), 0);
    assert_eq!(grid.get_at(100_000_000, 5_000_000), 0);
}

#[test]
fn grid_corner_and_outside_deposits() {
    let mut grid = PheromoneGrid::new(2, 2, 10_000_000);
    grid.deposit_at(-5, -5, 4_000_000);
    assert_eq!(grid.get_at(0, 0), 0);
    assert_eq!(grid.get_at(-5, -5), 0);
    grid.deposit_at(5, 5, 4_000_000);
    assert_eq!(grid.get_at(0, 0), 4_000_000);
    assert_eq!(grid.get_at(10_000_000, 0), 2_000_000);
    assert_eq!(grid.get_at(0, 10_000_000), 2_000_000);
    assert_eq!(grid.get_at(10_000_000, 10_000_000), 0);
    grid.deposit_at(50_000_000, 0, 4_000_000);
    assert_eq!(grid.get_at(10_000_000, 0), 2_000_000);
}

#[test]
fn grid_levels_stay_bounded_and_decay_slowly() {
    let mut grid = PheromoneGrid::new(1, 1, 10_000_000);
    for _ in 0..3 {
        grid.deposit_at(0, 0, 600_000_000);
    }
    assert_eq!(grid.get_at(0, 0), 1_000_000_000);
    grid.evaporate(200_000);
    assert_eq!(grid.get_at(0, 0), 900_000_000);
    let mut small = PheromoneGrid::new(1, 1, 10_000_000);
    small.deposit_at(0, 0, 10_500);
    small.evaporate(200_000);
    assert_eq!(small.get_at(0, 0), 0);
}
