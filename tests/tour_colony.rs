use ant_colony::colony::{ACOParameters, Colony};
use ant_colony::engine::ACOEngine;
use ant_colony::geometry::{calculate_distance, calculate_total_distance, isqrt, City, Location};
use ant_colony::tour::Ant;

fn line_cities() -> Vec<City> {
    vec![
        City::new(0, 0, 0),
        City::new(1, 3_000_000, 4_000_000),
        City::new(2, 6_000_000, 8_000_000),
    ]
}

#[test]
fn test_ant_creation() {
    let ant = Ant::new(0, 5);
    assert_eq!(ant.current_city(), 0);
    assert_eq!(ant.route().len(), 1);
    assert_eq!(ant.route()[0], 0);
    assert_eq!(ant.total_distance(), 0);
    assert!(ant.is_visited(0));
    assert!(!ant.is_visited(1));
}

#[test]
fn test_ant_move_to_city() {
    let mut ant = Ant::new(0, 3);
    let cities = line_cities();
    ant.move_to_city(1, &cities);
    assert_eq!(ant.current_city(), 1);
    assert_eq!(ant.route().len(), 2);
    assert_eq!(ant.total_distance(), 5_000_000);
    assert!(ant.is_visited(1));
}

#[test]
fn test_ant_complete_tour() {
    let mut ant = Ant::new(0, 3);
    let cities = line_cities();
    ant.move_to_city(1, &cities);
    ant.move_to_city(2, &cities);
    ant.complete_tour(&cities);
    assert!(ant.is_tour_complete());
    assert_eq!(ant.route().len(), 4);
    assert_eq!(ant.route()[0], ant.route()[3]);
}

#[test]
fn closed_tour_stays_closed() {
    let mut ant = Ant::new(0, 3);
    let cities = line_cities();
    ant.complete_tour(&cities);
    assert!(ant.is_tour_complete());
    let length = ant.total_distance();
    ant.complete_tour(&cities);
    ant.move_to_city(2, &cities);
    assert_eq!(ant.route().len(), 2);
    assert_eq!(ant.total_distance(), length);
}

#[test]
fn moving_to_visited_city_changes_nothing() {
    let mut ant = Ant::new(0, 3);
    let cities = line_cities();
    ant.move_to_city(1, &cities);
    ant.move_to_city(0, &cities);
    ant.move_to_city(1, &cities);
    assert_eq!(ant.route(), &vec![0, 1]);
    assert_eq!(ant.total_distance(), 5_000_000);
}

#[test]
fn scenario_right_triangle_edge() {
    let cities = vec![
        City::new(0, 0, 0),
        City::new(1, 3_000_000, 4_000_000),
        City::new(2, 3_000_000, 0),
    ];
    let mut ant = Ant::new(0, 3);
    ant.move_to_city(1, &cities);
    assert_eq!(ant.total_distance(), 5_000_000);
    assert_eq!(calculate_distance(&cities[0], &cities[1]), 5_000_000);
}

#[test]
fn selected_city_is_unvisited() {
    let cities = line_cities();
    let matrix = ant_colony::pheromone::PheromoneMatrix::new(3, 1_000_000);
    let mut ant = Ant::new(0, 3);
    let first = ant.select_next_city(&cities, &matrix, 1, 2).unwrap();
    assert!(first == 1 || first == 2);
    ant.move_to_city(first, &cities);
    let second = ant.select_next_city(&cities, &matrix, 1, 2).unwrap();
    assert!(second != first && second != 0);
    ant.move_to_city(second, &cities);
    assert_eq!(ant.select_next_city(&cities, &matrix, 1, 2), None);
}

#[test]
fn chosen_city_follows_the_draw() {
    let cities = line_cities();
    let matrix = ant_colony::pheromone::PheromoneMatrix::new(3, 1_000_000);
    let ant = Ant::new(0, 3);
    let (cands, weights) = ant.candidate_weights(&cities, &matrix, 1, 2);
    assert_eq!(cands, vec![1, 2]);
    // 1/5^2 = 0.04 and 1/10^2 = 0.01, as weights of one in 10^12.
    assert_eq!(weights, vec![40_000_000_000, 10_000_000_000]);
    assert_eq!(ant.choose_next_city(&cities, &matrix, 1, 2, 0), Some(1));
    assert_eq!(ant.choose_next_city(&cities, &matrix, 1, 2, 40_000_000_000), Some(1));
    assert_eq!(ant.choose_next_city(&cities, &matrix, 1, 2, 40_000_000_001), Some(2));
}

#[test]
fn test_aco_parameters_default() {
    let params = ACOParameters::default();
    assert_eq!(params.num_ants, 50);
    assert_eq!(params.max_generations, 100);
    assert_eq!(params.evaporation_rate, 100_000);
    assert_eq!(params.alpha, 1);
    assert_eq!(params.beta, 2);
    assert_eq!(params.initial_pheromone, 1_000_000);
}

#[test]
fn test_colony_creation() {
    let cities = vec![
        City::new(0, 0, 0),
        City::new(1, 1_000_000, 1_000_000),
        City::new(2, 2_000_000, 2_000_000),
    ];
    let params = ACOParameters::default();
    let colony = Colony::new(cities, params);
    assert_eq!(colony.cities().len(), 3);
    assert_eq!(colony.generation(), 0);
    assert_eq!(colony.best_distance(), None);
    assert!(colony.best_route().is_none());
}

#[test]
fn test_colony_run_iteration() {
    let mut params = ACOParameters::default();
    params.num_ants = 5;
    params.max_generations = 2;
    let mut colony = Colony::new(line_cities(), params);

    assert!(colony.run_iteration());
    assert_eq!(colony.generation(), 1);
    assert!(colony.best_distance().is_some());
    assert!(colony.best_route().is_some());

    assert!(colony.run_iteration());
    assert_eq!(colony.generation(), 2);

    assert!(!colony.run_iteration());
    assert!(colony.is_complete());
}

#[test]
fn scenario_zero_generations_is_terminal() {
    let mut params = ACOParameters::default();
    params.max_generations = 0;
    let mut colony = Colony::new(line_cities(), params);
    assert!(colony.is_complete());
    assert_eq!(colony.best_distance(), None);
    assert!(colony.best_route().is_none());
    assert!(!colony.run_iteration());
    assert_eq!(colony.generation(), 0);
}

#[test]
fn best_length_never_increases() {
    let cities = vec![
        City::new(0, 0, 0),
        City::new(1, 10_000_000, 0),
        City::new(2, 10_000_000, 10_000_000),
        City::new(3, 0, 10_000_000),
        City::new(4, 5_000_000, 15_000_000),
    ];
    let mut params = ACOParameters::default();
    params.num_ants = 4;
    params.max_generations = 12;
    let mut colony = Colony::new(cities, params);
    let mut last = u64::MAX;
    while colony.run_iteration() {
        let best = colony.best_distance().unwrap();
        assert!(best <= last);
        last = best;
        let route = colony.best_route().unwrap();
        assert_eq!(route.len(), 6);
        assert_eq!(route[0], route[5]);
    }
    assert_eq!(colony.generation(), 12);
}

#[test]
fn colony_without_cities_declines() {
    let mut colony = Colony::new(Vec::new(), ACOParameters::default());
    assert!(!colony.run_iteration());
    assert_eq!(colony.generation(), 0);
}

#[test]
fn test_city_creation() {
    let city = City::new(0, 100_000_000, 200_000_000);
    assert_eq!(city.id(), 0);
    assert_eq!(city.x(), 100_000_000);
    assert_eq!(city.y(), 200_000_000);
}

#[test]
fn test_city_distance() {
    let city1 = City::new(0, 0, 0);
    let city2 = City::new(1, 3_000_000, 4_000_000);
    let distance = city1.distance_to(&city2);
    assert_eq!(distance, 5_000_000);
}

#[test]
fn test_city_equality() {
    let city1 = City::new(0, 100_000_000, 200_000_000);
    let city2 = City::new(0, 100_000_000, 200_000_000);
    let city3 = City::new(1, 100_000_000, 200_000_000);
    assert_eq!(city1, city2);
    assert_ne!(city1, city3);
}

#[test]
fn integer_square_root_rounds_down() {
    assert_eq!(isqrt(0), 0);
    assert_eq!(isqrt(1), 1);
    assert_eq!(isqrt(24), 4);
    assert_eq!(isqrt(25), 5);
    assert_eq!(isqrt(26), 5);
    assert_eq!(isqrt(u128::MAX), u64::MAX);
}

#[test]
fn location_distance_rounds_down() {
    let a = Location::new(0, 0);
    let b = Location::new(1, 1);
    assert_eq!(a.distance_to(&b), 1);
    let c = Location::new(-3_000_000, -4_000_000);
    assert_eq!(a.distance_to(&c), 5_000_000);
}

#[test]
fn closed_tour_length_of_triangle() {
    let cities = vec![
        City::new(0, 0, 0),
        City::new(1, 3_000_000, 0),
        City::new(2, 3_000_000, 4_000_000),
    ];
    assert_eq!(calculate_total_distance(&cities), 12_000_000);
    assert_eq!(calculate_total_distance(&cities[..1]), 0);
}

#[test]
fn engine_builds_colony_from_three_cities() {
    let mut engine = ACOEngine::new();
    assert_eq!(engine.add_city(0, 0), Some(0));
    assert_eq!(engine.add_city(3_000_000, 4_000_000), Some(1));
    assert!(!engine.initialize_colony(5, 3, 100_000, 1, 2));
    assert_eq!(engine.add_city(6_000_000, 0), Some(2));
    assert_eq!(engine.get_city_count(), 3);
    assert!(engine.initialize_colony(5, 3, 100_000, 1, 2));
    assert!(!engine.run_iteration());
    engine.start();
    assert!(engine.run_iteration());
    assert_eq!(engine.get_generation(), 1);
    assert!(engine.get_best_distance().is_some());
    assert_eq!(engine.get_best_route().len(), 4);
    assert!(!engine.is_complete());
    engine.clear_cities();
    assert_eq!(engine.get_city_count(), 0);
    assert_eq!(engine.get_best_distance(), None);
    assert!(engine.get_best_route().is_empty());
}

#[test]
fn far_cities_still_get_visited() {
    let cities = vec![City::new(0, 0, 0), City::new(1, 400_000_000, 0), City::new(2, 0, 400_000_000)];
    let matrix = ant_colony::pheromone::PheromoneMatrix::new(3, 1_000_000);
    let ant = Ant::new(0, 3);
    assert!(ant.select_next_city(&cities, &matrix, 1, 5).is_some());
    let mut params = ACOParameters::default();
    params.num_ants = 3;
    params.beta = 5;
    params.max_generations = 1;
    let mut colony = Colony::new(cities, params);
    assert!(colony.run_iteration());
    let route = colony.best_route().unwrap();
    assert_eq!(route.len(), 4);
    let mut seen = route[..3].to_vec();
    seen.sort();
    assert_eq!(seen, vec![0, 1, 2]);
}
