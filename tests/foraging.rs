use ant_colony::forage::{lerp, Ant, AntState, FoodSource, Nest};
use ant_colony::pheromone::PheromoneMatrix;
use ant_colony::simulation::{AcoParam, AntAction, EducationalACO};

fn conserved(sim: &EducationalACO) -> bool {
    let taken: u64 = sim.food_sources().iter().map(|f| f.max_food - f.food_amount).sum();
    let carried: u64 = sim.ants().iter().map(|a| a.carrying_food).sum();
    sim.total_food_collected() + carried == taken
}

#[test]
fn scenario_three_extractions() {
    let mut source = FoodSource::new(0, 0, 5_000_000);
    let mut carried = 0;
    for _ in 0..3 {
        carried += source.take_food(1_000_000);
    }
    assert_eq!(source.food_amount, 2_000_000);
    assert_eq!(carried, 3_000_000);
}

#[test]
fn scenario_three_extractions_by_one_ant() {
    let nest = Nest::new(0, 0);
    let mut sources = vec![FoodSource::new(50_000_000, 0, 5_000_000)];
    let mut ant = Ant::new(0, &nest);
    let mut delivered = 0;
    for _ in 0..3 {
        ant.current_target_food = Some(0);
        assert!(ant.collect_food(&mut sources));
        assert_eq!(ant.carrying_food, 1_000_000);
        delivered += ant.deliver_food();
    }
    assert_eq!(sources[0].food_amount, 2_000_000);
    assert_eq!(ant.total_food_collected, 3_000_000);
    assert_eq!(delivered, 3_000_000);
}

#[test]
fn take_food_never_overdraws() {
    let mut source = FoodSource::new(0, 0, 1_500_000);
    assert_eq!(source.take_food(1_000_000), 1_000_000);
    assert_eq!(source.take_food(1_000_000), 500_000);
    assert_eq!(source.take_food(1_000_000), 0);
    assert_eq!(source.food_amount, 0);
    assert!(source.is_depleted());
    assert_eq!(source.food_ratio(), 0);
}

#[test]
fn food_ratio_in_parts_per_million() {
    let mut source = FoodSource::new(0, 0, 4_000_000);
    assert_eq!(source.food_ratio(), 1_000_000);
    source.take_food(1_000_000);
    assert_eq!(source.food_ratio(), 750_000);
    assert_eq!(FoodSource::new(0, 0, 0).food_ratio(), 0);
}

#[test]
fn ant_walks_to_its_target() {
    let nest = Nest::new(0, 0);
    let sources = vec![FoodSource::new(100_000_000, 0, 5_000_000)];
    let mut ant = Ant::new(3, &nest);
    assert_eq!(ant.state, AntState::SearchingForFood);
    ant.start_move_to_food(0, &sources);
    assert!(ant.is_moving);
    assert_eq!(ant.current_target_food, Some(0));
    ant.update_movement(250_000);
    assert_eq!((ant.x, ant.y), (25_000_000, 0));
    ant.update_movement(250_000);
    assert_eq!((ant.x, ant.y), (50_000_000, 0));
    ant.update_movement(600_000);
    assert_eq!((ant.x, ant.y), (100_000_000, 0));
    assert!(!ant.is_moving);
    assert_eq!(ant.path.len(), 2);
    assert!(ant.is_at_food_source(&sources));
    assert!(!ant.is_at_nest());
    ant.start_return_to_nest();
    assert_eq!(ant.state, AntState::CarryingFood);
    assert_eq!((ant.target_x, ant.target_y), (0, 0));
    ant.reset();
    assert!(ant.is_at_nest());
    assert_eq!(ant.state, AntState::SearchingForFood);
}

#[test]
fn empty_source_is_not_a_target() {
    let nest = Nest::new(0, 0);
    let sources = vec![FoodSource::new(100_000_000, 0, 0)];
    let mut ant = Ant::new(0, &nest);
    ant.start_move_to_food(0, &sources);
    assert!(!ant.is_moving);
    let matrix = PheromoneMatrix::new(2, 1_000_000);
    assert_eq!(ant.select_food_source(&sources, &matrix, 1, 2), None);
    assert_eq!(ant.food_weights(&sources, &matrix, 1, 2), vec![0]);
}

#[test]
fn food_weight_prefers_richer_sources() {
    let nest = Nest::new(0, 0);
    let mut sources = vec![
        FoodSource::new(10_000_000, 0, 4_000_000),
        FoodSource::new(0, 10_000_000, 4_000_000),
    ];
    sources[1].take_food(2_000_000);
    let matrix = PheromoneMatrix::new(3, 1_000_000);
    let ant = Ant::new(0, &nest);
    // 1/10^2 = 0.01, times 1 + 2 * ratio: 3 for the full source, 2 for the half-full one.
    assert_eq!(ant.food_weights(&sources, &matrix, 1, 2), vec![30_000_000_000, 20_000_000_000]);
    assert_eq!(ant.choose_food_source(&sources, &matrix, 1, 2, 30_000_000_000), Some(0));
    assert_eq!(ant.choose_food_source(&sources, &matrix, 1, 2, 30_000_000_001), Some(1));
    let picked = ant.select_food_source(&sources, &matrix, 1, 2).unwrap();
    assert!(picked < 2);
}

#[test]
fn carrying_ant_picks_no_source() {
    let nest = Nest::new(0, 0);
    let sources = vec![FoodSource::new(10_000_000, 0, 4_000_000)];
    let matrix = PheromoneMatrix::new(2, 1_000_000);
    let mut ant = Ant::new(0, &nest);
    ant.start_return_to_nest();
    assert_eq!(ant.choose_food_source(&sources, &matrix, 1, 2, 0), None);
}

#[test]
fn interpolation_stays_between_ends() {
    assert_eq!(lerp(-10, 10, 500_000), 0);
    assert_eq!(lerp(10, -10, 0), 10);
    assert_eq!(lerp(10, -10, 1_000_000), -10);
    assert_eq!(lerp(0, 3, 500_000), 1);
}

#[test]
fn source_too_close_to_nest_is_refused() {
    let mut sim = EducationalACO::new();
    assert!(!sim.add_food_source(410_000_000, 300_000_000, 60_000_000));
    assert_eq!(sim.food_sources().len(), 0);
    assert!(sim.add_food_source(500_000_000, 300_000_000, 60_000_000));
    assert_eq!(sim.food_sources().len(), 1);
    assert_eq!(sim.ants().len(), 15);
    assert_eq!(sim.pheromones().size(), 2);
}

#[test]
fn random_stock_lies_in_range() {
    let mut sim = EducationalACO::new();
    for k in 0..10 {
        assert!(sim.add_city(500_000_000 + k * 40_000_000, 100_000_000));
    }
    for source in sim.food_sources() {
        assert!(source.food_amount >= 50_000_000 && source.food_amount < 100_000_000);
        assert_eq!(source.food_amount, source.max_food);
    }
}

#[test]
fn sources_beyond_the_limit_are_dropped() {
    let mut sim = EducationalACO::new();
    for k in 0..25 {
        sim.add_food_source(1_000_000_000 + k * 40_000_000, 0, 10_000_000);
    }
    assert_eq!(sim.food_sources().len(), 20);
    assert_eq!(sim.pheromones().size(), 21);
}

#[test]
fn remove_takes_sources_near_the_point() {
    let mut sim = EducationalACO::new();
    sim.add_food_source(100_000_000, 100_000_000, 10_000_000);
    sim.add_food_source(110_000_000, 100_000_000, 20_000_000);
    sim.add_food_source(700_000_000, 500_000_000, 30_000_000);
    assert!(!sim.remove_city(300_000_000, 100_000_000));
    assert_eq!(sim.food_sources().len(), 3);
    assert!(sim.remove_city(105_000_000, 100_000_000));
    assert_eq!(sim.food_sources().len(), 1);
    assert_eq!(sim.food_sources()[0].max_food, 30_000_000);
    assert_eq!(sim.pheromones().size(), 2);
}

#[test]
fn start_needs_a_source() {
    let mut sim = EducationalACO::new();
    sim.start();
    assert!(!sim.is_running());
    sim.add_food_source(500_000_000, 300_000_000, 10_000_000);
    sim.start();
    assert!(sim.is_running());
    sim.pause();
    assert!(!sim.is_running());
    let stats = sim.get_stats();
    assert_eq!(stats.cities_count, 1);
    assert_eq!(stats.ants_count, 15);
    assert!(!stats.is_running);
}

#[test]
fn paused_simulation_does_not_move() {
    let mut sim = EducationalACO::new();
    sim.add_food_source(500_000_000, 300_000_000, 10_000_000);
    sim.step();
    assert!(sim.ants().iter().all(|a| !a.is_moving));
}

#[test]
fn foraging_conserves_food() {
    let mut sim = EducationalACO::new();
    sim.add_food_source(440_000_000, 300_000_000, 3_000_000);
    sim.add_food_source(400_000_000, 350_000_000, 4_000_000);
    sim.set_animation_speed(5_000_000);
    sim.start();
    for _ in 0..400 {
        sim.step();
        assert!(conserved(&sim));
        for source in sim.food_sources() {
            assert!(source.food_amount <= source.max_food);
        }
    }
    assert!(sim.total_food_collected() > 0);
    sim.reset();
    assert_eq!(sim.total_food_collected(), 0);
    assert!(sim.food_sources().iter().all(|f| f.food_amount == f.max_food));
    assert!(!sim.is_running());
}

#[test]
fn two_ants_at_one_source_never_overdraw() {
    let mut sim = EducationalACO::new();
    sim.add_food_source(440_000_000, 300_000_000, 1_500_000);
    sim.set_aco_param(AcoParam::NumAnts, 5);
    sim.start();
    for _ in 0..200 {
        sim.step();
        assert!(conserved(&sim));
    }
    assert!(sim.food_sources()[0].food_amount <= 1_500_000);
    let mut extra = EducationalACO::new();
    extra.add_food_source(440_000_000, 300_000_000, 1_500_000);
    extra.apply_actions(&vec![AntAction::Collect(0); 15]);
    assert_eq!(extra.food_sources()[0].food_amount, 0);
    let carried: u64 = extra.ants().iter().map(|a| a.carrying_food).sum();
    assert_eq!(carried, 1_500_000);
    assert_eq!(extra.ants().iter().filter(|a| a.state == AntState::CarryingFood).count(), 2);
    assert!(conserved(&extra));
}

#[test]
fn parameters_are_clamped() {
    let mut sim = EducationalACO::new();
    sim.set_aco_param(AcoParam::Alpha, 0);
    assert_eq!(sim.alpha(), 1);
    sim.set_aco_param(AcoParam::Beta, 9);
    assert_eq!(sim.beta(), 5);
    sim.set_aco_param(AcoParam::Evaporation, 900_000);
    assert_eq!(sim.evaporation_rate(), 500_000);
    sim.set_aco_param(AcoParam::Evaporation, 1);
    assert_eq!(sim.evaporation_rate(), 10_000);
    sim.set_aco_param(AcoParam::NumAnts, 100);
    assert_eq!(sim.num_ants(), 50);
    sim.set_animation_speed(0);
    assert_eq!(sim.animation_speed(), 100_000);
    sim.set_show_ant_trails(false);
    sim.set_show_pheromone_levels(false);
    assert!(!sim.show_trails() && !sim.show_pheromones());
}

#[test]
fn parameter_names() {
    assert_eq!(AcoParam::from_name("alpha"), Some(AcoParam::Alpha));
    assert_eq!(AcoParam::from_name("beta"), Some(AcoParam::Beta));
    assert_eq!(AcoParam::from_name("evaporation"), Some(AcoParam::Evaporation));
    assert_eq!(AcoParam::from_name("num_ants"), Some(AcoParam::NumAnts));
    assert_eq!(AcoParam::from_name("gamma"), None);
    assert_eq!(AcoParam::from_name(""), None);
}

#[test]
fn clearing_empties_everything() {
    let mut sim = EducationalACO::new();
    sim.add_food_source(500_000_000, 300_000_000, 10_000_000);
    sim.start();
    sim.clear_cities();
    assert_eq!(sim.food_sources().len(), 0);
    assert_eq!(sim.ants().len(), 0);
    assert!(!sim.is_running());
    assert_eq!(sim.pheromones().size(), 1);
}

#[test]
fn moving_ants_lay_trails() {
    let mut sim = EducationalACO::new();
    sim.add_food_source(600_000_000, 300_000_000, 10_000_000);
    sim.start();
    for _ in 0..3 {
        sim.step();
    }
    let moving: Vec<&Ant> = sim.ants().iter().filter(|a| a.is_moving).collect();
    assert!(!moving.is_empty());
    for ant in moving {
        assert!(sim.grid().get_at(ant.x, ant.y) > 0);
    }
}

#[test]
fn delivery_adds_the_load() {
    let mut sim = EducationalACO::new();
    sim.add_food_source(440_000_000, 300_000_000, 5_000_000);
    sim.apply_action(0, AntAction::Collect(0));
    assert_eq!(sim.ants()[0].carrying_food, 1_000_000);
    assert_eq!(sim.ants()[0].state, AntState::CarryingFood);
    assert_eq!(sim.food_sources()[0].food_amount, 4_000_000);
    sim.apply_action(0, AntAction::Deliver);
    assert_eq!(sim.total_food_collected(), 1_000_000);
    assert_eq!(sim.ants()[0].carrying_food, 0);
    assert!(conserved(&sim));
}
