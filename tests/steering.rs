use ant_colony::forage::FoodSource;
use ant_colony::grid::PheromoneGrid;
use ant_colony::simulation::EducationalACO;
use ant_colony::steering::{choose_steering, keep_in_bounds, Steering};

fn grid() -> PheromoneGrid {
    PheromoneGrid::new(80, 60, 10_000_000)
}

#[test]
fn heading_is_kept_between_redecisions() {
    let g = grid();
    assert_eq!(choose_steering(&g, &[], 400_000_000, 300_000_000, 0), (Steering::Keep, 1));
    assert_eq!(choose_steering(&g, &[], 400_000_000, 300_000_000, 19), (Steering::Keep, 20));
    // 20 + 20 % 40 = 40 steps at timer 20.
    assert_eq!(choose_steering(&g, &[], 400_000_000, 300_000_000, 20), (Steering::Keep, 21));
    assert_eq!(choose_steering(&g, &[], 400_000_000, 300_000_000, 40), (Steering::Wander, 0));
}

#[test]
fn nearest_sensed_food_wins() {
    let mut g = grid();
    g.deposit_at(420_000_000, 300_000_000, 5_000_000);
    let sources = vec![
        FoodSource::new(480_000_000, 300_000_000, 5_000_000),
        FoodSource::new(450_000_000, 300_000_000, 5_000_000),
        FoodSource::new(410_000_000, 300_000_000, 0),
        FoodSource::new(900_000_000, 300_000_000, 5_000_000),
    ];
    assert_eq!(choose_steering(&g, &sources, 400_000_000, 300_000_000, 40), (Steering::TowardFood(1), 0));
    let far = vec![FoodSource::new(900_000_000, 300_000_000, 5_000_000)];
    assert_eq!(choose_steering(&g, &far, 400_000_000, 300_000_000, 40), (Steering::TowardSample(0), 0));
}

#[test]
fn weak_trails_are_not_followed() {
    let mut g = grid();
    g.deposit_at(400_000_000, 320_000_000, 100_000);
    assert_eq!(choose_steering(&g, &[], 400_000_000, 300_000_000, 40), (Steering::Wander, 0));
    g.deposit_at(400_000_000, 320_000_000, 100_000);
    assert_eq!(choose_steering(&g, &[], 400_000_000, 300_000_000, 40), (Steering::TowardSample(2), 0));
}

#[test]
fn positions_are_kept_in_the_field() {
    assert_eq!(keep_in_bounds(5_000_000, 300_000_000), (20_000_000, 300_000_000, true, false));
    assert_eq!(keep_in_bounds(790_000_000, 590_000_000), (780_000_000, 580_000_000, true, true));
    assert_eq!(keep_in_bounds(400_000_000, -1), (400_000_000, 20_000_000, false, true));
    assert_eq!(keep_in_bounds(400_000_000, 300_000_000), (400_000_000, 300_000_000, false, false));
}

#[test]
fn walking_moves_the_ant_and_lays_a_trail() {
    let mut sim = EducationalACO::new();
    sim.add_food_source(600_000_000, 300_000_000, 10_000_000);
    sim.walk_ant(0, 402_000_000, 301_000_000);
    assert_eq!((sim.ants()[0].x, sim.ants()[0].y), (402_000_000, 301_000_000));
    assert_eq!(sim.grid().get_at(402_000_000, 301_000_000), 500_000);
    sim.walk_ant(1, 900_000_000, 300_000_000);
    assert_eq!(sim.ants()[1].x, 780_000_000);
    sim.walk_ant(99, 0, 0);
    assert_eq!(sim.ants().len(), 15);
}
