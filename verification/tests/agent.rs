use smart_rockets::arith::snap_coord;
use smart_rockets::config::{Config, DIST_INIT};
use smart_rockets::dna::DNA;
use smart_rockets::obstacles::ObstacleField;
use smart_rockets::rocket::Rocket;

fn small_config() -> Config {
    Config {
        lifespan: 10,
        pop_size: 4,
        mutation_rate: 10,
        force_mag: 300,
        max_velocity: 60_000,
        start: (400_000, 500_000),
        target: (400_000, 100_000),
        target_radius: 20_000,
        screen_w: 800_000,
        screen_h: 600_000,
    }
}

#[test]
fn snap_truncates_toward_zero_then_floors_to_cell() {
    // 7999 model units are 7 world units, in cell 5.
    assert_eq!(snap_coord(7_999), 5);
    // -7.9 world units truncate to -7, whose cell is -5.
    assert_eq!(snap_coord(-7_900_000), -7_900_000 / 1000 / 5 * 5);
    assert_eq!(snap_coord(-7_900), -5);
    assert_eq!(snap_coord(0), 0);
    assert_eq!(snap_coord(400_000), 400);
}

#[test]
fn obstacle_field_contains_inserted_cell_once() {
    let mut field = ObstacleField::new();
    assert!(!field.contains(400, 500));
    field.insert(400_000, 500_000);
    assert!(field.contains(400, 500));
    // Inserting again or nearby positions in the same cell changes nothing.
    field.insert(400_100, 500_900);
    assert!(field.contains(400, 500));
    assert!(!field.contains(405, 500));
}

#[test]
fn zero_genome_agent_falls_straight_down() {
    let cfg = small_config();
    let field = ObstacleField::new();
    let mut r = Rocket::new(DNA::new(cfg.lifespan), cfg);
    for _ in 0..cfg.lifespan {
        r.update(&field);
    }
    assert!(!r.crashed);
    assert!(!r.hit_target);
    // Gravity is 100 model units per tick; after 10 ticks the agent
    // has fallen the tenth triangle number times that: 5500.
    assert_eq!(r.position, (400_000, 500_000 - 5_500));
    assert_eq!(r.velocity, (0, -1_000));
    assert_eq!(r.step, 10);
}

#[test]
fn out_of_bounds_agent_crashes_and_freezes() {
    let cfg = small_config();
    let field = ObstacleField::new();
    let mut r = Rocket::new(DNA::new(cfg.lifespan), cfg);
    r.position = (-1_000, 300_000);
    r.update(&field);
    assert!(r.crashed);
    assert!(!r.hit_target);
    // Position and velocity did not integrate on the crashing tick.
    assert_eq!(r.position, (-1_000, 300_000));
    assert_eq!(r.velocity, (0, 0));
    let frozen = (r.position, r.velocity, r.step, r.min_distance);
    r.update(&field);
    assert!(r.crashed);
    assert_eq!((r.position, r.velocity, r.step, r.min_distance), frozen);
}

#[test]
fn agent_on_occupied_cell_crashes_that_tick() {
    let cfg = small_config();
    let mut field = ObstacleField::new();
    field.insert(cfg.start.0, cfg.start.1);
    let mut r = Rocket::new(DNA::new(cfg.lifespan), cfg);
    r.update(&field);
    assert!(r.crashed);
    assert!(!r.hit_target);
}

#[test]
fn agent_inside_target_radius_snaps_onto_target() {
    let cfg = small_config();
    let field = ObstacleField::new();
    let mut r = Rocket::new(DNA::new(cfg.lifespan), cfg);
    r.position = (cfg.target.0 + 10_000, cfg.target.1);
    r.update(&field);
    assert!(r.hit_target);
    assert!(!r.crashed);
    assert_eq!(r.position, cfg.target);
}

#[test]
fn fitness_of_goal_hit_rewards_early_arrival() {
    let cfg = small_config();
    let mut r = Rocket::new(DNA::new(cfg.lifespan), cfg);
    r.hit_target = true;
    r.step = 9;
    assert_eq!(r.calculate_fitness(), 1_000_000_000_000 / 10);
    r.step = 4;
    assert_eq!(r.calculate_fitness(), 1_000_000_000_000 / 5);
}

#[test]
fn fitness_of_crash_is_half_of_the_distance_score() {
    let cfg = small_config();
    let mut close = Rocket::new(DNA::new(cfg.lifespan), cfg);
    close.min_distance = 0;
    close.step = 10;
    let whole = close.calculate_fitness();
    // base 10^15 / 10^6, then the time factor 10 / (10 + 10).
    assert_eq!(whole, 500_000_000);
    let mut crashed = Rocket::new(DNA::new(cfg.lifespan), cfg);
    crashed.min_distance = 0;
    crashed.step = 10;
    crashed.crashed = true;
    assert_eq!(crashed.calculate_fitness(), whole / 2);
}

#[test]
fn fitness_of_a_never_updated_agent_is_zero() {
    let cfg = small_config();
    let mut r = Rocket::new(DNA::new(cfg.lifespan), cfg);
    r.step = 10;
    assert_eq!(r.min_distance, DIST_INIT);
    assert_eq!(r.calculate_fitness(), 0);
}
