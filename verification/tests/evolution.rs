use smart_rockets::config::{Config, DIST_INIT};
use smart_rockets::dna::DNA;
use smart_rockets::obstacles::ObstacleField;
use smart_rockets::population::Population;
use smart_rockets::rocket::Rocket;

fn small_config() -> Config {
    Config {
        lifespan: 10,
        pop_size: 4,
        mutation_rate: 10,
        force_mag: 300,
        max_velocity: 60_000,
        start: (400_000, 500_000),
        target: (400_000, 100_000),
        target_radius: 20_000,
        screen_w: 800_000,
        screen_h: 600_000,
    }
}

#[test]
fn invalid_configuration_is_rejected() {
    let mut cfg = small_config();
    cfg.pop_size = 0;
    assert!(Population::new(cfg).is_none());
    let mut cfg2 = small_config();
    cfg2.lifespan = 0;
    assert!(Population::new(cfg2).is_none());
    assert!(Population::new(small_config()).is_some());
}

#[test]
fn new_population_is_fresh_and_counted() {
    let cfg = small_config();
    let p = Population::new(cfg).unwrap();
    assert_eq!(p.generation, 1);
    assert_eq!(p.rockets.len(), 4);
    assert_eq!(p.calculate_success(), 0);
    for r in &p.rockets {
        assert_eq!(r.position, cfg.start);
        assert_eq!(r.velocity, (0, 0));
        assert_eq!(r.dna.genes.len(), 10);
        assert!(!r.hit_target && !r.crashed);
    }
}

#[test]
fn end_to_end_generation_cycle() {
    let cfg = small_config();
    let field = ObstacleField::new();
    let mut p = Population::new(cfg).unwrap();
    let mut ticks = 0;
    while !p.all_done() {
        p.update(&field);
        ticks += 1;
        assert!(ticks <= 10, "a generation must end within lifespan ticks");
    }
    p.evaluate();
    p.evolve();
    assert_eq!(p.rockets.len(), 4);
    assert_eq!(p.generation, 2);
    for r in &p.rockets {
        assert_eq!(r.dna.genes.len(), 10);
        assert!(!r.hit_target && !r.crashed);
        assert_eq!(r.position, cfg.start);
    }
}

#[test]
fn evaluate_builds_a_weighted_pool() {
    let cfg = small_config();
    let field = ObstacleField::new();
    let mut p = Population::new(cfg).unwrap();
    while !p.all_done() {
        p.update(&field);
    }
    p.evaluate();
    // All four zero-genome agents fall identically, score identically,
    // and so each gets the full weight of one hundred pool slots.
    assert_eq!(p.mating_pool.len(), 400);
    for idx in &p.mating_pool {
        assert!(*idx < 4);
    }
}

#[test]
fn select_parent_is_valid_even_when_every_fitness_is_zero() {
    let cfg = small_config();
    let far = DIST_INIT;
    let rockets: Vec<Rocket> = (0..4)
        .map(|_| {
            let mut r = Rocket::new(DNA::new(cfg.lifespan), cfg);
            r.min_distance = far;
            r.step = 10;
            r
        })
        .collect();
    let mut p = Population { rockets, generation: 1, mating_pool: Vec::new(), cfg };
    p.evaluate();
    for r in &p.rockets {
        assert_eq!(r.fitness, 0);
    }
    assert!(p.mating_pool.is_empty());
    for _ in 0..20 {
        let idx = p.select_parent();
        assert!(idx < 4);
    }
    p.evolve();
    assert_eq!(p.rockets.len(), 4);
    assert_eq!(p.generation, 2);
}

#[test]
fn evolve_with_zero_mutation_yields_pure_crossovers() {
    let mut cfg = small_config();
    cfg.mutation_rate = 0;
    cfg.pop_size = 2;
    let mut a = Rocket::new(DNA { genes: vec![(1, 1); 10] }, cfg);
    let mut b = Rocket::new(DNA { genes: vec![(2, 2); 10] }, cfg);
    a.step = 10;
    b.step = 10;
    let mut p = Population { rockets: vec![a, b], generation: 1, mating_pool: Vec::new(), cfg };
    p.evaluate();
    p.evolve();
    assert_eq!(p.rockets.len(), 2);
    for r in &p.rockets {
        assert_eq!(r.dna.genes.len(), 10);
        // With mutation off, every child is an unmutated single-point
        // crossover of the two genomes: a run of one parent's genes,
        // then a run of the other's, with at most one switch.
        let mut switches = 0;
        for j in 0..10 {
            let g = r.dna.genes[j];
            assert!(g == (1, 1) || g == (2, 2), "gene from neither parent: {:?}", g);
            if j > 0 && g != r.dna.genes[j - 1] {
                switches += 1;
            }
        }
        assert!(switches <= 1, "more than one crossover point");
    }
}

#[test]
fn goal_hit_excludes_crashing_on_an_occupied_target_cell() {
    let cfg = small_config();
    let mut field = ObstacleField::new();
    field.insert(cfg.target.0, cfg.target.1);
    let mut r = Rocket::new(DNA::new(cfg.lifespan), cfg);
    r.position = (cfg.target.0 + 10_000, cfg.target.1);
    r.update(&field);
    assert!(r.hit_target);
    assert!(!r.crashed, "the goal test wins over the obstacle test");
    assert_eq!(r.position, cfg.target);
}

#[test]
fn success_rate_counts_goal_hits() {
    let cfg = small_config();
    let mut p = Population::new(cfg).unwrap();
    p.rockets[1].hit_target = true;
    p.rockets[3].hit_target = true;
    assert_eq!(p.calculate_success(), 2);
}
