use smart_rockets::config::Config;
use smart_rockets::dna::DNA;

fn small_config() -> Config {
    Config {
        lifespan: 10,
        pop_size: 4,
        mutation_rate: 10,
        force_mag: 300,
        max_velocity: 60_000,
        start: (400_000, 500_000),
        target: (400_000, 100_000),
        target_radius: 20_000,
        screen_w: 800_000,
        screen_h: 600_000,
    }
}

#[test]
fn new_genome_is_all_zero_with_full_length() {
    let d = DNA::new(10);
    assert_eq!(d.genes.len(), 10);
    for g in &d.genes {
        assert_eq!(*g, (0, 0));
    }
}

#[test]
fn crossover_at_takes_prefix_from_first_parent() {
    let a = DNA { genes: (0..10).map(|i| (i as i64, 2 * i as i64)).collect() };
    let b = DNA { genes: (0..10).map(|i| (100 + i as i64, 200 + i as i64)).collect() };
    let child = a.crossover_at(&b, 3);
    assert_eq!(child.genes.len(), 10);
    for i in 0..10 {
        if i < 3 {
            assert_eq!(child.genes[i], a.genes[i]);
        } else {
            assert_eq!(child.genes[i], b.genes[i]);
        }
    }
}

#[test]
fn crossover_keeps_length_and_mixes_parents() {
    let a = DNA { genes: vec![(1, 1); 10] };
    let b = DNA { genes: vec![(2, 2); 10] };
    let child = a.crossover(&b);
    assert_eq!(child.genes.len(), 10);
    // The split index is always below the length, so the last gene
    // comes from the second parent.
    assert_eq!(child.genes[9], (2, 2));
    // Once a gene comes from the second parent, all later ones do too.
    let mut seen_b = false;
    for g in &child.genes {
        if seen_b {
            assert_eq!(*g, (2, 2));
        }
        if *g == (2, 2) {
            seen_b = true;
        } else {
            assert_eq!(*g, (1, 1));
        }
    }
    assert!(seen_b);
}

#[test]
fn mutate_rate_zero_changes_nothing() {
    let cfg = small_config();
    let mut d = DNA { genes: (0..10).map(|i| (i as i64, -(i as i64))).collect() };
    let before = d.genes.clone();
    d.mutate(0, cfg.force_mag);
    assert_eq!(d.genes, before);
}

#[test]
fn mutate_rate_one_gives_full_magnitude_everywhere() {
    let cfg = small_config();
    let f = cfg.force_mag;
    let mut d = DNA::new(10);
    d.mutate(1000, f);
    assert_eq!(d.genes.len(), 10);
    for g in &d.genes {
        let mag = g.0 * g.0 + g.1 * g.1;
        assert!(mag <= f * f, "magnitude above the force bound: {}", mag);
        assert!(mag >= f * f - 4 * f, "magnitude below the rounding band: {}", mag);
        assert!(mag >= 1, "a mutated gene is never the zero vector");
    }
}
