use pso_rastrigin::fitness::rastrigin;
use pso_rastrigin::model::SwarmConfig;
use pso_rastrigin::rng::draw_pairs;
use pso_rastrigin::swarm::{init_swarm, Particle, Swarm};
use rand::rngs::StdRng;
use rand::SeedableRng;

fn rng_from_seed(seed: u64) -> StdRng {
    StdRng::seed_from_u64(seed)
}

fn small_config() -> SwarmConfig {
    SwarmConfig {
        dim: 3,
        particle_count: 4,
        inertia: 900_000,
        cognitive: 1_300_000,
        social: 1_100_000,
        lower: -1_000_000,
        upper: 1_000_000,
        penalty: 10_000_000_000,
    }
}

#[test]
fn drawn_scalars_stay_in_range_and_vary() {
    let mut rng = rng_from_seed(11);
    let pairs = draw_pairs(&mut rng, 100);
    assert_eq!(pairs.len(), 100);
    let mut seen_distinct = false;
    for w in pairs.windows(2) {
        if w[0] != w[1] {
            seen_distinct = true;
        }
    }
    for (a, b) in &pairs {
        assert!((0..1_000_000).contains(a));
        assert!((0..1_000_000).contains(b));
    }
    assert!(seen_distinct);
}

#[test]
fn drawn_scalars_are_reproducible_for_a_seed() {
    let mut a = rng_from_seed(42);
    let mut b = rng_from_seed(42);
    assert_eq!(draw_pairs(&mut a, 50), draw_pairs(&mut b, 50));
}

#[test]
fn init_swarm_shape_and_seeding() {
    let cfg = small_config();
    let mut rng = rng_from_seed(7);
    let s = init_swarm(&cfg, &mut rng);
    assert_eq!(s.particles.len(), 4);
    for p in &s.particles {
        assert_eq!(p.position.len(), 3);
        assert_eq!(p.velocity.len(), 3);
        assert_eq!(p.best_position.len(), 3);
        assert_eq!(p.best_position, p.position);
        assert_eq!(p.best_fitness, rastrigin(&p.position));
        for d in 0..3 {
            assert!(cfg.lower <= p.position[d] && p.position[d] < cfg.upper);
            assert!(cfg.lower <= p.velocity[d] && p.velocity[d] < cfg.upper);
        }
    }
    assert_eq!(s.global_best_position, s.particles[0].best_position);
    assert_eq!(s.global_best_fitness, s.particles[0].best_fitness);
}

#[test]
fn positions_stay_in_bounds_after_updates() {
    // Extreme admissible weights, so particles are flung at the bounds.
    let cfg = SwarmConfig {
        dim: 2,
        particle_count: 6,
        inertia: 1_000_000,
        cognitive: 10_000_000,
        social: 10_000_000,
        lower: -1_000_000,
        upper: 1_000_000,
        penalty: 10_000_000_000,
    };
    let mut rng = rng_from_seed(3);
    let mut s = init_swarm(&cfg, &mut rng);
    s.run(&cfg, 20, &mut rng);
    for p in &s.particles {
        for d in 0..2 {
            assert!(cfg.lower <= p.position[d] && p.position[d] <= cfg.upper);
            assert!(cfg.lower <= p.best_position[d] && p.best_position[d] <= cfg.upper);
        }
    }
}

#[test]
fn penalty_added_when_clamped() {
    // One particle, pure inertia: velocity 1.0 pushes position 0.9 past the
    // upper bound, so it is clamped there, its velocity zeroed, and the
    // evaluated fitness is the Rastrigin value at the bound plus the penalty.
    let cfg = SwarmConfig {
        dim: 1,
        particle_count: 1,
        inertia: 1_000_000,
        cognitive: 0,
        social: 0,
        lower: -1_000_000,
        upper: 1_000_000,
        penalty: 5_000_000,
    };
    let p = Particle {
        position: vec![900_000],
        velocity: vec![1_000_000],
        best_position: vec![900_000],
        best_fitness: 1_000_000_000_000,
    };
    let mut s = Swarm {
        particles: vec![p],
        global_best_position: vec![900_000],
        global_best_fitness: 1_000_000_000_000,
    };
    s.update_particle(&cfg, 0, 0, 0);
    assert_eq!(s.particles[0].position, vec![1_000_000]);
    assert_eq!(s.particles[0].velocity, vec![0]);
    let expected = rastrigin(&vec![1_000_000]) + 5_000_000;
    assert_eq!(s.global_best_fitness, expected);
    assert_eq!(s.particles[0].best_fitness, expected);
    assert_eq!(s.particles[0].best_position, vec![1_000_000]);
}

#[test]
fn penalty_added_when_clamped_below() {
    let cfg = SwarmConfig {
        dim: 1,
        particle_count: 1,
        inertia: 1_000_000,
        cognitive: 0,
        social: 0,
        lower: -1_000_000,
        upper: 1_000_000,
        penalty: 5_000_000,
    };
    let p = Particle {
        position: vec![-900_000],
        velocity: vec![-1_000_000],
        best_position: vec![-900_000],
        best_fitness: 1_000_000_000_000,
    };
    let mut s = Swarm {
        particles: vec![p],
        global_best_position: vec![-900_000],
        global_best_fitness: 1_000_000_000_000,
    };
    s.update_particle(&cfg, 0, 0, 0);
    assert_eq!(s.particles[0].position, vec![-1_000_000]);
    assert_eq!(s.particles[0].velocity, vec![0]);
    let expected = rastrigin(&vec![-1_000_000]) + 5_000_000;
    assert_eq!(s.global_best_fitness, expected);
}

#[test]
fn no_penalty_when_inside_bounds() {
    let cfg = SwarmConfig {
        dim: 1,
        particle_count: 1,
        inertia: 1_000_000,
        cognitive: 0,
        social: 0,
        lower: -1_000_000,
        upper: 1_000_000,
        penalty: 5_000_000,
    };
    let p = Particle {
        position: vec![0],
        velocity: vec![100_000],
        best_position: vec![0],
        best_fitness: 1_000_000_000_000,
    };
    let mut s = Swarm {
        particles: vec![p],
        global_best_position: vec![0],
        global_best_fitness: 1_000_000_000_000,
    };
    s.update_particle(&cfg, 0, 0, 0);
    assert_eq!(s.particles[0].position, vec![100_000]);
    assert_eq!(s.particles[0].velocity, vec![100_000]);
    assert_eq!(s.global_best_fitness, rastrigin(&vec![100_000]));
}

#[test]
fn best_fitness_is_non_increasing_across_sweeps() {
    let cfg = small_config();
    let mut rng = rng_from_seed(19);
    let mut s = init_swarm(&cfg, &mut rng);
    let log = s.run(&cfg, 50, &mut rng);
    assert_eq!(log.len(), 50);
    for (k, rec) in log.iter().enumerate() {
        assert_eq!(rec.sweep_index, k);
    }
    for w in log.windows(2) {
        assert!(w[1].best_fitness <= w[0].best_fitness);
    }
    assert_eq!(log[49].best_fitness, s.global_best_fitness);
}

#[test]
fn identical_seeds_give_identical_runs() {
    let cfg = small_config();
    let mut rng_a = rng_from_seed(123);
    let mut s_a = init_swarm(&cfg, &mut rng_a);
    let log_a = s_a.run(&cfg, 30, &mut rng_a);
    let mut rng_b = rng_from_seed(123);
    let mut s_b = init_swarm(&cfg, &mut rng_b);
    let log_b = s_b.run(&cfg, 30, &mut rng_b);
    assert_eq!(s_a.global_best_fitness, s_b.global_best_fitness);
    assert_eq!(s_a.global_best_position, s_b.global_best_position);
    assert_eq!(log_a.len(), log_b.len());
    for k in 0..log_a.len() {
        assert_eq!(log_a[k].sweep_index, log_b[k].sweep_index);
        assert_eq!(log_a[k].best_fitness, log_b[k].best_fitness);
    }
    for k in 0..s_a.particles.len() {
        assert_eq!(s_a.particles[k].position, s_b.particles[k].position);
        assert_eq!(s_a.particles[k].velocity, s_b.particles[k].velocity);
        assert_eq!(s_a.particles[k].best_position, s_b.particles[k].best_position);
        assert_eq!(s_a.particles[k].best_fitness, s_b.particles[k].best_fitness);
    }
}

#[test]
fn swarm_improves_on_every_initial_position() {
    // D=2, N=5, bounds [-1, 1], W=0.9, C1=1.3, C2=1.1, penalty 10000,
    // 50 sweeps, fixed seed: the best found must beat every starting point.
    let cfg = SwarmConfig {
        dim: 2,
        particle_count: 5,
        inertia: 900_000,
        cognitive: 1_300_000,
        social: 1_100_000,
        lower: -1_000_000,
        upper: 1_000_000,
        penalty: 10_000_000_000,
    };
    let mut rng = rng_from_seed(2024);
    let mut s = init_swarm(&cfg, &mut rng);
    let initial: Vec<i64> = s.particles.iter().map(|p| p.best_fitness).collect();
    s.run(&cfg, 50, &mut rng);
    for f in initial {
        assert!(
            s.global_best_fitness < f,
            "best {} does not beat initial {}",
            s.global_best_fitness,
            f
        );
    }
}

#[test]
fn single_particle_global_best_tracks_personal_best() {
    let cfg = SwarmConfig {
        dim: 4,
        particle_count: 1,
        inertia: 900_000,
        cognitive: 1_300_000,
        social: 1_100_000,
        lower: -1_000_000,
        upper: 1_000_000,
        penalty: 10_000_000_000,
    };
    let mut rng = rng_from_seed(5);
    let mut s = init_swarm(&cfg, &mut rng);
    for _ in 0..10 {
        s.run(&cfg, 1, &mut rng);
        assert_eq!(s.global_best_position, s.particles[0].best_position);
        assert_eq!(s.global_best_fitness, s.particles[0].best_fitness);
    }
}

#[test]
fn run_with_explicit_streams_is_deterministic() {
    let cfg = small_config();
    let mut rng = rng_from_seed(31);
    let mut s_a = init_swarm(&cfg, &mut rng);
    let mut rng_b = rng_from_seed(31);
    let mut s_b = init_swarm(&cfg, &mut rng_b);
    let mut streams: Vec<Vec<(i64, i64)>> = Vec::new();
    let mut stream_rng = rng_from_seed(99);
    for _ in 0..8 {
        streams.push(draw_pairs(&mut stream_rng, cfg.particle_count));
    }
    s_a.run_with(&cfg, &streams);
    s_b.run_with(&cfg, &streams);
    assert_eq!(s_a.global_best_fitness, s_b.global_best_fitness);
    assert_eq!(s_a.global_best_position, s_b.global_best_position);
    for k in 0..cfg.particle_count {
        assert_eq!(s_a.particles[k].position, s_b.particles[k].position);
        assert_eq!(s_a.particles[k].velocity, s_b.particles[k].velocity);
        assert_eq!(s_a.particles[k].best_fitness, s_b.particles[k].best_fitness);
    }
}

#[test]
fn sweep_is_deterministic_in_its_draws() {
    let cfg = small_config();
    let mut rng = rng_from_seed(77);
    let mut s_a = init_swarm(&cfg, &mut rng);
    let mut rng_b = rng_from_seed(77);
    let mut s_b = init_swarm(&cfg, &mut rng_b);
    let rands = vec![(1_000, 999_999), (0, 0), (500_000, 250_000), (999_999, 1)];
    s_a.sweep(&cfg, &rands);
    s_b.sweep(&cfg, &rands);
    assert_eq!(s_a.global_best_fitness, s_b.global_best_fitness);
    assert_eq!(s_a.global_best_position, s_b.global_best_position);
    for k in 0..4 {
        assert_eq!(s_a.particles[k].position, s_b.particles[k].position);
        assert_eq!(s_a.particles[k].velocity, s_b.particles[k].velocity);
    }
}
