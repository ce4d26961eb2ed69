use bubblechamber::fixed::{cross_product, fx_add, fx_mul, scale, Vec3, LIMIT, ONE};
use bubblechamber::frame::{model, step_population, update, Model};
use bubblechamber::gen::{
    daughters, generate_particles, mass_for_depth, maybe_add_particles, root_particle,
    spawn_count, split_particle, DECAY_MAX, DECAY_MIN, MAX_ROOT_CHARGE,
};
use bubblechamber::models::{Chamber, Particle};
use bubblechamber::sim::step_particle;

fn golden_chamber() -> Chamber {
    Chamber::new(Vec3::new(0, 0, 1_500_000), 200_000)
}

fn particle(velocity: Vec3, charge: i64, mass: i64, decays_after: i64) -> Particle {
    Particle::new(Vec3::zero(), velocity, charge, mass, decays_after, 0)
}

#[test]
fn golden_lorentz_step() {
    let c = golden_chamber();
    let mut p = particle(Vec3::new(ONE, 0, 0), 1, 1, 10 * ONE);
    let decayed = step_particle(&mut p, &c, 100_000);
    assert!(!decayed);
    assert_eq!(p.velocity, Vec3::new(980_000, -147_000, 0));
    assert_eq!(p.position, Vec3::new(98_000, -14_700, 0));
    assert_eq!(p.lifetime_s, 100_000);
    assert_eq!(p.path_len(), 2);
    assert_eq!(p.path_point(0), Vec3::zero());
    assert_eq!(p.path_point(1), Vec3::new(98_000, -14_700, 0));
}

#[test]
fn heavier_particle_turns_less() {
    let c = golden_chamber();
    let mut p = particle(Vec3::new(ONE, 0, 0), 1, 2, 10 * ONE);
    step_particle(&mut p, &c, 100_000);
    // acceleration -0.75 on y; v = (1, -0.075) * 0.98
    assert_eq!(p.velocity, Vec3::new(980_000, -73_500, 0));
    assert_eq!(p.position, Vec3::new(98_000, -7_350, 0));
}

#[test]
fn decays_exactly_on_second_step() {
    let c = golden_chamber();
    let mut p = particle(Vec3::new(ONE, 0, 0), 1, 1, ONE);
    assert!(!step_particle(&mut p, &c, 600_000));
    assert!(p.is_alive);
    assert!(step_particle(&mut p, &c, 600_000));
    assert!(!p.is_alive);
    assert_eq!(p.lifetime_s, 1_200_000);
}

#[test]
fn decays_when_age_equals_threshold() {
    let c = golden_chamber();
    let mut p = particle(Vec3::new(ONE, 0, 0), 1, 1, ONE);
    assert!(!step_particle(&mut p, &c, 500_000));
    assert!(step_particle(&mut p, &c, 500_000));
    assert!(!p.is_alive);
}

#[test]
fn zero_step_changes_nothing() {
    let c = golden_chamber();
    let mut ps = vec![
        particle(Vec3::new(ONE, 2 * ONE, 0), 3, 4, ONE),
        particle(Vec3::new(-ONE, 0, ONE), -2, 1, 2 * ONE),
    ];
    let mut dying = particle(Vec3::new(ONE, 0, 0), 1, 1, ONE);
    step_particle(&mut dying, &c, ONE);
    ps.push(dying);
    let before: Vec<(Vec3, Vec3, i64, usize, bool)> = ps
        .iter()
        .map(|p| (p.position, p.velocity, p.lifetime_s, p.path_len(), p.is_alive))
        .collect();
    step_population(&c, &mut ps, 0);
    let after: Vec<(Vec3, Vec3, i64, usize, bool)> = ps
        .iter()
        .map(|p| (p.position, p.velocity, p.lifetime_s, p.path_len(), p.is_alive))
        .collect();
    assert_eq!(before, after);
}

#[test]
fn alive_path_grows_by_one_per_frame() {
    let c = golden_chamber();
    let mut p = particle(Vec3::new(ONE, ONE, 0), -1, 1, 100 * ONE);
    for frame in 0..50usize {
        assert_eq!(p.path_len(), frame + 1);
        step_particle(&mut p, &c, 16_667);
        assert_eq!(p.path_point(p.path_len() - 1), p.position);
    }
    assert_eq!(p.path_len(), 51);
}

#[test]
fn decaying_path_shrinks_then_particle_is_removed() {
    let c = golden_chamber();
    let mut p = particle(Vec3::new(ONE, 0, 0), 1, 1, 300_000);
    for _ in 0..3 {
        step_particle(&mut p, &c, 100_000);
    }
    assert!(!p.is_alive);
    assert_eq!(p.path_len(), 4);
    let oldest_left = p.path_point(1);
    let mut ps = vec![p];
    // A frame too short to spawn anything.
    step_population(&c, &mut ps, 1);
    assert_eq!(ps.len(), 1);
    assert_eq!(ps[0].path_len(), 3);
    assert_eq!(ps[0].path_point(0), oldest_left);
    step_population(&c, &mut ps, 1);
    assert_eq!(ps[0].path_len(), 2);
    step_population(&c, &mut ps, 1);
    assert_eq!(ps[0].path_len(), 1);
    step_population(&c, &mut ps, 1);
    assert_eq!(ps.len(), 0);
}

#[test]
fn population_splits_heavy_decaying_particle() {
    let c = golden_chamber();
    let mut ps = vec![
        particle(Vec3::new(ONE, 0, 0), 2, 8, 100_000),
        particle(Vec3::new(ONE, 0, 0), 1, 1, 100_000),
        particle(Vec3::new(0, ONE, 0), 1, 4, 10 * ONE),
    ];
    step_population(&c, &mut ps, 100_000);
    assert!(ps.len() >= 5);
    assert!(!ps[0].is_alive);
    assert!(!ps[1].is_alive);
    assert!(ps[2].is_alive);
    assert_eq!(ps[3].mass + ps[4].mass, 8);
    assert_eq!(ps[3].position, ps[0].position);
    assert_eq!(ps[3].charge, 2);
    assert_eq!(ps[4].charge, -2);
    for p in &ps[3..5] {
        assert!(p.is_alive);
        assert_eq!(p.generation, 1);
        assert_eq!(p.lifetime_s, 0);
        assert_eq!(p.path_len(), 1);
    }
    for p in &ps {
        assert!(p.mass >= 1);
    }
}

#[test]
fn daughters_share_mass_and_kick() {
    let mut parent = particle(Vec3::new(ONE, 2 * ONE, 0), 3, 5, ONE);
    parent.position = Vec3::new(7, 8, 9);
    let ds = daughters(&parent, Vec3::new(10, -20, 30), DECAY_MIN, DECAY_MAX - 1);
    assert_eq!(ds.len(), 2);
    assert_eq!(ds[0].mass, 2);
    assert_eq!(ds[1].mass, 3);
    assert_eq!(ds[0].velocity, Vec3::new(ONE + 10, 2 * ONE - 20, 30));
    assert_eq!(ds[1].velocity, Vec3::new(ONE - 10, 2 * ONE + 20, -30));
    assert_eq!(ds[0].charge, 3);
    assert_eq!(ds[1].charge, -3);
    assert_eq!(ds[0].position, Vec3::new(7, 8, 9));
    assert_eq!(ds[0].decays_after, DECAY_MIN);
    assert_eq!(ds[1].decays_after, DECAY_MAX - 1);
    assert_eq!(ds[1].path_point(0), Vec3::new(7, 8, 9));
}

#[test]
fn no_daughters_for_unit_mass() {
    let parent = particle(Vec3::new(ONE, 0, 0), 1, 1, ONE);
    assert_eq!(daughters(&parent, Vec3::zero(), DECAY_MIN, DECAY_MIN).len(), 0);
    assert_eq!(split_particle(&parent).len(), 0);
}

#[test]
fn split_particle_conserves_mass() {
    let parent = particle(Vec3::new(ONE, 0, 0), 4, 64, ONE);
    for _ in 0..20 {
        let ds = split_particle(&parent);
        assert_eq!(ds.len(), 2);
        assert_eq!(ds[0].mass + ds[1].mass, 64);
        for d in &ds {
            assert!(d.mass >= 1);
            assert!(d.is_alive);
            assert!(d.decays_after >= DECAY_MIN && d.decays_after < DECAY_MAX);
        }
    }
}

#[test]
fn root_masses() {
    assert_eq!(mass_for_depth(0), 1);
    assert_eq!(mass_for_depth(6), 64);
    assert_eq!(mass_for_depth(40), 1 << 40);
    assert_eq!(mass_for_depth(1000), 1 << 40);
    let r = root_particle(Vec3::new(1, 2, 3), -4, DECAY_MIN, 3);
    assert_eq!(r.mass, 8);
    assert_eq!(r.position, Vec3::zero());
    assert_eq!(r.velocity, Vec3::new(1, 2, 3));
    assert_eq!(r.charge, -4);
}

#[test]
fn generated_population_is_valid() {
    let scale = 350 * ONE;
    let ps = generate_particles(5, 6, scale);
    assert_eq!(ps.len(), 5);
    for p in &ps {
        assert_eq!(p.mass, 64);
        assert!(p.is_alive);
        assert_eq!(p.path_len(), 1);
        assert!(p.charge.abs() <= MAX_ROOT_CHARGE);
        assert!(p.decays_after >= DECAY_MIN && p.decays_after < DECAY_MAX);
        for v in [p.velocity.x, p.velocity.y, p.velocity.z] {
            assert!(-scale <= v && v <= scale);
        }
    }
}

#[test]
fn spawn_counts() {
    assert_eq!(spawn_count(0, 0), 0);
    assert_eq!(spawn_count(2_500_000, 0), 3);
    assert_eq!(spawn_count(2_500_000, 499_999), 3);
    assert_eq!(spawn_count(2_500_000, 500_000), 2);
    assert_eq!(spawn_count(16_667, 16_666), 1);
    assert_eq!(spawn_count(16_667, 16_667), 0);
    assert_eq!(spawn_count(3 * ONE, 999_999), 3);
}

#[test]
fn spawning_keeps_existing_particles() {
    let mut ps = vec![particle(Vec3::new(ONE, 0, 0), 1, 1, ONE)];
    maybe_add_particles(2 * ONE, &mut ps);
    assert_eq!(ps.len(), 3);
    assert_eq!(ps[0].velocity, Vec3::new(ONE, 0, 0));
    assert_eq!(ps[1].mass, 64);
    maybe_add_particles(0, &mut ps);
    assert_eq!(ps.len(), 3);
}

#[test]
fn population_stays_bounded() {
    let mut m: Model = model();
    assert_eq!(m.particles.len(), 5);
    let mut largest = 0usize;
    for _ in 0..1200 {
        update(&mut m, 16_667);
        largest = largest.max(m.particles.len());
        for p in &m.particles {
            assert!(p.mass >= 1);
            assert!(p.path_len() >= 1);
        }
    }
    assert!(largest < 5000, "population grew to {}", largest);
}

#[test]
fn fixed_point_rounding_and_saturation() {
    assert_eq!(fx_mul(-1, 1), -1);
    assert_eq!(fx_mul(1, 1), 0);
    assert_eq!(fx_mul(3 * ONE, -ONE / 2), -1_500_000);
    assert_eq!(fx_mul(LIMIT, LIMIT), LIMIT);
    assert_eq!(fx_add(LIMIT, 1), LIMIT);
    assert_eq!(fx_add(-LIMIT, -LIMIT), -LIMIT);
    assert_eq!(scale(-3, LIMIT), -LIMIT);
    assert_eq!(
        cross_product(&Vec3::new(ONE, 0, 0), &Vec3::new(0, ONE, 0)),
        Vec3::new(0, 0, ONE)
    );
    assert_eq!(
        cross_product(&Vec3::new(ONE, 0, 0), &Vec3::new(0, 0, 1_500_000)),
        Vec3::new(0, -1_500_000, 0)
    );
}

#[test]
fn friction_overshoot_inverts_velocity() {
    let c = Chamber::new(Vec3::zero(), 900_000);
    let mut p = particle(Vec3::new(ONE, 0, 0), 0, 1, 100 * ONE);
    step_particle(&mut p, &c, 2 * ONE);
    // factor 1 - 0.9 * 2 = -0.8
    assert_eq!(p.velocity, Vec3::new(-800_000, 0, 0));
    assert_eq!(p.position, Vec3::new(-1_600_000, 0, 0));
}
