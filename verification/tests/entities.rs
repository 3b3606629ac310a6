use rand::SeedableRng;
use rand::rngs::StdRng;

use fireworks::firework::Firework;
use fireworks::model::Model;
use fireworks::particle::Particle;
use fireworks::ALPHA_INIT;
use fireworks::BATCH_SIZE;
use fireworks::DECAY_HI;
use fireworks::DECAY_LO;
use fireworks::FW_ACCEL;
use fireworks::FW_SPEED_INIT;
use fireworks::HUE_SWING;
use fireworks::P_BRIGHT_HI;
use fireworks::P_BRIGHT_LO;
use fireworks::P_FRICTION;
use fireworks::P_GRAVITY;
use fireworks::P_SPEED_HI;
use fireworks::P_SPEED_LO;
use fireworks::P_TRAIL_LEN;
use fireworks::RADIUS_INIT;
use fireworks::SCALE;

#[test]
fn fresh_firework_fields() {
    let mut rng = StdRng::seed_from_u64(11);
    let f = Firework::new(0, -384_000, 10_000, 300_000, 3, Some(500), &mut rng);
    assert_eq!(f.x, 0);
    assert_eq!(f.y, -384_000);
    assert_eq!(f.sx, 0);
    assert_eq!(f.sy, -384_000);
    assert_eq!(f.tx, 10_000);
    assert_eq!(f.ty, 300_000);
    assert_eq!(f.speed, FW_SPEED_INIT);
    assert_eq!(f.acceleration, FW_ACCEL);
    assert_eq!(f.target_radius, RADIUS_INIT);
    assert_eq!(f.traveled_sq, 0);
    let dx: i64 = 10_000;
    let dy: i64 = 300_000 + 384_000;
    assert_eq!(f.dist_sq, dx * dx + dy * dy);
    assert_eq!(f.trail.len(), 3);
    for p in &f.trail {
        assert_eq!(p.x, 0);
        assert_eq!(p.y, -384_000);
    }
    assert!(500 - HUE_SWING <= f.hue && f.hue < 500 + HUE_SWING);
    assert!(f.dir_x.abs() <= SCALE && f.dir_y.abs() <= SCALE);
    // the target lies almost straight up, so the direction must too
    assert!(f.dir_y > 900);
}

#[test]
fn fresh_particle_fields() {
    let mut rng = StdRng::seed_from_u64(23);
    for _ in 0..50 {
        let p = Particle::new(4_000, -2_000, 5, 700, &mut rng);
        assert_eq!(p.x, 4_000);
        assert_eq!(p.y, -2_000);
        assert_eq!(p.trail.len(), 5);
        for q in &p.trail {
            assert_eq!(q.x, 4_000);
            assert_eq!(q.y, -2_000);
        }
        assert!(P_SPEED_LO <= p.speed && p.speed < P_SPEED_HI);
        assert_eq!(p.friction, P_FRICTION);
        assert_eq!(p.gravity, P_GRAVITY);
        assert!(700 - HUE_SWING <= p.hue && p.hue < 700 + HUE_SWING);
        assert!(P_BRIGHT_LO <= p.brightness && p.brightness < P_BRIGHT_HI);
        assert_eq!(p.alpha, ALPHA_INIT);
        assert!(DECAY_LO <= p.decay && p.decay < DECAY_HI);
        assert!(p.dir_x.abs() <= SCALE && p.dir_y.abs() <= SCALE);
        // a drawn direction is a normalized vector, never the zero pair
        assert!(p.dir_x != 0 || p.dir_y != 0);
    }
}

#[test]
fn two_detonations_append_batches_in_order() {
    let mut m = Model::new(1024, 768, 29);
    let mut rng = StdRng::seed_from_u64(6);
    // both fireworks reach their target on the first tick
    m.fireworks.push(Firework::new(0, 0, 5, 0, 3, None, &mut rng));
    m.fireworks.push(Firework::new(0, 0, 0, 7, 3, None, &mut rng));
    Firework::update(&mut m);
    assert!(m.fireworks.is_empty());
    assert_eq!(m.particles.len(), 2 * BATCH_SIZE);
    // each detonator contributes one whole batch at its own target, in
    // collection order
    for p in &m.particles[..BATCH_SIZE] {
        assert_eq!(p.x, 5);
        assert_eq!(p.y, 0);
    }
    for p in &m.particles[BATCH_SIZE..] {
        assert_eq!(p.x, 0);
        assert_eq!(p.y, 7);
    }
}

#[test]
fn firework_speed_grows_geometrically() {
    let mut m = Model::new(1024, 768, 42);
    // a target far overhead so the firework flies for many ticks
    Firework::create(0, 300_000, &mut m);
    let expected = [2100, 2205, 2315, 2430, 2551, 2678];
    for s in expected {
        Firework::update(&mut m);
        assert_eq!(m.fireworks.len(), 1);
        assert_eq!(m.fireworks[0].speed, s);
    }
}

#[test]
fn firework_trail_and_radius_cycle() {
    let mut m = Model::new(1024, 768, 7);
    Firework::create(50_000, 300_000, &mut m);
    let mut radius = RADIUS_INIT;
    for _ in 0..40 {
        Firework::update(&mut m);
        assert_eq!(m.fireworks.len(), 1);
        let f = &m.fireworks[0];
        // trail buffer length never changes
        assert_eq!(f.trail.len(), 3);
        // the sawtooth: up by 300 while below 8000, then back to base
        radius = if radius < 8_000 { radius + 300 } else { RADIUS_INIT };
        assert_eq!(f.target_radius, radius);
    }
}

#[test]
fn particle_friction_and_fade_are_exact() {
    let mut m = Model::new(1024, 768, 5);
    Particle::create(1_000, 2_000, 10, 500, &mut m);
    assert_eq!(m.particles.len(), 10);
    let before: Vec<(i64, i64, i64)> =
        m.particles.iter().map(|p| (p.speed, p.alpha, p.decay)).collect();
    Particle::update(&mut m);
    assert_eq!(m.particles.len(), 10);
    for (i, p) in m.particles.iter().enumerate() {
        let (speed0, alpha0, decay) = before[i];
        assert_eq!(p.speed, speed0 * P_FRICTION / SCALE);
        assert!(p.speed < speed0);
        assert_eq!(p.alpha, alpha0 - decay);
        assert_eq!(p.trail.len(), P_TRAIL_LEN);
    }
}

#[test]
fn particle_removed_once_alpha_reaches_decay() {
    let mut m = Model::new(1024, 768, 13);
    Particle::create(0, 0, 30, 500, &mut m);
    let mut guard = 0;
    while !m.particles.is_empty() {
        Particle::update(&mut m);
        for p in &m.particles {
            // a live particle's opacity always exceeds its own decay rate
            assert!(p.alpha > p.decay);
        }
        guard += 1;
        assert!(guard < 200);
    }
    // the slowest fader needs at most ALPHA_INIT / DECAY_LO ticks
    assert!(guard <= 67);
}

#[test]
fn detonation_hits_the_target_point() {
    // the exact scenario of the detonation rule: launch at the origin,
    // target 100 display units straight up, trail length one
    let mut rng = StdRng::seed_from_u64(1);
    let f = Firework::new(0, 0, 0, 100_000, 1, None, &mut rng);
    assert_eq!(f.dir_x, 0);
    assert_eq!(f.dir_y, SCALE);
    let mut m = Model::new(1024, 768, 9);
    m.fireworks.push(f);
    let mut guard = 0;
    while !m.fireworks.is_empty() {
        Firework::update(&mut m);
        guard += 1;
        assert!(guard < 200);
    }
    assert_eq!(m.particles.len(), BATCH_SIZE);
    for p in &m.particles {
        // the burst is centered on the target, not on the last traveled
        // position
        assert_eq!(p.x, 0);
        assert_eq!(p.y, 100_000);
    }
}

#[test]
fn detonation_on_the_spot_when_target_is_launch() {
    let mut rng = StdRng::seed_from_u64(3);
    let f = Firework::new(0, 0, 0, 0, 1, None, &mut rng);
    let mut m = Model::new(1024, 768, 4);
    m.fireworks.push(f);
    Firework::update(&mut m);
    assert!(m.fireworks.is_empty());
    assert_eq!(m.particles.len(), BATCH_SIZE);
    for p in &m.particles {
        assert_eq!(p.x, 0);
        assert_eq!(p.y, 0);
    }
}

#[test]
fn batch_grows_particles_by_exactly_one_batch() {
    let mut m = Model::new(1024, 768, 21);
    // one firework that detonates immediately, one that keeps flying
    let mut rng = StdRng::seed_from_u64(2);
    m.fireworks.push(Firework::new(0, 0, 0, 1, 3, None, &mut rng));
    m.fireworks.push(Firework::new(0, 0, 0, 90_000_000, 3, None, &mut rng));
    Firework::update(&mut m);
    assert_eq!(m.fireworks.len(), 1);
    assert_eq!(m.particles.len(), BATCH_SIZE);
    assert_eq!(m.fireworks[0].ty, 90_000_000);
}

#[test]
fn removal_keeps_other_fireworks_advancing() {
    let mut m = Model::new(1024, 768, 17);
    let mut rng = StdRng::seed_from_u64(8);
    // targets at very different heights: the middle one detonates first
    m.fireworks.push(Firework::new(0, 0, 10_000, 40_000_000, 3, None, &mut rng));
    m.fireworks.push(Firework::new(0, 0, 20_000, 30_000, 3, None, &mut rng));
    m.fireworks.push(Firework::new(0, 0, 30_000, 50_000_000, 3, None, &mut rng));
    let mut guard = 0;
    while m.fireworks.len() == 3 {
        let speeds: Vec<i64> = m.fireworks.iter().map(|f| f.speed).collect();
        Firework::update(&mut m);
        if m.fireworks.len() == 3 {
            for (i, f) in m.fireworks.iter().enumerate() {
                assert_eq!(f.speed, speeds[i] * FW_ACCEL / SCALE);
            }
        }
        guard += 1;
        assert!(guard < 100);
    }
    // the short flight (index 1) is gone; the neighbours kept their order
    // and advanced on the very tick that removed it
    assert_eq!(m.fireworks.len(), 2);
    assert_eq!(m.fireworks[0].tx, 10_000);
    assert_eq!(m.fireworks[1].tx, 30_000);
    assert_eq!(m.particles.len(), BATCH_SIZE);
    assert!(m.fireworks[0].speed > FW_SPEED_INIT);
    assert!(m.fireworks[1].speed > FW_SPEED_INIT);
}
