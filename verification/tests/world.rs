use fireworks::firework::Firework;
use fireworks::model::Model;
use fireworks::particle::Particle;
use fireworks::HUE_UNIT;
use fireworks::SPAWN_PERIOD;

#[test]
fn fresh_world_is_empty() {
    let m = Model::new(1024, 768, 1);
    assert_eq!(m.fireworks.len(), 0);
    assert_eq!(m.particles.len(), 0);
    assert_eq!(m.win_width, 1024);
    assert_eq!(m.win_height, 768);
    assert_eq!(m.timer_total, SPAWN_PERIOD);
    assert_eq!(m.timer_tick, 0);
    assert!(0 <= m.hue && m.hue < HUE_UNIT);
}

#[test]
fn world_seeded_from_clock() {
    let m = Model::from_clock(640, 480);
    assert!(0 <= m.hue && m.hue < HUE_UNIT);
    assert_eq!(m.fireworks.len(), 0);
}

#[test]
fn spawn_cadence_launches_every_period() {
    let mut m = Model::new(1024, 768, 3);
    // the counter climbs from 0 to the cadence before the first launch
    for t in 1..=5u8 {
        m.tick();
        assert_eq!(m.fireworks.len(), 0);
        assert_eq!(m.timer_tick, t);
    }
    m.tick();
    assert_eq!(m.fireworks.len(), 1);
    assert_eq!(m.timer_tick, 0);
    assert!(0 <= m.hue && m.hue < HUE_UNIT);
}

#[test]
fn spawned_target_lies_in_the_upper_band() {
    for seed in 0..20u64 {
        let mut m = Model::new(1024, 768, seed);
        Firework::spawn(&mut m);
        let f = &m.fireworks[0];
        // launch at the bottom center of the viewport
        assert_eq!(f.sx, 0);
        assert_eq!(f.sy, -384_000);
        // x within the central third band, y within the top third
        let band = 1024 * 1000 / 3;
        assert!(-band <= f.tx && f.tx < band);
        assert!(128_000 <= f.ty && f.ty < 384_000);
        assert_eq!(f.trail.len(), 3);
    }
}

#[test]
fn click_launches_toward_the_pointer() {
    let mut m = Model::new(800, 600, 77);
    Firework::create(123_456, 78_900, &mut m);
    assert_eq!(m.fireworks.len(), 1);
    let f = &m.fireworks[0];
    assert_eq!(f.tx, 123_456);
    assert_eq!(f.ty, 78_900);
    assert_eq!(f.sx, 0);
    assert_eq!(f.sy, -300_000);
}

#[test]
fn resize_leaves_every_entity_untouched() {
    let mut m = Model::new(1024, 768, 31);
    Firework::create(10_000, 200_000, &mut m);
    Particle::create(-5_000, 40_000, 25, 300, &mut m);
    for _ in 0..3 {
        m.tick();
    }
    let fw_before: Vec<(i64, i64, i64, i64, usize)> =
        m.fireworks.iter().map(|f| (f.x, f.y, f.speed, f.target_radius, f.trail.len())).collect();
    let p_before: Vec<(i64, i64, i64, i64, usize)> =
        m.particles.iter().map(|p| (p.x, p.y, p.speed, p.alpha, p.trail.len())).collect();
    let hue = m.hue;
    m.set_viewport(640, 480);
    assert_eq!(m.win_width, 640);
    assert_eq!(m.win_height, 480);
    assert_eq!(m.hue, hue);
    let fw_after: Vec<(i64, i64, i64, i64, usize)> =
        m.fireworks.iter().map(|f| (f.x, f.y, f.speed, f.target_radius, f.trail.len())).collect();
    let p_after: Vec<(i64, i64, i64, i64, usize)> =
        m.particles.iter().map(|p| (p.x, p.y, p.speed, p.alpha, p.trail.len())).collect();
    assert_eq!(fw_before, fw_after);
    assert_eq!(p_before, p_after);
    // only future spawns see the new bounds
    let mut m2 = Model::new(1024, 768, 31);
    m2.set_viewport(300, 300);
    Firework::spawn(&mut m2);
    let f = &m2.fireworks[0];
    assert_eq!(f.sy, -150_000);
    let band = 300 * 1000 / 3;
    assert!(-band <= f.tx && f.tx < band);
}

#[test]
fn long_run_stays_bounded() {
    let mut m = Model::new(1024, 768, 99);
    for _ in 0..400 {
        m.tick();
        for f in &m.fireworks {
            assert_eq!(f.trail.len(), 3);
            assert!(f.speed >= 2000);
        }
        for p in &m.particles {
            assert_eq!(p.trail.len(), 5);
            assert!(p.alpha > p.decay);
        }
    }
    // launches kept coming and bursts kept fading
    assert!(!m.fireworks.is_empty() || !m.particles.is_empty());
}

#[test]
fn largest_viewport_spawns_in_range() {
    let mut m = Model::new(100_000, 100_000, 55);
    Firework::spawn(&mut m);
    let f = &m.fireworks[0];
    assert_eq!(f.sy, -50_000_000);
    assert!(16_666_000 <= f.ty && f.ty < 50_000_000);
}
