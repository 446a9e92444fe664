use coffee_particles::config::Config;
use coffee_particles::geom::Vec2i;
use coffee_particles::interact::isqrt;
use coffee_particles::particle::{Particle, Variant};
use coffee_particles::population::{RepellingCloud, StaticGrid, Stream, TrailingCursor};

fn v(x: i64, y: i64) -> Vec2i {
    Vec2i { x, y }
}

fn particle_at(pos: Vec2i, vel: Vec2i, acc: Vec2i, life: i64) -> Particle {
    Particle {
        pos,
        vel,
        acc,
        life,
        radius: 0,
        hue: 0,
        saturation: 0,
        value: 0,
        resolution: 0,
        idx: 0,
    }
}

#[test]
fn config_defaults() {
    let c = Config::new();
    assert_eq!(c.radius, 4000);
    assert_eq!(c.hue, 1000);
    assert_eq!(c.saturation, 50);
    assert_eq!(c.value, 100);
    assert_eq!(c.resolution, 10);
}

#[test]
fn integrator_sign_convention() {
    // velocity picks up the acceleration, the position moves AGAINST the
    // new velocity, life shrinks by the stream decrement (1.5 = 150).
    let mut p = particle_at(v(0, 0), v(100, -100), v(0, 5), 25500);
    p.update(Variant::Stream);
    assert_eq!(p.vel, v(100, -95));
    assert_eq!(p.pos, v(-100, 95));
    assert_eq!(p.life, 25350);
    assert_eq!(p.acc, v(0, 5)); // the stream keeps its baseline drift
}

#[test]
fn cloud_update_clears_acceleration() {
    let mut p = particle_at(v(0, 0), v(10, 10), v(0, 0), 25500);
    p.apply_force(v(4, -3));
    p.apply_force(v(3, 0));
    assert_eq!(p.acc, v(7, -3));
    p.update(Variant::RepellingCloud);
    assert_eq!(p.vel, v(17, 7));
    assert_eq!(p.pos, v(-17, -7));
    assert_eq!(p.acc, v(0, 0));
    assert_eq!(p.life, 25450); // decrement 0.5 = 50
}

#[test]
fn life_exact_after_k_updates() {
    // life after k updates is exactly 255.0 - k * decrement, per variant
    let mut p = particle_at(v(0, 0), v(0, 0), v(0, 0), 25500);
    for _ in 0..3 {
        p.update(Variant::TrailingCursor);
    }
    assert_eq!(p.life, 25500 - 3 * 200);
    let mut q = particle_at(v(0, 0), v(0, 0), v(0, 0), 25500);
    for _ in 0..7 {
        q.update(Variant::RepellingCloud);
    }
    assert_eq!(q.life, 25500 - 7 * 50);
}

#[test]
fn is_dead_is_strict() {
    let p = particle_at(v(0, 0), v(0, 0), v(0, 0), 0);
    assert!(!p.is_dead()); // exactly zero is still alive
    let q = particle_at(v(0, 0), v(0, 0), v(0, 0), -1);
    assert!(q.is_dead());
}

#[test]
fn isqrt_exact() {
    assert_eq!(isqrt(0), 0);
    assert_eq!(isqrt(1), 1);
    assert_eq!(isqrt(3), 1);
    assert_eq!(isqrt(4), 2);
    assert_eq!(isqrt(99), 9);
    assert_eq!(isqrt(100), 10);
    assert_eq!(isqrt(250000), 500);
    assert_eq!(isqrt(8_000_000_000_000_000_000), 2_828_427_124);
}

#[test]
fn grid_positions_and_count() {
    let vels = vec![v(10, -50); 2500];
    let g = StaticGrid::new(-100_000, 200_000, 500, &vels);
    assert!(g.intact);
    assert_eq!(g.particles.len(), 2500);
    // index i sits at (x + (i % 50) * r, y - (i / 50) * r)
    assert_eq!(g.particles[0].pos, v(-100_000, 200_000));
    assert_eq!(g.particles[57].pos, v(-100_000 + 7 * 500, 200_000 - 500));
    assert_eq!(g.particles[2499].pos, v(-100_000 + 49 * 500, 200_000 - 49 * 500));
    assert_eq!(g.particles[1234].life, 25500);
    assert_eq!(g.particles[1234].radius, 500);
}

#[test]
fn grid_motionless_until_shatter() {
    let vels = vec![v(10, -50); 2500];
    let mut g = StaticGrid::new(0, 0, 500, &vels);
    for _ in 0..5 {
        g.update();
    }
    assert_eq!(g.particles[0].pos, v(0, 0));
    assert_eq!(g.particles[123].pos, v((123 % 50) * 500, -(123 / 50) * 500));
    assert_eq!(g.particles[0].life, 25500);

    g.shatter();
    g.update();
    // velocity picked up gravity once, position moved against it
    assert_eq!(g.particles[0].vel, v(10, -45));
    assert_eq!(g.particles[0].pos, v(-10, 45));
    assert_eq!(g.particles[0].life, 25500 - 200);
}

#[test]
fn grid_never_culled() {
    // grid particles keep aging past zero but are never removed
    let vels = vec![v(0, 0); 2500];
    let mut g = StaticGrid::new(0, 0, 500, &vels);
    g.shatter();
    for _ in 0..200 {
        g.update();
    }
    assert_eq!(g.particles.len(), 2500);
    assert!(g.particles[0].life < 0);
}

#[test]
fn stream_first_frame() {
    let mut s = Stream::new();
    s.step(v(0, 37_500), v(100, -100));
    assert_eq!(s.particles.len(), 1);
    // the fresh particle updates in its own spawn frame
    assert_eq!(s.particles[0].life, 25350);
    assert_eq!(s.particles[0].vel, v(100, -95));
    assert_eq!(s.particles[0].pos, v(-100, 37_595));
}

#[test]
fn stream_removal_is_strictly_below_zero() {
    // life 1.5 before the update survives at exactly 0.0
    let mut s = Stream::new();
    s.particles = vec![particle_at(v(0, 0), v(0, 0), v(0, 0), 150)];
    s.step(v(0, 0), v(0, 0));
    assert_eq!(s.particles.len(), 2);
    assert_eq!(s.particles[0].life, 0);

    // life 0.5 before the update lands at -1.0 and is gone at once
    let mut s2 = Stream::new();
    s2.particles = vec![particle_at(v(77, 0), v(0, 0), v(0, 0), 50)];
    s2.step(v(0, 0), v(0, 0));
    assert_eq!(s2.particles.len(), 1);
    assert_ne!(s2.particles[0].pos.x, 77); // only the fresh spawn is left
}

#[test]
fn stream_population_converges() {
    // one spawn per frame, each particle observable for exactly 170 frames
    let mut s = Stream::new();
    for n in 1..=400u64 {
        s.step(v(0, 40_000), v(100, -100));
        let expected = if n <= 170 { n } else { 170 };
        assert_eq!(s.particles.len() as u64, expected, "after {} frames", n);
    }
}

#[test]
fn cloud_coincident_pair_is_guarded() {
    // two particles at exactly the same position: the zero-length
    // direction is skipped, so neither picks up any force
    let cfg = Config::new();
    let mut c = RepellingCloud::new(v(1000, 2000));
    c.add_particle(v(3, 4), &cfg);
    c.add_particle(v(-5, 6), &cfg);
    // the frame spawns a third particle far away from the pair
    c.step(v(800_000, 800_000), v(0, 0), &cfg);
    assert_eq!(c.particles.len(), 3);
    // untouched velocities: no force reached either of the pair
    assert_eq!(c.particles[0].vel, v(3, 4));
    assert_eq!(c.particles[1].vel, v(-5, 6));
    assert_eq!(c.particles[0].pos, v(1000 - 3, 2000 - 4));
    assert_eq!(c.particles[0].acc, v(0, 0));
}

#[test]
fn cloud_far_pair_no_force() {
    // farther apart than the radius (40.0 = 4000): zero contribution
    let cfg = Config::new();
    let mut c = RepellingCloud::new(v(0, 0));
    c.add_particle(v(1, 2), &cfg);
    c.origin = v(5000, 0);
    c.add_particle(v(-1, -2), &cfg);
    c.step(v(800_000, 800_000), v(0, 0), &cfg);
    assert_eq!(c.particles[0].vel, v(1, 2));
    assert_eq!(c.particles[1].vel, v(-1, -2));
}

#[test]
fn cloud_near_pair_repels_exactly() {
    // (0,0) and (300,400): distance 500, within radius 4000; each gets
    // the half-unit vector away from the other: (-30,-40) and (30,40)
    let cfg = Config::new();
    let mut c = RepellingCloud::new(v(0, 0));
    c.add_particle(v(0, 0), &cfg);
    c.origin = v(300, 400);
    c.add_particle(v(0, 0), &cfg);
    c.step(v(800_000, 800_000), v(0, 0), &cfg);
    assert_eq!(c.particles[0].vel, v(-30, -40));
    assert_eq!(c.particles[1].vel, v(30, 40));
    // and the forces were cleared after integrating
    assert_eq!(c.particles[0].acc, v(0, 0));
    assert_eq!(c.particles[1].acc, v(0, 0));
}

#[test]
fn cloud_spawn_identities_increase() {
    let cfg = Config::new();
    let mut c = RepellingCloud::new(v(0, 0));
    c.step(v(100_000, 0), v(0, 0), &cfg);
    c.step(v(-100_000, 0), v(0, 0), &cfg);
    c.step(v(0, 100_000), v(0, 0), &cfg);
    assert_eq!(c.particles.len(), 3);
    assert_eq!(c.particles[0].idx, 0);
    assert_eq!(c.particles[1].idx, 1);
    assert_eq!(c.particles[2].idx, 2);
    assert_eq!(c.next_idx, 3);
}

#[test]
fn trail_follows_cursor() {
    let cfg = Config::new();
    let mut t = TrailingCursor::new(v(0, 0));
    t.step(v(12_300, -4_560), v(100, -100), &cfg);
    assert_eq!(t.origin, v(12_300, -4_560));
    assert_eq!(t.particles.len(), 1);
    // spawned at the cursor, then integrated once (decrement 2.0 = 200)
    assert_eq!(t.particles[0].pos, v(12_300 - 100, -4_560 + 95));
    assert_eq!(t.particles[0].life, 25300);
    assert_eq!(t.particles[0].radius, 4000);
    t.step(v(0, 0), v(0, 0), &cfg);
    assert_eq!(t.origin, v(0, 0));
    assert_eq!(t.particles.len(), 2);
}
