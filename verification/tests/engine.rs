use coffee_particles::engine::{Engine, FrameInput, Mode};
use coffee_particles::geom::Vec2i;

fn v(x: i64, y: i64) -> Vec2i {
    Vec2i { x, y }
}

fn input() -> FrameInput {
    FrameInput {
        stream_origin: v(0, 40_000),
        cloud_origin: v(50_000, -30_000),
        cursor: v(700, 800),
        spawn_vel: v(100, -100),
    }
}

fn engine() -> Engine {
    let vels = vec![v(10, -50); 2500];
    Engine::new(-10_000, 30_000, 500, &vels, v(0, 35_000))
}

#[test]
fn engine_starts_idle() {
    let mut e = engine();
    assert_eq!(e.mode, Mode::Setting);
    assert_eq!(e.stream.particles.len(), 0);
    assert_eq!(e.cloud.particles.len(), 0);
    assert_eq!(e.trail.particles.len(), 0);
    assert_eq!(e.grid.particles.len(), 2500);
    // a frame in the settings preview drives nothing
    e.frame(&input());
    assert_eq!(e.grid.particles[0].pos, v(-10_000, 30_000));
    assert_eq!(e.cloud.particles.len(), 0);
}

#[test]
fn reentering_cloud_mode_resets_it() {
    let mut e = engine();
    e.enter_show_three();
    for _ in 0..4 {
        e.frame(&input());
    }
    assert_eq!(e.cloud.particles.len(), 4);
    let vels = vec![v(10, -50); 2500];
    e.enter_show_one(-10_000, 30_000, 500, &vels);
    assert_eq!(e.mode, Mode::ShowOne);
    e.enter_show_three();
    assert_eq!(e.mode, Mode::ShowThree);
    assert_eq!(e.cloud.particles.len(), 0);
}

#[test]
fn leaving_and_reentering_stream_preserves_it() {
    let mut e = engine();
    e.enter_show_two();
    for _ in 0..5 {
        e.frame(&input());
    }
    let lives: Vec<i64> = e.stream.particles.iter().map(|p| p.life).collect();
    assert_eq!(lives.len(), 5);

    e.enter_show_four();
    e.frame(&input());
    e.frame(&input());
    e.enter_show_two();
    let lives_after: Vec<i64> = e.stream.particles.iter().map(|p| p.life).collect();
    assert_eq!(lives, lives_after); // nothing spawned, aged or culled
    assert_eq!(e.trail.particles.len(), 2); // the trail kept its own
}

#[test]
fn shatter_is_a_no_op_outside_show_one() {
    let mut e = engine();
    e.enter_show_two();
    e.shatter();
    assert!(e.grid.intact);

    let vels = vec![v(10, -50); 2500];
    e.enter_show_one(-10_000, 30_000, 500, &vels);
    e.shatter();
    assert!(!e.grid.intact);
    e.frame(&input());
    assert_eq!(e.grid.particles[0].vel, v(10, -45));
}

#[test]
fn grid_frames_freeze_until_shatter() {
    let mut e = engine();
    let vels = vec![v(10, -50); 2500];
    e.enter_show_one(-10_000, 30_000, 500, &vels);
    for _ in 0..3 {
        e.frame(&input());
    }
    assert_eq!(e.grid.particles[0].pos, v(-10_000, 30_000));
    e.shatter();
    e.frame(&input());
    assert_eq!(e.grid.particles[0].pos, v(-10_000 - 10, 30_000 + 45));
}

#[test]
fn spawned_particles_keep_their_configuration_snapshot() {
    let mut e = engine();
    e.enter_show_three();
    e.frame(&input());
    e.config.radius = 5000;
    e.config.hue = 2000;
    e.frame(&input());
    // the first particle keeps the brew it was spawned with
    assert_eq!(e.cloud.particles[0].radius, 4000);
    assert_eq!(e.cloud.particles[0].hue, 1000);
    assert_eq!(e.cloud.particles[1].radius, 5000);
    assert_eq!(e.cloud.particles[1].hue, 2000);
}

#[test]
fn cloud_frame_moves_origin_and_spawns_there() {
    let mut e = engine();
    e.enter_show_three();
    let inp = input();
    e.frame(&inp);
    assert_eq!(e.cloud.origin, inp.cloud_origin);
    assert_eq!(e.cloud.particles.len(), 1);
    // spawned at the fresh origin, then integrated once (no gravity)
    assert_eq!(
        e.cloud.particles[0].pos,
        v(50_000 - 100, -30_000 + 100),
    );
    assert_eq!(e.cloud.particles[0].life, 25450);
}

#[test]
fn stream_frames_spawn_at_top_center() {
    let mut e = engine();
    e.enter_show_two();
    e.frame(&input());
    assert_eq!(e.stream.particles.len(), 1);
    assert_eq!(e.stream.particles[0].pos, v(-100, 40_000 + 95));
    assert_eq!(e.stream.particles[0].life, 25350);
}

#[test]
fn trail_frames_follow_the_pointer() {
    let mut e = engine();
    e.enter_show_four();
    e.frame(&input());
    assert_eq!(e.trail.origin, v(700, 800));
    assert_eq!(e.trail.particles.len(), 1);
    assert_eq!(e.trail.particles[0].life, 25300);
}
