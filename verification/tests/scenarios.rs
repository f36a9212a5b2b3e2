// End-to-end scenarios, in fixed-point world units: positions in nanometers
// (1 m = 1_000_000_000), time in milliseconds, so gravity of 9.81 m/s^2 is
// 9810 nm/ms^2 and a frame of roughly 1/60 s is 17 ms.

use explane::body::{BodyDesc, BodyKind, PlaneFacing, Shape};
use explane::vec2::Vec2;
use explane::world::{Block, World};

const METER: i64 = 1_000_000_000;

fn dynamic_box(hx: i64, hy: i64) -> BodyDesc {
    BodyDesc {
        kind: BodyKind::Dynamic,
        shape: Shape::Cuboid { half_extents: Vec2 { x: hx, y: hy } },
        mass: 1000,
        friction: 300,
        restitution: 600,
    }
}

#[test]
fn falling_box_settles_on_the_plane() {
    // A static plane at y = 0 facing up, one dynamic box of half-extents
    // (0.46 m, 0.46 m) spawned at y = -10 m, gravity (0, 9.81 m/s^2),
    // stepped at ~1/60 s for 300 frames: the box must come to rest with its
    // center at y = -0.46 m (about -0.5 m), and must never pass the plane.
    let half: i64 = 46 * METER / 100;
    let mut w = World::new();
    w.set_gravity(Vec2 { x: 0, y: 9810 });
    let _plane = Block::new(
        BodyDesc {
            kind: BodyKind::Static,
            shape: Shape::Plane { facing: PlaneFacing::Up, offset: 0 },
            mass: 0,
            friction: 300,
            restitution: 600,
        },
        &mut w,
    );
    let boxy = Block::new(dynamic_box(half, half), &mut w);
    w.append_translation(&boxy, Vec2 { x: 0, y: -10 * METER });
    for _ in 0..300 {
        w.step(17);
        let y = w.position(&boxy).y;
        assert!(y + half <= 0, "the box must never pass through the plane");
    }
    let settled = w.position(&boxy).y;
    assert_eq!(settled, -half, "the box must rest flush on the plane");
    // -0.46 m is within the expected -0.5 m tolerance band
    assert!((-6 * METER / 10) < settled && settled < (-4 * METER / 10));
    assert_eq!(w.linear_velocity(&boxy).y, 0, "at rest on the plane");
}

#[test]
fn single_impulse_yields_positive_horizontal_velocity() {
    // A player box at rest receives one impulse of (2000, 0) and one step of
    // ~1/60 s: its horizontal velocity must be strictly positive afterwards.
    let mut w = World::new();
    let player = Block::new(dynamic_box(100, 100), &mut w);
    assert_eq!(w.linear_velocity(&player), Vec2 { x: 0, y: 0 });
    w.apply_central_impulse(&player, Vec2 { x: 2000, y: 0 });
    w.step(17);
    assert!(w.linear_velocity(&player).x > 0);
    assert_eq!(w.linear_velocity(&player).x, 2000);
}

#[test]
fn rightward_impulse_advances_the_player() {
    // Two identical worlds; the player in one gets a rightward impulse, then
    // both step once: the pushed player ends strictly further right.
    let mut with_impulse = World::new();
    let mut without = World::new();
    with_impulse.set_gravity(Vec2 { x: 0, y: 9810 });
    without.set_gravity(Vec2 { x: 0, y: 9810 });
    let p1 = Block::new(dynamic_box(100, 100), &mut with_impulse);
    let p2 = Block::new(dynamic_box(100, 100), &mut without);
    with_impulse.apply_central_impulse(&p1, Vec2 { x: 2000, y: 0 });
    with_impulse.step(17);
    without.step(17);
    assert!(with_impulse.position(&p1).x > without.position(&p2).x);
    // gravity acted equally on both
    assert_eq!(with_impulse.position(&p1).y, without.position(&p2).y);
}
