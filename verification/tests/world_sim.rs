// Simulation-layer tests: body creation, stepping, impulses, repositioning
// and the shape/pose query. Units are fixed-point: nanometers for positions,
// milliseconds for time.

use explane::body::{BodyDesc, BodyKind, PlaneFacing, Shape};
use explane::vec2::{sat_add, sat_mul, sat_sub, Vec2};
use explane::world::{Block, RenderData, World};

fn box_desc(kind: BodyKind, hx: i64, hy: i64) -> BodyDesc {
    BodyDesc {
        kind,
        shape: Shape::Cuboid { half_extents: Vec2 { x: hx, y: hy } },
        mass: 1000,
        friction: 300,
        restitution: 600,
    }
}

fn plane_desc(facing: PlaneFacing, offset: i64) -> BodyDesc {
    BodyDesc {
        kind: BodyKind::Static,
        shape: Shape::Plane { facing, offset },
        mass: 0,
        friction: 300,
        restitution: 600,
    }
}

#[test]
fn create_assigns_dense_handles() {
    let mut w = World::new();
    let a = Block::new(box_desc(BodyKind::Dynamic, 10, 10), &mut w);
    let b = Block::new(plane_desc(PlaneFacing::Up, 0), &mut w);
    assert_eq!(a.handle, 0);
    assert_eq!(b.handle, 1);
    assert_eq!(w.num_bodies(), 2);
}

#[test]
fn new_body_starts_at_origin_at_rest() {
    let mut w = World::new();
    let a = Block::new(box_desc(BodyKind::Dynamic, 10, 10), &mut w);
    assert_eq!(w.position(&a), Vec2 { x: 0, y: 0 });
    assert_eq!(w.linear_velocity(&a), Vec2 { x: 0, y: 0 });
}

#[test]
fn append_translation_moves_pose() {
    let mut w = World::new();
    let a = Block::new(box_desc(BodyKind::Dynamic, 10, 10), &mut w);
    w.append_translation(&a, Vec2 { x: 400, y: 100 });
    w.append_translation(&a, Vec2 { x: -150, y: 25 });
    assert_eq!(w.position(&a), Vec2 { x: 250, y: 125 });
}

#[test]
fn static_bodies_never_move() {
    let mut w = World::new();
    w.set_gravity(Vec2 { x: 0, y: 9810 });
    let floor = Block::new(plane_desc(PlaneFacing::Up, 0), &mut w);
    let anvil = Block::new(box_desc(BodyKind::Static, 500, 500), &mut w);
    w.append_translation(&anvil, Vec2 { x: 7, y: -9 });
    let floor_before = w.query_render_data(&floor);
    let anvil_before = w.query_render_data(&anvil);
    for _ in 0..25 {
        w.step(17);
    }
    assert_eq!(w.query_render_data(&floor), floor_before);
    assert_eq!(w.query_render_data(&anvil), anvil_before);
    assert_eq!(w.position(&anvil), Vec2 { x: 7, y: -9 });
}

#[test]
fn unobstructed_fall_is_strictly_monotone() {
    let mut w = World::new();
    w.set_gravity(Vec2 { x: 0, y: 9810 });
    let b = Block::new(box_desc(BodyKind::Dynamic, 10, 10), &mut w);
    let mut last_y = w.position(&b).y;
    for _ in 0..5 {
        w.step(17);
        let y = w.position(&b).y;
        assert!(y > last_y, "downward position must strictly increase");
        last_y = y;
    }
}

#[test]
fn zero_delta_is_a_no_op() {
    let mut w = World::new();
    w.set_gravity(Vec2 { x: 0, y: 9810 });
    let b = Block::new(box_desc(BodyKind::Dynamic, 10, 10), &mut w);
    w.append_translation(&b, Vec2 { x: 3, y: 4 });
    w.apply_central_impulse(&b, Vec2 { x: 55, y: -7 });
    let pose = w.position(&b);
    let vel = w.linear_velocity(&b);
    w.step(0);
    assert_eq!(w.position(&b), pose);
    assert_eq!(w.linear_velocity(&b), vel);
}

#[test]
fn zero_delta_moves_nothing_even_in_overlap() {
    // a box sunk into the floor is only pushed out by a real step, never by
    // a zero-delta one: zero delta is a full no-op
    let mut w = World::new();
    w.set_gravity(Vec2 { x: 0, y: 9810 });
    let _floor = Block::new(plane_desc(PlaneFacing::Up, 0), &mut w);
    let b = Block::new(box_desc(BodyKind::Dynamic, 10, 10), &mut w);
    w.append_translation(&b, Vec2 { x: 0, y: 5 });
    w.step(0);
    assert_eq!(w.position(&b), Vec2 { x: 0, y: 5 });
    w.step(17);
    assert_eq!(w.position(&b).y, -10, "a real step resolves the overlap");
}

#[test]
fn huge_delta_saturates_instead_of_panicking() {
    let mut w = World::new();
    w.set_gravity(Vec2 { x: 0, y: 9810 });
    let b = Block::new(box_desc(BodyKind::Dynamic, 10, 10), &mut w);
    w.step(i64::MAX);
    assert_eq!(w.position(&b).y, i64::MAX);
}

#[test]
fn impulse_on_static_body_is_ignored() {
    let mut w = World::new();
    let s = Block::new(box_desc(BodyKind::Static, 10, 10), &mut w);
    w.apply_central_impulse(&s, Vec2 { x: 2000, y: 0 });
    assert_eq!(w.linear_velocity(&s), Vec2 { x: 0, y: 0 });
    w.step(17);
    assert_eq!(w.position(&s), Vec2 { x: 0, y: 0 });
}

#[test]
fn impulse_is_an_instant_velocity_change() {
    let mut w = World::new();
    let b = Block::new(box_desc(BodyKind::Dynamic, 10, 10), &mut w);
    w.apply_central_impulse(&b, Vec2 { x: 2000, y: -300 });
    w.apply_central_impulse(&b, Vec2 { x: -500, y: 0 });
    assert_eq!(w.linear_velocity(&b), Vec2 { x: 1500, y: -300 });
    // no time has passed, so the pose is untouched
    assert_eq!(w.position(&b), Vec2 { x: 0, y: 0 });
}

#[test]
fn query_reports_box_pose_and_extents() {
    let mut w = World::new();
    let b = Block::new(box_desc(BodyKind::Dynamic, 460, 230), &mut w);
    w.append_translation(&b, Vec2 { x: 400, y: 100 });
    match w.query_render_data(&b) {
        RenderData::Rect { position, half_extents } => {
            assert_eq!(position, Vec2 { x: 400, y: 100 });
            assert_eq!(half_extents, Vec2 { x: 460, y: 230 });
        },
        RenderData::Surface { .. } => panic!("a box must render as a rect"),
    }
}

#[test]
fn query_reports_plane_parameters() {
    let mut w = World::new();
    let p = Block::new(plane_desc(PlaneFacing::Up, 42), &mut w);
    match w.query_render_data(&p) {
        RenderData::Surface { facing, offset, position } => {
            assert_eq!(facing, PlaneFacing::Up);
            assert_eq!(offset, 42);
            assert_eq!(position, Vec2 { x: 0, y: 0 });
        },
        RenderData::Rect { .. } => panic!("a plane must render as a surface"),
    }
}

#[test]
fn query_twice_without_step_is_identical() {
    let mut w = World::new();
    w.set_gravity(Vec2 { x: 0, y: 9810 });
    let b = Block::new(box_desc(BodyKind::Dynamic, 460, 460), &mut w);
    w.step(17);
    let first = w.query_render_data(&b);
    let second = w.query_render_data(&b);
    assert_eq!(first, second);
}

#[test]
fn side_planes_block_sideways_motion() {
    let mut w = World::new();
    let wall = Block::new(plane_desc(PlaneFacing::Left, 100), &mut w);
    assert_eq!(wall.handle, 0);
    let b = Block::new(box_desc(BodyKind::Dynamic, 10, 10), &mut w);
    w.apply_central_impulse(&b, Vec2 { x: 1000, y: 0 });
    for _ in 0..10 {
        w.step(17);
        assert!(w.position(&b).x + 10 <= 100, "the wall must not be passed");
    }
    assert_eq!(w.position(&b).x, 90);
    assert_eq!(w.linear_velocity(&b).x, 0);
}

#[test]
fn down_facing_plane_is_a_ceiling() {
    let mut w = World::new();
    let _ceiling = Block::new(plane_desc(PlaneFacing::Down, -50), &mut w);
    let b = Block::new(box_desc(BodyKind::Dynamic, 10, 10), &mut w);
    w.apply_central_impulse(&b, Vec2 { x: 0, y: -1000 });
    for _ in 0..10 {
        w.step(17);
        assert!(w.position(&b).y - 10 >= -50, "the ceiling must not be passed");
    }
    assert_eq!(w.position(&b).y, -40);
    assert_eq!(w.linear_velocity(&b).y, 0);
}

#[test]
fn saturating_arithmetic_clamps_at_the_ends() {
    assert_eq!(sat_add(i64::MAX, 1), i64::MAX);
    assert_eq!(sat_add(i64::MIN, -1), i64::MIN);
    assert_eq!(sat_add(40, 2), 42);
    assert_eq!(sat_sub(i64::MIN, 1), i64::MIN);
    assert_eq!(sat_sub(i64::MAX, -1), i64::MAX);
    assert_eq!(sat_sub(40, -2), 42);
    assert_eq!(sat_mul(i64::MAX, 2), i64::MAX);
    assert_eq!(sat_mul(i64::MAX, -2), i64::MIN);
    assert_eq!(sat_mul(-6, -7), 42);
}
