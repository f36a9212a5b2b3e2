// Pressed-input set and direction-to-impulse mapping tests.

use explane::body::{BodyDesc, BodyKind, Shape};
use explane::driver::{apply_held_impulses, impulse_for, update, IMPULSE_MAGNITUDE};
use explane::input::{Key, PressedSet};
use explane::vec2::Vec2;
use explane::world::{Block, World};

fn player_world() -> (World, Block) {
    let mut w = World::new();
    let player = Block::new(
        BodyDesc {
            kind: BodyKind::Dynamic,
            shape: Shape::Cuboid { half_extents: Vec2 { x: 100, y: 100 } },
            mass: 1000,
            friction: 300,
            restitution: 600,
        },
        &mut w,
    );
    (w, player)
}

#[test]
fn key_down_is_idempotent() {
    let mut s = PressedSet::new();
    s.key_down(Key::Right);
    s.key_down(Key::Right);
    assert_eq!(s.len(), 1);
    assert!(s.contains(Key::Right));
}

#[test]
fn one_key_up_removes_fully() {
    let mut s = PressedSet::new();
    s.key_down(Key::Right);
    s.key_down(Key::Right);
    s.key_up(Key::Right);
    assert_eq!(s.len(), 0);
    assert!(!s.contains(Key::Right));
}

#[test]
fn key_up_keeps_other_keys() {
    let mut s = PressedSet::new();
    s.key_down(Key::Left);
    s.key_down(Key::Up);
    s.key_down(Key::Other(31));
    s.key_up(Key::Up);
    assert!(s.contains(Key::Left));
    assert!(s.contains(Key::Other(31)));
    assert!(!s.contains(Key::Up));
    assert_eq!(s.len(), 2);
    // key-down order of the survivors is kept
    assert_eq!(s.get(0), Key::Left);
    assert_eq!(s.get(1), Key::Other(31));
}

#[test]
fn key_up_of_a_key_never_held_is_a_no_op() {
    let mut s = PressedSet::new();
    s.key_down(Key::Left);
    s.key_up(Key::Right);
    assert_eq!(s.len(), 1);
    assert!(s.contains(Key::Left));
}

#[test]
fn directional_bindings() {
    assert_eq!(impulse_for(Key::Right), Some(Vec2 { x: IMPULSE_MAGNITUDE, y: 0 }));
    assert_eq!(impulse_for(Key::Left), Some(Vec2 { x: -IMPULSE_MAGNITUDE, y: 0 }));
    assert_eq!(impulse_for(Key::Up), Some(Vec2 { x: 0, y: -IMPULSE_MAGNITUDE }));
    assert_eq!(impulse_for(Key::Other(31)), None);
}

#[test]
fn held_directions_push_the_player_once_each() {
    let (mut w, player) = player_world();
    let mut s = PressedSet::new();
    s.key_down(Key::Right);
    s.key_down(Key::Up);
    s.key_down(Key::Other(99));
    apply_held_impulses(&mut w, &player, &s);
    assert_eq!(w.linear_velocity(&player), Vec2 { x: 2000, y: -2000 });
}

#[test]
fn duplicate_key_down_causes_no_double_impulse() {
    let (mut w, player) = player_world();
    let mut s = PressedSet::new();
    s.key_down(Key::Right);
    s.key_down(Key::Right);
    update(&mut w, &player, &s, 17);
    assert_eq!(w.linear_velocity(&player).x, 2000);
}

#[test]
fn update_steps_then_applies_impulses() {
    let (mut w, player) = player_world();
    w.set_gravity(Vec2 { x: 0, y: 9810 });
    let mut s = PressedSet::new();
    s.key_down(Key::Right);
    update(&mut w, &player, &s, 17);
    // the impulse lands after the step, so this frame's pose is unmoved by it
    assert_eq!(w.position(&player).x, 0);
    assert_eq!(w.linear_velocity(&player).x, 2000);
    // gravity acted during the step
    assert_eq!(w.linear_velocity(&player).y, 9810 * 17);
    assert_eq!(w.position(&player).y, 9810 * 17 * 17);
}

#[test]
fn opposite_held_keys_cancel() {
    let (mut w, player) = player_world();
    let mut s = PressedSet::new();
    s.key_down(Key::Right);
    s.key_down(Key::Left);
    apply_held_impulses(&mut w, &player, &s);
    assert_eq!(w.linear_velocity(&player), Vec2 { x: 0, y: 0 });
}
