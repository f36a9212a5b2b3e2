//! The per-frame driver: the fixed direction-to-impulse table and the frame
//! update that advances the world and then applies one impulse per held
//! direction to the player block.
//!
//! As in the game this models, an impulse is applied once per frame per held
//! direction and is not scaled by the elapsed time, so player acceleration
//! is frame-rate dependent; that is kept deliberately, not corrected.

use vstd::prelude::*;
use crate::body::Body;
use crate::input::{Key, PressedSet};
use crate::vec2::Vec2;
use crate::world::{apply_impulse_spec, step_spec, Block, World};

verus! {

/// Magnitude of the fixed directional impulses, in velocity units.
pub const IMPULSE_MAGNITUDE: i64 = 2000;

/// The fixed impulse vector a held directional key maps to; a key with no
/// binding maps to none.
pub open spec fn impulse_spec(k: Key) -> Option<Vec2> {
    match k {
        Key::Right => Some(Vec2 { x: IMPULSE_MAGNITUDE as i64, y: 0 }),
        Key::Left => Some(Vec2 { x: (-IMPULSE_MAGNITUDE) as i64, y: 0 }),
        Key::Up => Some(Vec2 { x: 0, y: (-IMPULSE_MAGNITUDE) as i64 }),
        Key::Other(_) => None,
    }
}

/// The arena after applying, in order, the impulses of the first `n` held
/// keys to the body at handle `h`.
pub open spec fn apply_keys_spec(bodies: Seq<Body>, h: int, keys: Seq<Key>, n: int) -> Seq<Body>
    decreases n,
{
    if n <= 0 {
        bodies
    } else {
        let prev = apply_keys_spec(bodies, h, keys, n - 1);
        match impulse_spec(keys[n - 1]) {
            Some(v) => apply_impulse_spec(prev, h, v),
            None => prev,
        }
    }
}

/// Applying held-key impulses never changes how many bodies there are.
pub proof fn lemma_apply_keys_len(bodies: Seq<Body>, h: int, keys: Seq<Key>, n: int)
    requires
        0 <= h < bodies.len(),
    ensures
        apply_keys_spec(bodies, h, keys, n).len() == bodies.len(),
    decreases n,
{
    if n > 0 {
        lemma_apply_keys_len(bodies, h, keys, n - 1);
    }
}

/// The impulse vector bound to a key, if any.
pub fn impulse_for(k: Key) -> (r: Option<Vec2>)
    ensures
        r == impulse_spec(k),
{
    match k {
        Key::Right => Some(Vec2 { x: IMPULSE_MAGNITUDE, y: 0 }),
        Key::Left => Some(Vec2 { x: -IMPULSE_MAGNITUDE, y: 0 }),
        Key::Up => Some(Vec2 { x: 0, y: -IMPULSE_MAGNITUDE }),
        Key::Other(_) => None,
    }
}

/// Apply to the player the impulse of every held direction, once each, in
/// key-down order.
pub fn apply_held_impulses(world: &mut World, player: &Block, pressed: &PressedSet)
    requires
        player.handle < old(world).bodies@.len(),
    ensures
        final(world).gravity == old(world).gravity,
        final(world).bodies@ == apply_keys_spec(
            old(world).bodies@,
            player.handle as int,
            pressed@,
            pressed@.len() as int,
        ),
{
    let ghost orig: Seq<Body> = world.bodies@;
    let n = pressed.len();
    let mut i: usize = 0;
    while i < n
        invariant
            n == pressed@.len(),
            player.handle < orig.len(),
            world.gravity == old(world).gravity,
            i <= n,
            world.bodies@ == apply_keys_spec(orig, player.handle as int, pressed@, i as int),
        decreases n - i,
    {
        proof {
            lemma_apply_keys_len(orig, player.handle as int, pressed@, i as int);
        }
        let k = pressed.get(i);
        match impulse_for(k) {
            Some(v) => {
                world.apply_central_impulse(player, v);
            },
            None => {},
        }
        i = i + 1;
    }
}

/// One frame of simulation: advance the world by `dt`, then apply the
/// impulses of the currently held directions to the player. All impulses of
/// a frame land strictly after the step, never interleaved with it.
pub fn update(world: &mut World, player: &Block, pressed: &PressedSet, dt: i64)
    requires
        player.handle < old(world).bodies@.len(),
        dt >= 0,
    ensures
        final(world).gravity == old(world).gravity,
        final(world).bodies@ == apply_keys_spec(
            step_spec(old(world).bodies@, old(world).gravity, dt as int),
            player.handle as int,
            pressed@,
            pressed@.len() as int,
        ),
{
    world.step(dt);
    apply_held_impulses(world, player, pressed);
}

} // verus!
