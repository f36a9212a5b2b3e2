//! The laws of the simulation layer, stated and proved once and for all:
//! static bodies never move, unobstructed dynamic bodies fall monotonically
//! under gravity, a rightward impulse advances the player, repeated presses
//! of a key are undone by one release, and queries are deterministic.

use vstd::prelude::*;
use crate::body::{is_static_plane, Body, PlaneFacing, Shape};
use crate::input::{lemma_release_contains, press_spec, release_spec, Key};
use crate::vec2::{sat, Vec2};
use crate::world::{
    apply_impulse_spec, clamp_plane, impulse_body_spec, integrate_spec, lemma_resolve_keeps_meta,
    lemma_step_body_keeps_meta, render_data_spec, resolve_spec, step_body_spec, step_spec, Block,
    RenderData, World,
};

verus! {

/// No body of the arena is an obstacle: there is no floor (and no wall).
pub open spec fn no_static_planes(bodies: Seq<Body>) -> bool {
    forall|k: int| 0 <= k < bodies.len() ==> !is_static_plane(#[trigger] bodies[k])
}

/// The arena after `n` simulation steps of the same time delta.
pub open spec fn step_n_spec(bodies: Seq<Body>, g: Vec2, dt: int, n: nat) -> Seq<
    Body,
>
    decreases n,
{
    if n == 0 {
        bodies
    } else {
        step_spec(step_n_spec(bodies, g, dt, (n - 1) as nat), g, dt)
    }
}

/// With no obstacle in the arena, contact resolution does nothing.
pub proof fn lemma_resolve_without_planes(b: Body, bodies: Seq<Body>, n: int)
    requires
        forall|k: int| 0 <= k < n ==> !is_static_plane(#[trigger] bodies[k]),
    ensures
        resolve_spec(b, bodies, n) == b,
    decreases n,
{
    if n > 0 {
        lemma_resolve_without_planes(b, bodies, n - 1);
    }
}

/// Stepping any number of times leaves every static body — and so its
/// queried pose and render data — exactly as it was. Gravity and contact
/// resolution never move a static body.
pub proof fn lemma_static_body_fixed(
    bodies: Seq<Body>,
    g: Vec2,
    dt: int,
    n: nat,
    i: int,
)
    requires
        0 <= i < bodies.len(),
        bodies[i].kind is Static,
    ensures
        step_n_spec(bodies, g, dt, n).len() == bodies.len(),
        step_n_spec(bodies, g, dt, n)[i] == bodies[i],
        render_data_spec(step_n_spec(bodies, g, dt, n)[i]) == render_data_spec(bodies[i]),
    decreases n,
{
    if n > 0 {
        lemma_static_body_fixed(bodies, g, dt, (n - 1) as nat, i);
    }
}

/// One unobstructed step of a falling body: with positive downward gravity,
/// a positive time delta, and values clear of saturation, both the downward
/// velocity and the downward position component strictly increase.
pub proof fn lemma_fall_strict(bodies: Seq<Body>, g: Vec2, dt: int, i: int)
    requires
        0 <= i < bodies.len(),
        no_static_planes(bodies),
        bodies[i].kind is Dynamic,
        g.y > 0,
        dt > 0,
        bodies[i].vel.y >= 0,
        bodies[i].vel.y + g.y * dt <= i64::MAX,
        (bodies[i].vel.y + g.y * dt) * dt <= i64::MAX,
        bodies[i].pos.y + (bodies[i].vel.y + g.y * dt) * dt <= i64::MAX,
    ensures
        step_spec(bodies, g, dt).len() == bodies.len(),
        step_spec(bodies, g, dt)[i].vel.y > bodies[i].vel.y,
        step_spec(bodies, g, dt)[i].pos.y > bodies[i].pos.y,
{
    let b = bodies[i];
    let ib = integrate_spec(b, g, dt);
    lemma_resolve_without_planes(ib, bodies, bodies.len() as int);
    assert(g.y * dt >= 1) by (nonlinear_arith)
        requires
            g.y >= 1,
            dt >= 1,
    ;
    let vy1 = b.vel.y + g.y * dt;
    assert(ib.vel.y == vy1);
    assert(vy1 * dt >= 1) by (nonlinear_arith)
        requires
            vy1 >= 1,
            dt >= 1,
    ;
    assert(ib.pos.y == b.pos.y + vy1 * dt);
}

/// One step of an unobstructed body with downward velocity and gravity both
/// nonnegative: the downward position component never decreases, even where
/// the arithmetic saturates, and the body stays in free fall.
pub proof fn lemma_fall_monotone_step(bodies: Seq<Body>, g: Vec2, dt: int, i: int)
    requires
        0 <= i < bodies.len(),
        no_static_planes(bodies),
        bodies[i].kind is Dynamic,
        g.y >= 0,
        dt >= 0,
        bodies[i].vel.y >= 0,
    ensures
        step_spec(bodies, g, dt).len() == bodies.len(),
        no_static_planes(step_spec(bodies, g, dt)),
        step_spec(bodies, g, dt)[i].kind is Dynamic,
        step_spec(bodies, g, dt)[i].vel.y >= bodies[i].vel.y,
        step_spec(bodies, g, dt)[i].pos.y >= bodies[i].pos.y,
{
    let b = bodies[i];
    let ib = integrate_spec(b, g, dt);
    lemma_resolve_without_planes(ib, bodies, bodies.len() as int);
    assert(g.y * dt >= 0) by (nonlinear_arith)
        requires
            g.y >= 0,
            dt >= 0,
    ;
    assert(ib.vel.y == sat(b.vel.y + sat(g.y * dt)));
    assert(ib.vel.y * dt >= 0) by (nonlinear_arith)
        requires
            ib.vel.y >= 0,
            dt >= 0,
    ;
    let after = step_spec(bodies, g, dt);
    assert forall|k: int| 0 <= k < after.len() implies !is_static_plane(#[trigger] after[k]) by {
        lemma_step_body_keeps_meta(bodies[k], bodies, g, dt);
    }
}

/// Repeated unobstructed stepping under nonnegative downward gravity moves a
/// dynamic body monotonically downward: after any number of steps its
/// downward position component is at least what it started at. Together
/// with `lemma_fall_strict`, the descent is strict while the values stay
/// clear of saturation, and only a collision can end it.
pub proof fn lemma_fall_monotone(bodies: Seq<Body>, g: Vec2, dt: int, n: nat, i: int)
    requires
        0 <= i < bodies.len(),
        no_static_planes(bodies),
        bodies[i].kind is Dynamic,
        g.y >= 0,
        dt >= 0,
        bodies[i].vel.y >= 0,
    ensures
        step_n_spec(bodies, g, dt, n).len() == bodies.len(),
        no_static_planes(step_n_spec(bodies, g, dt, n)),
        step_n_spec(bodies, g, dt, n)[i].kind is Dynamic,
        step_n_spec(bodies, g, dt, n)[i].vel.y >= 0,
        step_n_spec(bodies, g, dt, n)[i].pos.y >= bodies[i].pos.y,
    decreases n,
{
    if n > 0 {
        lemma_fall_monotone(bodies, g, dt, (n - 1) as nat, i);
        lemma_fall_monotone_step(step_n_spec(bodies, g, dt, (n - 1) as nat), g, dt, i);
    }
}

/// Applying a rightward impulse to the player and then stepping once leaves
/// the player strictly further right than stepping without the impulse, all
/// else equal (unobstructed, and clear of saturation).
pub proof fn lemma_rightward_impulse_advances(
    bodies: Seq<Body>,
    g: Vec2,
    dt: int,
    h: int,
    imp: Vec2,
)
    requires
        0 <= h < bodies.len(),
        no_static_planes(bodies),
        bodies[h].kind is Dynamic,
        imp.x > 0,
        dt > 0,
        i64::MIN <= bodies[h].vel.x + imp.x <= i64::MAX,
        i64::MIN <= g.x * dt <= i64::MAX,
        i64::MIN <= bodies[h].vel.x + g.x * dt,
        bodies[h].vel.x + imp.x + g.x * dt <= i64::MAX,
        i64::MIN <= (bodies[h].vel.x + g.x * dt) * dt,
        (bodies[h].vel.x + imp.x + g.x * dt) * dt <= i64::MAX,
        i64::MIN <= bodies[h].pos.x + (bodies[h].vel.x + g.x * dt) * dt,
        bodies[h].pos.x + (bodies[h].vel.x + imp.x + g.x * dt) * dt <= i64::MAX,
    ensures
        step_spec(apply_impulse_spec(bodies, h, imp), g, dt)[h].pos.x > step_spec(
            bodies,
            g,
            dt,
        )[h].pos.x,
{
    let b = bodies[h];
    let pushed = apply_impulse_spec(bodies, h, imp);
    assert(pushed[h] == impulse_body_spec(b, imp));
    assert(no_static_planes(pushed)) by {
        assert(forall|k: int|
            0 <= k < pushed.len() && k != h ==> #[trigger] pushed[k] == bodies[k]);
    }
    let vxa = b.vel.x + imp.x;
    let vxa1 = vxa + g.x * dt;
    let vxb1 = b.vel.x + g.x * dt;
    assert(vxb1 < vxa1);
    assert(vxb1 * dt + dt <= vxa1 * dt) by (nonlinear_arith)
        requires
            vxb1 < vxa1,
            dt >= 1,
    ;
    let iba = integrate_spec(pushed[h], g, dt);
    let ibb = integrate_spec(b, g, dt);
    lemma_resolve_without_planes(iba, pushed, pushed.len() as int);
    lemma_resolve_without_planes(ibb, bodies, bodies.len() as int);
    assert(iba.vel.x == vxa1);
    assert(ibb.vel.x == vxb1);
    assert(iba.pos.x == b.pos.x + vxa1 * dt);
    assert(ibb.pos.x == b.pos.x + vxb1 * dt);
}

/// The `y` half-extent of a box shape (zero for a plane).
pub open spec fn box_half_y(s: Shape) -> int {
    match s {
        Shape::Cuboid { half_extents } => half_extents.y as int,
        Shape::Plane { .. } => 0,
    }
}

/// The offset of a plane shape (zero for a box).
pub open spec fn plane_offset(s: Shape) -> int {
    match s {
        Shape::Cuboid { .. } => 0,
        Shape::Plane { offset, .. } => offset as int,
    }
}

/// A body that acts as a floor: a static half-plane facing up.
pub open spec fn is_floor(b: Body) -> bool {
    b.kind is Static && b.shape matches Shape::Plane { facing: PlaneFacing::Up, .. }
}

/// Resolution against an arena whose only obstacle is the floor at index `j`
/// leaves a box body flush with or above the floor.
proof fn lemma_resolve_on_floor(b: Body, bodies: Seq<Body>, j: int, n: int)
    requires
        0 <= j < n,
        b.shape is Cuboid,
        box_half_y(b.shape) >= 0,
        is_floor(bodies[j]),
        i64::MIN <= plane_offset(bodies[j].shape) - box_half_y(b.shape),
        forall|k: int| 0 <= k < n && k != j ==> !is_static_plane(#[trigger] bodies[k]),
    ensures
        resolve_spec(b, bodies, n).pos.y + box_half_y(b.shape) <= plane_offset(bodies[j].shape),
        resolve_spec(b, bodies, n).shape == b.shape,
    decreases n,
{
    lemma_resolve_keeps_meta(b, bodies, n);
    if n - 1 == j {
        lemma_resolve_keeps_meta(b, bodies, n - 1);
    } else {
        lemma_resolve_on_floor(b, bodies, j, n - 1);
    }
}

/// A world whose only obstacle is one up-facing static plane: a step never
/// carries a dynamic box through that floor. Wherever the box was and
/// however large the delta, after the step its lower edge is flush with or
/// above the plane.
pub proof fn lemma_floor_never_passed(
    bodies: Seq<Body>,
    g: Vec2,
    dt: int,
    i: int,
    j: int,
)
    requires
        dt != 0,
        0 <= i < bodies.len(),
        0 <= j < bodies.len(),
        bodies[i].kind is Dynamic,
        bodies[i].shape is Cuboid,
        box_half_y(bodies[i].shape) >= 0,
        is_floor(bodies[j]),
        i64::MIN <= plane_offset(bodies[j].shape) - box_half_y(bodies[i].shape),
        forall|k: int| 0 <= k < bodies.len() && k != j ==> !is_static_plane(#[trigger] bodies[k]),
    ensures
        step_spec(bodies, g, dt)[i].pos.y + box_half_y(bodies[i].shape) <= plane_offset(
            bodies[j].shape,
        ),
{
    let ib = integrate_spec(bodies[i], g, dt);
    lemma_resolve_on_floor(ib, bodies, j, bodies.len() as int);
}

/// One impulse with a positive rightward component on a player at
/// horizontal rest, followed by one step, leaves the player's horizontal
/// velocity strictly positive — for any pose, any delta and any vertical
/// gravity, as long as gravity has no horizontal component and nothing
/// obstructs the player.
pub proof fn lemma_single_impulse_positive_velocity(
    bodies: Seq<Body>,
    g: Vec2,
    dt: int,
    h: int,
    imp: Vec2,
)
    requires
        0 <= h < bodies.len(),
        no_static_planes(bodies),
        bodies[h].kind is Dynamic,
        bodies[h].vel.x == 0,
        imp.x > 0,
        g.x == 0,
        dt >= 0,
    ensures
        step_spec(apply_impulse_spec(bodies, h, imp), g, dt)[h].vel.x == imp.x,
{
    let pushed = apply_impulse_spec(bodies, h, imp);
    assert(pushed[h] == impulse_body_spec(bodies[h], imp));
    assert(pushed[h].vel.x == imp.x);
    assert(no_static_planes(pushed)) by {
        assert(forall|k: int|
            0 <= k < pushed.len() && k != h ==> #[trigger] pushed[k] == bodies[k]);
    }
    if dt != 0 {
        assert(g.x * dt == 0) by (nonlinear_arith)
            requires
                g.x == 0,
        ;
        let ib = integrate_spec(pushed[h], g, dt);
        assert(ib.vel.x == imp.x);
        lemma_resolve_without_planes(ib, pushed, pushed.len() as int);
    }
}

/// Resolution against an arena whose only obstacle is the floor at index `j`
/// is exactly the one clamp against that floor.
proof fn lemma_resolve_floor_value(b: Body, bodies: Seq<Body>, j: int, n: int)
    requires
        0 <= j < n,
        forall|k: int| 0 <= k < n && k != j ==> !is_static_plane(#[trigger] bodies[k]),
    ensures
        resolve_spec(b, bodies, n) == clamp_plane(b, bodies[j]),
    decreases n,
{
    if n - 1 == j {
        lemma_resolve_without_planes(b, bodies, n - 1);
    } else {
        lemma_resolve_floor_value(b, bodies, j, n - 1);
    }
}

/// A box that rests flush on the floor settles there: under downward gravity
/// a step moves it neither up nor through the plane — its downward position
/// component stays exactly where it was, step after step.
pub proof fn lemma_rest_on_floor_stable(bodies: Seq<Body>, g: Vec2, dt: int, i: int, j: int)
    requires
        0 <= i < bodies.len(),
        0 <= j < bodies.len(),
        bodies[i].kind is Dynamic,
        bodies[i].shape is Cuboid,
        is_floor(bodies[j]),
        forall|k: int| 0 <= k < bodies.len() && k != j ==> !is_static_plane(#[trigger] bodies[k]),
        bodies[i].pos.y == plane_offset(bodies[j].shape) - box_half_y(bodies[i].shape),
        g.y >= 0,
        dt >= 0,
        bodies[i].vel.y >= 0,
    ensures
        step_spec(bodies, g, dt)[i].pos.y == bodies[i].pos.y,
{
    let b = bodies[i];
    let ib = integrate_spec(b, g, dt);
    assert(g.y * dt >= 0) by (nonlinear_arith)
        requires
            g.y >= 0,
            dt >= 0,
    ;
    assert(ib.vel.y == sat(b.vel.y + sat(g.y * dt)));
    assert(ib.vel.y * dt >= 0) by (nonlinear_arith)
        requires
            ib.vel.y >= 0,
            dt >= 0,
    ;
    assert(ib.pos.y >= b.pos.y);
    lemma_resolve_floor_value(ib, bodies, j, bodies.len() as int);
}

/// Pressing a held key again changes nothing, and one release after any
/// number of presses removes the key fully: no duplicate entry survives to
/// cause a repeated impulse.
pub proof fn lemma_press_twice_one_release(s: Seq<Key>, k: Key)
    ensures
        press_spec(press_spec(s, k), k) == press_spec(s, k),
        release_spec(press_spec(press_spec(s, k), k), k) == release_spec(s, k),
        !release_spec(press_spec(press_spec(s, k), k), k).contains(k),
{
    assert(press_spec(s, k).contains(k)) by {
        if !s.contains(k) {
            assert(press_spec(s, k)[s.len() as int] == k);
        }
    }
    if !s.contains(k) {
        assert(s.push(k).drop_last() =~= s);
        assert(release_spec(s.push(k), k) == release_spec(s, k));
    }
    lemma_release_contains(s, k, k);
}

/// Querying render data twice without an intervening step returns identical
/// results: the query mutates nothing, and its result is a pure function of
/// the world's current state.
pub proof fn lemma_query_deterministic(w: World, e: Block, r1: RenderData, r2: RenderData)
    requires
        e.handle < w.bodies@.len(),
        r1 == render_data_spec(w.bodies@[e.handle as int]),
        r2 == render_data_spec(w.bodies@[e.handle as int]),
    ensures
        r1 == r2,
{
}

} // verus!
