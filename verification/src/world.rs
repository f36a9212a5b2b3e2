//! The physics world: the arena that owns every rigid body, the simulation
//! step driver, impulse and repositioning operations, and the shape/pose
//! query layer used by rendering.
//!
//! A step integrates every dynamic body under gravity (semi-implicit Euler
//! on saturating fixed-point coordinates) and then resolves its contacts
//! against the static half-planes of the world, in arena order. Static
//! bodies are never moved by a step. All of it is stated exactly by
//! `step_spec`, so a step is a pure function of the previous world state
//! and the time delta: stepping is deterministic.

use vstd::prelude::*;
use crate::vec2::{sat, v_add, v_scale, Vec2};
use crate::body::{body_of_desc, is_static_plane, Body, BodyDesc, BodyKind, PlaneFacing, Shape};

verus! {

/// Semi-implicit Euler integration of one body over `dt`: a static body is
/// untouched; a dynamic body first gains `gravity * dt` of velocity, then
/// moves by the new velocity times `dt`.
pub open spec fn integrate_spec(b: Body, g: Vec2, dt: int) -> Body {
    if b.kind is Dynamic {
        let vel = v_add(b.vel, v_scale(g, dt));
        let pos = v_add(b.pos, v_scale(vel, dt));
        Body { pos, vel, ..b }
    } else {
        b
    }
}

/// Contact resolution of a box body against one obstacle: if `p` is a static
/// half-plane and `b` a box that penetrates it, `b` is pushed back flush to
/// the plane and the velocity component into the plane is cancelled
/// (fully inelastic contact). Anything else leaves `b` unchanged.
pub open spec fn clamp_plane(b: Body, p: Body) -> Body {
    if is_static_plane(p) {
        match (p.shape, b.shape) {
            (Shape::Plane { facing, offset }, Shape::Cuboid { half_extents }) => match facing {
                PlaneFacing::Up => {
                    if b.pos.y + half_extents.y > offset {
                        Body {
                            pos: Vec2 { x: b.pos.x, y: sat(offset - half_extents.y) as i64 },
                            vel: Vec2 { x: b.vel.x, y: if b.vel.y > 0 { 0 } else { b.vel.y } },
                            ..b
                        }
                    } else {
                        b
                    }
                },
                PlaneFacing::Down => {
                    if b.pos.y - half_extents.y < offset {
                        Body {
                            pos: Vec2 { x: b.pos.x, y: sat(offset + half_extents.y) as i64 },
                            vel: Vec2 { x: b.vel.x, y: if b.vel.y < 0 { 0 } else { b.vel.y } },
                            ..b
                        }
                    } else {
                        b
                    }
                },
                PlaneFacing::Left => {
                    if b.pos.x + half_extents.x > offset {
                        Body {
                            pos: Vec2 { x: sat(offset - half_extents.x) as i64, y: b.pos.y },
                            vel: Vec2 { x: if b.vel.x > 0 { 0 } else { b.vel.x }, y: b.vel.y },
                            ..b
                        }
                    } else {
                        b
                    }
                },
                PlaneFacing::Right => {
                    if b.pos.x - half_extents.x < offset {
                        Body {
                            pos: Vec2 { x: sat(offset + half_extents.x) as i64, y: b.pos.y },
                            vel: Vec2 { x: if b.vel.x < 0 { 0 } else { b.vel.x }, y: b.vel.y },
                            ..b
                        }
                    } else {
                        b
                    }
                },
            },
            _ => b,
        }
    } else {
        b
    }
}

/// Resolve `b` against the first `n` bodies of the arena, in order.
pub open spec fn resolve_spec(b: Body, bodies: Seq<Body>, n: int) -> Body
    decreases n,
{
    if n <= 0 {
        b
    } else {
        clamp_plane(resolve_spec(b, bodies, n - 1), bodies[n - 1])
    }
}

/// What one step does to one body: integrate it if dynamic, then resolve it
/// against every static plane of the (pre-step) arena. A zero delta is a
/// full no-op: neither integration nor contact resolution runs, so no body
/// moves at all.
pub open spec fn step_body_spec(b: Body, bodies: Seq<Body>, g: Vec2, dt: int) -> Body {
    if b.kind is Dynamic && dt != 0 {
        resolve_spec(integrate_spec(b, g, dt), bodies, bodies.len() as int)
    } else {
        b
    }
}

/// One simulation step of the whole arena.
pub open spec fn step_spec(bodies: Seq<Body>, g: Vec2, dt: int) -> Seq<Body> {
    Seq::new(bodies.len(), |i: int| step_body_spec(bodies[i], bodies, g, dt))
}

/// An impulse is an instantaneous velocity change on a dynamic body; on a
/// static body it is silently ignored.
pub open spec fn impulse_body_spec(b: Body, v: Vec2) -> Body {
    if b.kind is Dynamic {
        Body { vel: v_add(b.vel, v), ..b }
    } else {
        b
    }
}

/// The arena after an impulse on the body at handle `h`.
pub open spec fn apply_impulse_spec(bodies: Seq<Body>, h: int, v: Vec2) -> Seq<Body> {
    bodies.update(h, impulse_body_spec(bodies[h], v))
}

/// A relative translation of one body's pose, independent of its kind
/// (explicit repositioning, as at creation time).
pub open spec fn translate_body_spec(b: Body, offset: Vec2) -> Body {
    Body { pos: v_add(b.pos, offset), ..b }
}

/// What the rendering layer gets for one body: a box as position plus
/// half-extents, a half-plane as its facing and offset (typically not
/// drawn). The query is exhaustive over shape kinds, so nothing can crash
/// on an unknown shape; a renderer is free to skip variants it cannot draw.
#[derive(Clone, Copy, PartialEq, Eq, Structural, Debug)]
pub enum RenderData {
    Rect { position: Vec2, half_extents: Vec2 },
    Surface { facing: PlaneFacing, offset: i64, position: Vec2 },
}

/// The render data of a body, as a pure function of the body alone.
pub open spec fn render_data_spec(b: Body) -> RenderData {
    match b.shape {
        Shape::Cuboid { half_extents } => RenderData::Rect { position: b.pos, half_extents },
        Shape::Plane { facing, offset } => RenderData::Surface { facing, offset, position: b.pos },
    }
}

/// A handle to one rigid body: an index into the arena of the world that
/// created it. The world is the sole owner of body state; a block is a
/// lightweight back-reference, valid as long as that world exists (bodies
/// are never removed).
#[derive(Clone, Copy, PartialEq, Eq, Structural, Debug)]
pub struct Block {
    pub handle: usize,
}

/// The simulation container: a dense arena of bodies and the global
/// gravity vector.
pub struct World {
    pub bodies: Vec<Body>,
    pub gravity: Vec2,
}

/// Resolution never touches a body's kind, shape or material parameters:
/// only pose and velocity change.
pub proof fn lemma_resolve_keeps_meta(b: Body, bodies: Seq<Body>, n: int)
    ensures
        resolve_spec(b, bodies, n).kind == b.kind,
        resolve_spec(b, bodies, n).shape == b.shape,
        resolve_spec(b, bodies, n).mass == b.mass,
        resolve_spec(b, bodies, n).friction == b.friction,
        resolve_spec(b, bodies, n).restitution == b.restitution,
    decreases n,
{
    if n > 0 {
        lemma_resolve_keeps_meta(b, bodies, n - 1);
    }
}

/// A step never touches a body's kind, shape or material parameters.
pub proof fn lemma_step_body_keeps_meta(b: Body, bodies: Seq<Body>, g: Vec2, dt: int)
    ensures
        step_body_spec(b, bodies, g, dt).kind == b.kind,
        step_body_spec(b, bodies, g, dt).shape == b.shape,
        step_body_spec(b, bodies, g, dt).mass == b.mass,
        step_body_spec(b, bodies, g, dt).friction == b.friction,
        step_body_spec(b, bodies, g, dt).restitution == b.restitution,
{
    if b.kind is Dynamic {
        lemma_resolve_keeps_meta(integrate_spec(b, g, dt), bodies, bodies.len() as int);
    }
}

impl Block {
    /// Register a new rigid body with the world and return its handle.
    /// The body starts at the origin with zero velocity; reposition it with
    /// `World::append_translation`.
    pub fn new(desc: BodyDesc, physics_world: &mut World) -> (b: Block)
        ensures
            final(physics_world).gravity == old(physics_world).gravity,
            final(physics_world).bodies@ == old(physics_world).bodies@.push(body_of_desc(desc)),
            b.handle == old(physics_world).bodies@.len(),
    {
        let handle = physics_world.bodies.len();
        let zero = Vec2::zero();
        physics_world.bodies.push(Body {
            kind: desc.kind,
            shape: desc.shape,
            mass: desc.mass,
            friction: desc.friction,
            restitution: desc.restitution,
            pos: zero,
            vel: zero,
        });
        Block { handle }
    }
}

/// Exact executable mirror of `clamp_plane`.
fn clamp_against(b: Body, p: Body) -> (r: Body)
    ensures
        r == clamp_plane(b, p),
{
    if !(matches!(p.kind, BodyKind::Static)) {
        return b;
    }
    match (p.shape, b.shape) {
        (Shape::Plane { facing, offset }, Shape::Cuboid { half_extents }) => match facing {
            PlaneFacing::Up => {
                if (b.pos.y as i128) + (half_extents.y as i128) > offset as i128 {
                    Body {
                        pos: Vec2 { x: b.pos.x, y: crate::vec2::sat_sub(offset, half_extents.y) },
                        vel: Vec2 { x: b.vel.x, y: if b.vel.y > 0 { 0 } else { b.vel.y } },
                        ..b
                    }
                } else {
                    b
                }
            },
            PlaneFacing::Down => {
                if (b.pos.y as i128) - (half_extents.y as i128) < offset as i128 {
                    Body {
                        pos: Vec2 { x: b.pos.x, y: crate::vec2::sat_add(offset, half_extents.y) },
                        vel: Vec2 { x: b.vel.x, y: if b.vel.y < 0 { 0 } else { b.vel.y } },
                        ..b
                    }
                } else {
                    b
                }
            },
            PlaneFacing::Left => {
                if (b.pos.x as i128) + (half_extents.x as i128) > offset as i128 {
                    Body {
                        pos: Vec2 { x: crate::vec2::sat_sub(offset, half_extents.x), y: b.pos.y },
                        vel: Vec2 { x: if b.vel.x > 0 { 0 } else { b.vel.x }, y: b.vel.y },
                        ..b
                    }
                } else {
                    b
                }
            },
            PlaneFacing::Right => {
                if (b.pos.x as i128) - (half_extents.x as i128) < offset as i128 {
                    Body {
                        pos: Vec2 { x: crate::vec2::sat_add(offset, half_extents.x), y: b.pos.y },
                        vel: Vec2 { x: if b.vel.x < 0 { 0 } else { b.vel.x }, y: b.vel.y },
                        ..b
                    }
                } else {
                    b
                }
            },
        },
        _ => b,
    }
}

impl World {
    /// An empty world with zero gravity.
    pub fn new() -> (w: World)
        ensures
            w.bodies@ == Seq::<Body>::empty(),
            w.gravity == (Vec2 { x: 0i64, y: 0i64 }),
    {
        World { bodies: Vec::new(), gravity: Vec2::zero() }
    }

    /// Set the global gravity vector; the body set is untouched.
    pub fn set_gravity(&mut self, g: Vec2)
        ensures
            final(self).gravity == g,
            final(self).bodies@ == old(self).bodies@,
    {
        self.gravity = g;
    }

    /// How many bodies the arena holds.
    pub fn num_bodies(&self) -> (n: usize)
        ensures
            n == self.bodies@.len(),
    {
        self.bodies.len()
    }

    /// Advance the whole world by `dt`, exactly as `step_spec` says:
    /// every dynamic body is integrated under gravity and resolved against
    /// the static planes; every static body keeps its pose and velocity.
    /// A zero delta is a valid no-op that moves nothing; a huge delta
    /// saturates, it never panics.
    pub fn step(&mut self, dt: i64)
        requires
            dt >= 0,
        ensures
            final(self).gravity == old(self).gravity,
            final(self).bodies@ == step_spec(old(self).bodies@, old(self).gravity, dt as int),
    {
        if dt == 0 {
            assert(self.bodies@ =~= step_spec(self.bodies@, self.gravity, 0));
            return ;
        }
        let ghost orig: Seq<Body> = self.bodies@;
        let g = self.gravity;
        let n = self.bodies.len();
        let mut i: usize = 0;
        while i < n
            invariant
                dt != 0,
                n == self.bodies@.len(),
                n == orig.len(),
                self.gravity == g,
                i <= n,
                forall|k: int| i <= k < n ==> self.bodies@[k] == orig[k],
                forall|k: int|
                    0 <= k < i ==> self.bodies@[k] == step_body_spec(orig[k], orig, g, dt as int),
            decreases n - i,
        {
            let b0 = self.bodies[i];
            if matches!(b0.kind, BodyKind::Dynamic) {
                let v1 = b0.vel.add(g.scale(dt));
                let p1 = b0.pos.add(v1.scale(dt));
                let mut nb = Body { pos: p1, vel: v1, ..b0 };
                assert(nb == integrate_spec(b0, g, dt as int));
                let mut j: usize = 0;
                while j < n
                    invariant
                        dt != 0,
                        n == self.bodies@.len(),
                        n == orig.len(),
                        self.gravity == g,
                        i < n,
                        b0 == orig[i as int],
                        forall|k: int| i <= k < n ==> self.bodies@[k] == orig[k],
                        forall|k: int|
                            0 <= k < i ==> self.bodies@[k] == step_body_spec(
                                orig[k],
                                orig,
                                g,
                                dt as int,
                            ),
                        j <= n,
                        nb == resolve_spec(integrate_spec(b0, g, dt as int), orig, j as int),
                    decreases n - j,
                {
                    let p = self.bodies[j];
                    proof {
                        if j < i {
                            lemma_step_body_keeps_meta(orig[j as int], orig, g, dt as int);
                        }
                    }
                    nb = clamp_against(nb, p);
                    assert(nb == resolve_spec(integrate_spec(b0, g, dt as int), orig, j + 1));
                    j = j + 1;
                }
                assert(nb == step_body_spec(orig[i as int], orig, g, dt as int));
                self.bodies[i] = nb;
            } else {
                assert(self.bodies@[i as int] == step_body_spec(orig[i as int], orig, g, dt as int));
            }
            i = i + 1;
        }
        assert(self.bodies@ =~= step_spec(orig, g, dt as int));
    }

    /// Add an instantaneous velocity-change impulse to the center of mass of
    /// the body behind `block`. On a static body this is a guarded no-op:
    /// nothing moves and nothing panics.
    pub fn apply_central_impulse(&mut self, block: &Block, impulse: Vec2)
        requires
            block.handle < old(self).bodies@.len(),
        ensures
            final(self).gravity == old(self).gravity,
            final(self).bodies@ == apply_impulse_spec(old(self).bodies@, block.handle as int, impulse),
    {
        let b = self.bodies[block.handle];
        if matches!(b.kind, BodyKind::Dynamic) {
            self.bodies[block.handle] = Body { vel: b.vel.add(impulse), ..b };
        }
        assert(self.bodies@ =~= apply_impulse_spec(
            old(self).bodies@,
            block.handle as int,
            impulse,
        ));
    }

    /// Translate the pose of the body behind `block` by `offset`,
    /// whatever its kind (explicit repositioning, as at creation).
    pub fn append_translation(&mut self, block: &Block, offset: Vec2)
        requires
            block.handle < old(self).bodies@.len(),
        ensures
            final(self).gravity == old(self).gravity,
            final(self).bodies@ == old(self).bodies@.update(
                block.handle as int,
                translate_body_spec(old(self).bodies@[block.handle as int], offset),
            ),
    {
        let b = self.bodies[block.handle];
        self.bodies[block.handle] = Body { pos: b.pos.add(offset), ..b };
    }

    /// Read the current shape parameters and pose of the body behind
    /// `block`, for rendering. Never mutates the body: the result is a pure
    /// function of the current world state, so two queries without an
    /// intervening step return the same data.
    pub fn query_render_data(&self, block: &Block) -> (r: RenderData)
        requires
            block.handle < self.bodies@.len(),
        ensures
            r == render_data_spec(self.bodies@[block.handle as int]),
    {
        let b = self.bodies[block.handle];
        match b.shape {
            Shape::Cuboid { half_extents } => RenderData::Rect { position: b.pos, half_extents },
            Shape::Plane { facing, offset } => RenderData::Surface {
                facing,
                offset,
                position: b.pos,
            },
        }
    }

    /// The current velocity of the body behind `block`.
    pub fn linear_velocity(&self, block: &Block) -> (v: Vec2)
        requires
            block.handle < self.bodies@.len(),
        ensures
            v == self.bodies@[block.handle as int].vel,
    {
        self.bodies[block.handle].vel
    }

    /// The current position of the body behind `block`.
    pub fn position(&self, block: &Block) -> (p: Vec2)
        requires
            block.handle < self.bodies@.len(),
        ensures
            p == self.bodies@[block.handle as int].pos,
    {
        self.bodies[block.handle].pos
    }
}

} // verus!
