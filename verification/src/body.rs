//! Rigid-body records.
//!
//! A body is a plain record: shape, kinematic kind, material parameters, and
//! the current pose (position) and velocity. The world owns every body; the
//! rest of the system refers to one only through a `Block` handle.

use vstd::prelude::*;
use crate::vec2::Vec2;

verus! {

/// Which way a static half-plane faces (the side its normal points to);
/// `y` grows downward, so an `Up`-facing plane has its solid side below.
#[derive(Clone, Copy, PartialEq, Eq, Structural, Debug)]
pub enum PlaneFacing {
    Up,
    Down,
    Left,
    Right,
}

/// Shape descriptor: an axis-aligned box given by its half-extents, or an
/// axis-aligned half-plane given by its facing and offset along that axis.
#[derive(Clone, Copy, PartialEq, Eq, Structural, Debug)]
pub enum Shape {
    Cuboid { half_extents: Vec2 },
    Plane { facing: PlaneFacing, offset: i64 },
}

/// Kinematic kind: a static body never moves under simulation forces; a
/// dynamic body is integrated every step.
#[derive(Clone, Copy, PartialEq, Eq, Structural, Debug)]
pub enum BodyKind {
    Static,
    Dynamic,
}

/// What a caller submits to register a new body: shape, kind and material
/// parameters. Pose and velocity start at zero and are set afterwards by
/// repositioning and by the simulation itself.
///
/// The material parameters (`mass`, `friction`, `restitution`) are carried
/// on the record for its description but are inert: no spec function reads
/// them, impulses change velocity directly, and contact resolution is fully
/// inelastic whatever `restitution` holds.
#[derive(Clone, Copy, PartialEq, Eq, Structural, Debug)]
pub struct BodyDesc {
    pub kind: BodyKind,
    pub shape: Shape,
    pub mass: i64,
    pub friction: i64,
    pub restitution: i64,
}

/// One rigid body as stored in the world's arena. Only `kind`, `shape`,
/// `pos` and `vel` take part in the simulation; the material parameters are
/// carried unchanged and unread (see `BodyDesc`).
#[derive(Clone, Copy, PartialEq, Eq, Structural, Debug)]
pub struct Body {
    pub kind: BodyKind,
    pub shape: Shape,
    pub mass: i64,
    pub friction: i64,
    pub restitution: i64,
    pub pos: Vec2,
    pub vel: Vec2,
}

/// The body a fresh description denotes: pose and velocity at the origin.
pub open spec fn body_of_desc(d: BodyDesc) -> Body {
    Body {
        kind: d.kind,
        shape: d.shape,
        mass: d.mass,
        friction: d.friction,
        restitution: d.restitution,
        pos: Vec2 { x: 0, y: 0 },
        vel: Vec2 { x: 0, y: 0 },
    }
}

/// A body is an obstacle for contact resolution exactly when it is a static
/// half-plane.
pub open spec fn is_static_plane(b: Body) -> bool {
    b.kind is Static && b.shape is Plane
}

} // verus!
