//! ExPlane: a 2D rigid-body sandbox, verified.
//!
//! A world owns a dense arena of rigid bodies (static planes, dynamic boxes)
//! in saturating fixed-point coordinates; blocks are handles into that arena.
//! The step driver advances every dynamic body under gravity and resolves
//! contacts against static planes; a query layer reads back shape and pose
//! for rendering, and a pressed-key set maps held directions to impulses on
//! the player block.

pub mod body;
pub mod driver;
pub mod input;
pub mod laws;
pub mod vec2;
pub mod world;
