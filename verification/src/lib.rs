//! A first-person maze exploration engine: a character-grid dungeon rendered
//! in pseudo-3D by a CPU ray caster, with textured walls, billboard sprites
//! merged through a per-column depth buffer, a minimap, HUD and notifications.
//!
//! World lengths are fixed-point integers at `SUB` subunits per world unit,
//! angles are integer binary angular measure (`angle` module), and brightness
//! factors are per-mille (`render` module). All rendering writes into the
//! in-memory `Framebuffer`; window, audio and file plumbing live outside the
//! library and hand it plain values.

pub mod angle;
pub mod audio;
pub mod caster;
pub mod cells;
pub mod collision;
pub mod framebuffer;
pub mod game_state;
pub mod maze;
pub mod notification;
pub mod num;
pub mod player;
pub mod render;
pub mod shapes;
pub mod sprite_manager;
pub mod texture_manager;
pub mod ui;

use vstd::prelude::*;

verus! {

/// Subunits per world unit: every world-space length in this crate
/// (positions, distances, cell sizes) is measured in halves of a world unit,
/// so that the ray-march step of 1.5 world units is the integer 3.
pub const SUB: i64 = 2;

} // verus!
