//! Core logic of a cursor-chasing snake game.
//!
//! The snake is an ordered chain of nodes that follows the player's pointer,
//! is clamped to a bordered arena, and grows in power by eating food that a
//! periodic timer spawns.  All geometry is carried in fixed-point arithmetic:
//! one pixel is `geom::UNIT` units, so positions, lengths and velocities are
//! plain integers and every update step is verified exactly, down to the
//! rounding of the integer square root and to the saturation of coordinates
//! at the ends of their range.  Rendering and windowing are left to the
//! surrounding application.

pub mod geom;
pub mod arena;
pub mod food;
pub mod snake;
pub mod game;
mod rng;
