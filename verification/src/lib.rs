//! Runtime core of a 2D tile-map engine: palette-indexed textures, the tile
//! catalog and map model with their rotation and flip encoding, scripted
//! objects, and the per-frame movement rules.
//!
//! The functions carry contracts that Verus proves. The few calls into
//! outside crates stand behind small wrappers whose contracts are taken on
//! trust; each says so where it stands.

pub mod animation;
pub mod arith;
pub mod controls;
pub mod graphics;
pub mod map;
pub mod movement;
pub mod names;
pub mod object;
pub mod orientation;
pub mod palette;
pub mod script;
pub mod text;
pub mod texture;
pub mod tiles;
