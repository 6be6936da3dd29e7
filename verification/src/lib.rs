//! Game rules of a first-person maze shooter: maze grids read from text,
//! combat counters and timers, enemy state, texture lookups, menu navigation
//! and the screen flow. Geometry and drawing live with the caller.

pub mod caster;
pub mod maze;
pub mod color;
pub mod sprites;
pub mod combat;
pub mod textures;
pub mod input;
pub mod render;
pub mod hud;
pub mod game;
pub mod framebuffer;
