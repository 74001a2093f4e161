//! A watercolor painting simulation on a fixed-resolution grid, fully
//! verified: pigment suspended in a thin water film advects, diffuses,
//! evaporates and deposits onto a textured paper substrate, and is
//! composited into a displayable RGBA image after every simulation step.
//!
//! All quantities are Q16.16 fixed-point integers (`fx::ONE` is 1.0), so
//! every per-cell update is an exact, deterministic function of the prior
//! state, and the contracts below state precisely which function.

pub mod brush;
pub mod engine;
pub mod fx;
pub mod laws;
pub mod model;
pub mod paper;
pub mod params;
pub mod render;
pub mod sim;
pub mod stroke;
pub mod trig;

pub use engine::WatercolorEngine;
