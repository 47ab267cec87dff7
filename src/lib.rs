//! A rectangular grid of tiles with walls between them, the resolution of the
//! visible wall style at every grid corner, and the geometry to draw the grid
//! from the top, in a 3/4 view and isometrically.

pub mod math;
pub mod tilemap;
pub mod renderer;
pub mod utils;
pub mod port;
pub mod svg;
