pub mod side;
pub mod size2d;
pub mod point2d;
pub mod color;
