pub mod border;
pub mod node;
pub mod tile;
pub mod tilemap2d;
