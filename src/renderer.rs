pub mod border;
pub mod edge;
pub mod node;
pub mod style;
pub mod top_down;
pub mod view;
