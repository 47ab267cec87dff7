pub mod resource;
