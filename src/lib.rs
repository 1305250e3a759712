pub mod entities;
pub mod geometry;
pub mod laws;
pub mod model;
pub mod spawn;
pub mod world;
