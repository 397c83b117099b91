pub mod geometry;
pub mod paddle;
pub mod ball;
pub mod world;
pub mod timestep;
pub mod game;
