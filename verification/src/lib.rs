pub mod game_context;
pub mod laws;
pub mod point;
mod rng;
