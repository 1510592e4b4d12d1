pub mod arena;
pub mod bullet;
pub mod cannon;
pub mod geometry;
pub mod grid;
pub mod plinko;
pub mod puck;
mod random;
