pub mod collision;
pub mod config;
pub mod entities;
pub mod geom;
mod rng;
pub mod round;
pub mod session;
