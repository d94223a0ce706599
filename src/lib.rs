pub mod config;
pub mod emit;
pub mod plan;
pub mod session;
pub mod target;
