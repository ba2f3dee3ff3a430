pub mod fixed;
pub mod vector;
pub mod rotation;
pub mod config;
pub mod input;
pub mod rocket;
pub mod orientation;
pub mod propulsion;
pub mod integrator;
pub mod simulation;
pub mod laws;
