//! Ant colony optimisation over fixed-point quantities.
//!
//! Coordinates, distances, pheromone levels and resource amounts are held as
//! integers in millionths of a unit (see [`geometry::SCALE`]); rates are held
//! in parts per million.

pub mod geometry;
pub mod pheromone;
pub mod selection;
pub mod tour;
pub mod colony;
pub mod forage;
pub mod simulation;
pub mod engine;
pub mod grid;
pub mod steering;
