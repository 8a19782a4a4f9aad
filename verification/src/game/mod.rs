//! Game-loop decisions that do not depend on floating point: scheduling of
//! suspended scripts and the integer rules of the simulation.
pub mod progress;
pub mod rules;
pub mod scheduler;
