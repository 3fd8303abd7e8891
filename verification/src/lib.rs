//! A particle swarm optimizer for the Rastrigin benchmark, verified.
//!
//! All real-valued quantities are fixed-point `i64` counts of millionths.
//! `fitness` holds the benchmark function, `model` the mathematical
//! transition functions and the laws proved of them, `swarm` the executable
//! engine proved to follow the model, and `rng` the trusted boundary to the
//! random number generator.

pub mod fitness;
pub mod model;
pub mod rng;
pub mod swarm;

pub use fitness::rastrigin;
pub use model::SwarmConfig;
pub use swarm::{init_swarm, Particle, ProgressRecord, Swarm};
