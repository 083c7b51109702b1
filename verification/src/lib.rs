//! The discrete core of a flocking ("boids") simulation.
//!
//! Every tick, each agent of a flock is steered by three rules: separation
//! pushes it away from agents that crowd it, alignment turns it toward the
//! mean velocity of the agents it sees, and cohesion draws it toward their
//! centroid. An integrator then adds the corrections to the velocity, keeps
//! the speed in a band, and moves the agent.
//!
//! This crate holds what in that pipeline is decided rather than calculated:
//! which pairs of agents act on each other, how many neighbours each agent
//! has, when a correction is made and when it is left out, how the speed is
//! regulated, and in which order the systems of a tick run. Numbers are
//! IEEE-754 single-precision bit patterns ([`scalar::Scalar`]); they are
//! compared here and never calculated with. The vector arithmetic between
//! the decisions is the caller's.

pub mod alignment;
pub mod cohesion;
pub mod control;
pub mod distances;
pub mod integrator;
pub mod neighborhood;
pub mod scalar;
pub mod schedule;
pub mod separation;
pub mod tick;
pub mod vector;

pub use alignment::{calculate_alignment, clear_alignment, Alignment, AlignmentPlugin};
pub use cohesion::{calculate_cohesion, clear_cohesion, Cohesion, CohesionPlugin};
pub use control::BoidControl;
pub use distances::DistanceTable;
pub use integrator::{apply_forces, SpeedAdjustment, Stage, Step};
pub use scalar::Scalar;
pub use schedule::{ForceCalculationSystemSet, Schedule, System};
pub use separation::{calculate_separation, clear_separation, Separation, SeparationPlugin};
pub use tick::tick_schedule;
pub use vector::Vector;
