//! A UAV physical-layout and perception-decision library.
//!
//! The crate models a UAV's component placement as a connection graph,
//! derives communication latency and reliability from link physics,
//! scores electromagnetic interference between components, predicts the
//! operating environment with a Markov model, and runs an
//! observe-orient-decide-act control cycle on top of those models.
//!
//! All physical quantities are carried as scaled integers: lengths in
//! micrometers, per-centimeter latencies in picoseconds, probabilities in
//! parts per million, reliabilities in parts per trillion, power in
//! milliwatts or nanowatts. Every contract is stated over those units.

pub mod clock;
pub mod comms;
pub mod dds;
pub mod engine;
pub mod flight;
pub mod fog;
pub mod interference;
pub mod layouts;
pub mod markov;
pub mod math;
pub mod models;
pub mod ooda;
pub mod payload;
pub mod rng;
pub mod sensor;
pub mod topology;
pub mod tta;

pub use math::isqrt;
