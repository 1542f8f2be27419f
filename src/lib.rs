//! Frame-loop orchestration for an iterative image-growth simulation.
//!
//! The library holds the decisions of the simulation: the raster types, the
//! growth engine's per-frame state machine, the turn-taking handoff of the
//! latest canvas to a display consumer, and the supervisor's restart policy.
//! The accelerator kernel, the threads and the devices stay with the caller,
//! which hands the library plain values and performs the actions it returns.

pub mod common;
pub mod plane;
pub mod raster;
pub mod rgba;
pub mod camera;
pub mod engine;
pub mod random;
pub mod handoff;
pub mod supervisor;
pub mod tracer;
