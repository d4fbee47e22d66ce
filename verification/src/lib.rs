//! Measurement engine for core-to-core latency: the clock and its calibration,
//! thread pinning, the four two-thread protocols, and the sampling harness that
//! fills the measurement tensor.

#![allow(deprecated)]

pub mod affinity;
pub mod args;
pub mod bench;
pub mod clock;
pub mod sample;
pub mod sync;
pub mod tensor;
pub mod utils;
