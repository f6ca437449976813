//! Calibration mode.

pub mod data_processor;
pub mod laws;
pub mod processing;
