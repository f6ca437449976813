//! Observation mode: particle frames.

pub mod data_processor;
pub mod event_laws;
pub mod frame;
pub mod header_text;
pub mod histogram;
pub mod histogram_laws;
pub mod laws;
pub mod line_laws;
pub mod particle;
pub mod progress;
pub mod spectrum_laws;
pub mod tail_fields;
