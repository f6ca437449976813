//! What files hold.

pub mod baseline_file_service;
pub mod excel;
pub mod file_helper;
pub mod header_validator;
pub mod laws;
pub mod regex_patterns;
pub mod segment_filter;
