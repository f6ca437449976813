//! The data that the modes hold.

pub mod baseline;
pub mod flux;
pub mod observation;
pub mod shared;
