//! Data that the modes share.

use crate::models::baseline::BaselineData;
use vstd::prelude::*;

verus! {

/// Numbers and names that the modes share.
pub struct AppConstants;

impl AppConstants {
    pub const SOURCE_FOLDER_NAME: &'static str = "Source";

    pub const DEFAULT_OUTPUT_FILE_NAME: &'static str = "Output";

    /// The synchronisation code with which every line begins.
    pub const HEADER_START: &'static str = "E225";

    /// Bytes of one line of observation mode.
    pub const PACKET_LENGTH: usize = 256;

    /// Digits of one line of observation mode.
    pub const PACKET_HEX_LENGTH: usize = 512;

    /// Digits of one segment of flux and calibration mode.
    pub const SEGMENT_HEX_LENGTH: usize = 4128;

    /// Bytes of a line before its first particle.
    pub const HEADER_OFFSET: usize = 16;

    /// Particles in one line.
    pub const PARTICLES_PER_LINE: usize = 5;

    /// Bytes of one particle.
    pub const PARTICLE_DATA_LENGTH: usize = 34;

    /// Channels of a detector layer.
    pub const CHANNELS_PER_LAYER: usize = 16;

    pub const CHART_X_MIN: i32 = 0;

    pub const CHART_X_MAX_DSSD: i32 = 16384;

    pub const CHART_X_MAX_BGO: i32 = 4095;

    pub const DATE_TIME_FORMAT: &'static str = "%Y-%m-%d %H:%M:%S";
}

/// The outcome of a check that every line of a file begins with the
/// synchronisation code.
#[derive(Debug, Clone, Default)]
pub struct HeaderValidationResult {
    pub is_valid: bool,
    pub error_message: Option<String>,
    pub error_line: i32,
    pub error_content: Option<String>,
    /// The first line that is not empty, where all is well.
    pub first_header_content: Option<String>,
    pub filtered_file_path: Option<String>,
}

/// What the outcome of a header check says.
pub struct HeaderValidationView {
    pub is_valid: bool,
    pub error_message: Option<Seq<char>>,
    pub error_line: int,
    pub error_content: Option<Seq<char>>,
    pub first_header_content: Option<Seq<char>>,
    pub filtered_file_path: Option<Seq<char>>,
}

/// What an optional text says.
pub open spec fn option_text(s: Option<String>) -> Option<Seq<char>> {
    match s {
        Some(t) => Some(t@),
        None => None,
    }
}

impl View for HeaderValidationResult {
    type V = HeaderValidationView;

    open spec fn view(&self) -> HeaderValidationView {
        HeaderValidationView {
            is_valid: self.is_valid,
            error_message: option_text(self.error_message),
            error_line: self.error_line as int,
            error_content: option_text(self.error_content),
            first_header_content: option_text(self.first_header_content),
            filtered_file_path: option_text(self.filtered_file_path),
        }
    }
}

/// New samples to plot.
#[derive(Debug, Clone)]
pub struct PlotUpdateEvent {
    pub data: Vec<BaselineData>,
}

} // verus!
