//! Decoding of the MATCH DSSD/BGO detector's raw data files.

pub mod agreement;
pub mod baseline_data_table;
pub mod baseline_laws;
pub mod baseline_mode;
pub mod baseline_processing;
pub mod baseline_run;
pub mod baseline_session;
pub mod calibration;
pub mod calibration_mode;
pub mod calibration_session;
pub mod clock;
pub mod columns;
pub mod decimal;
pub mod fit_overlay;
pub mod flux;
pub mod flux_mode;
pub mod flux_session;
pub mod hex;
pub mod io;
pub mod json_view;
pub mod line;
pub mod lines;
pub mod math;
pub mod models;
pub mod observation;
pub mod observation_mode;
pub mod observation_session;
pub mod packet_laws;
pub mod panel;
pub mod plot_export;
pub mod plot_laws;
pub mod reading_laws;
pub mod segment_session;
pub mod series;
pub mod session_laws;
pub mod table;
pub mod table_laws;
pub mod tail;
pub mod text;
pub mod text_laws;
pub mod view_laws;
pub mod wire;
