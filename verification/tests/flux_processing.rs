use baseline_core::flux::processing::{
    get_date_time_from_hex, process_header_internal, FluxAccumulator,
};

#[test]
fn process_flux_observation_rejects_undersized_input() {
    let mut acc = FluxAccumulator::default();
    assert!(!acc.process_flux_observation("00"));
    assert!(acc.all_results.is_empty());
}

#[test]
fn process_flux_observation_parses_minimal_valid_packet() {
    let mut acc = FluxAccumulator::default();
    let hex = "0".repeat(4064);
    assert!(acc.process_flux_observation(&hex));
    assert_eq!(acc.all_results.len(), 1);
    assert_eq!(acc.all_results[0].time_millis as f64 / 1000.0, 0.0);
}

#[test]
fn process_header_internal_rejects_undersized_input() {
    let hex_data = vec!["00".to_string(); 10];
    assert!(process_header_internal(&hex_data).is_none());
}

#[test]
fn time_of_a_short_text_is_zero() {
    assert_eq!(get_date_time_from_hex("00"), 0);
}
