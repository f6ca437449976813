use baseline_core::clock::{observation_epoch, observation_time};
use baseline_core::line::{parse_line_header_fields, split_hex_data};
use baseline_core::observation::data_processor::ObservationDataProcessor;
use baseline_core::observation::frame::{
    frame_from_nibbles, get_date_time_from_bytes, hex_nibble, normalize_hex_nibbles,
    parse_header_bytes, scan_frames, valid_detector_nibbles, valid_header_bytes,
    valid_header_nibbles,
};
use baseline_core::observation::histogram::{
    axis_name, bgo_layer_name, gain_name, histogram_of_i32, histogram_of_values, layer_name,
    strip_name,
};
use baseline_core::models::observation::{BgoLayer, DetectorLayer};
use baseline_core::observation::progress::{count_bytes, ByteProgress};
use baseline_core::observation::tail_fields::{
    line_tail_fields, parse_line_tail_fields, parse_line_tail_fields_from_bytes,
};

const HEADER_OFFSET: usize = 16;
const PARTICLE_DATA_LENGTH: usize = 34;
const PARTICLES_PER_LINE: usize = 5;
const FRAME_SIZE: usize = 256;
const DSSD_HISTOGRAM_SIZE: usize = 16384;
const BGO_HISTOGRAM_SIZE: usize = 4096;
const MODERN_PACKET_LENGTH: u16 = 0x00F7;
const LEGACY_PACKET_LENGTH: u16 = 0x002D;

fn set_u16(bytes: &mut [u8], index: usize, value: u16) {
    let [high, low] = value.to_be_bytes();
    bytes[index] = high;
    bytes[index + 1] = low;
}

fn packet_frame(
    package_id: u16,
    packet_data_length: u16,
    data_type: u16,
    invalid_particle: Option<usize>,
) -> Vec<u8> {
    let mut bytes = vec![0u8; FRAME_SIZE];
    bytes[0] = 0xE2;
    bytes[1] = 0x25;
    set_u16(&mut bytes, 2, package_id);
    set_u16(&mut bytes, 4, 1);
    set_u16(&mut bytes, 6, packet_data_length);
    set_u16(&mut bytes, 14, data_type);

    for particle in 0..PARTICLES_PER_LINE {
        let start = HEADER_OFFSET + particle * PARTICLE_DATA_LENGTH;
        bytes[start + 2] = 0x11;
        bytes[start + 7] = 0x11;
        bytes[start + 24] = 0x11;
        bytes[start + 29] = 0x11;
        set_u16(&mut bytes, start + 3, 100 + particle as u16);
        set_u16(&mut bytes, start + 5, 200 + particle as u16);
        set_u16(&mut bytes, start + 12, 4095);
        set_u16(&mut bytes, start + 14, 100);
        set_u16(&mut bytes, start + 16, 300);
        set_u16(&mut bytes, start + 18, 100);
        set_u16(&mut bytes, start + 20, 500);
        set_u16(&mut bytes, start + 22, 100);
    }
    if let Some(particle) = invalid_particle {
        bytes[HEADER_OFFSET + particle * PARTICLE_DATA_LENGTH + 2] = 0x99;
    }
    bytes
}

fn hex_text(bytes: &[u8]) -> String {
    bytes.iter().map(|byte| format!("{byte:02X}")).collect()
}

fn nibble_spaced_hex_text(bytes: &[u8]) -> String {
    bytes
        .iter()
        .map(|byte| format!("{:X} \n {:X} ", byte >> 4, byte & 0x0F))
        .collect()
}

#[test]
fn process_files_keeps_first_packet_and_file_order() {
    let mut first = [
        packet_frame(1, MODERN_PACKET_LENGTH, 0x00AD, None),
        packet_frame(2, LEGACY_PACKET_LENGTH, 0x00AD, None),
    ]
    .concat();
    first[16] = 0x03;
    first[17] = 0xE8;
    first[186] = 0x2A;
    first[242] = 0xAB;
    first[243] = 0xCD;
    first[254] = 0x12;
    first[255] = 0x34;
    let second = packet_frame(3, MODERN_PACKET_LENGTH, 0x00AD, None);
    let order_a = format!("{}\n", hex_text(&first)).into_bytes();
    let order_b = nibble_spaced_hex_text(&second).into_bytes();

    let mut processor = ObservationDataProcessor::new();
    processor.process_files(&[order_a, order_b]);

    assert_eq!(processor.results.len(), PARTICLES_PER_LINE * 3);
    assert_eq!(
        processor
            .results
            .iter()
            .map(|result| result.package_id)
            .collect::<Vec<_>>(),
        vec![1, 1, 1, 1, 1, 2, 2, 2, 2, 2, 3, 3, 3, 3, 3]
    );
    assert_eq!(
        processor.results[0].dssd_pulses,
        [(100, 200), (0, 0), (0, 0), (0, 0)]
    );
    assert_eq!(
        processor.results[0].bgo_pulses,
        [(4095, 100), (300, 100), (500, 100)]
    );
    assert_eq!(processor.results[0].particle_time_raw, 1000);
    assert_eq!(processor.results[0].milliseconds, 1);
    assert_eq!(processor.results[0].dssd_positions, [0x11, 0x11, 0x11, 0x11]);
    assert_eq!(processor.results[0].line_tail[0].text().unwrap(), "42");
    assert_eq!(
        processor.results[0].line_tail[30].text().unwrap(),
        "ABCD00000000000000000000"
    );
    assert_eq!(processor.results[0].line_tail[31].text().unwrap(), "1234");
    assert!(processor
        .results
        .iter()
        .take(PARTICLES_PER_LINE)
        .all(|result| std::sync::Arc::ptr_eq(&result.line_tail, &processor.results[0].line_tail)));
}

#[test]
fn odd_nibble_prefix_does_not_shift_later_frame() {
    let valid = packet_frame(9, MODERN_PACKET_LENGTH, 0x00AD, None);
    let odd_nibble = format!("A E2\nnot-hex\n{}", hex_text(&valid)).into_bytes();

    let mut processor = ObservationDataProcessor::new();
    processor.process_files(&[odd_nibble]);

    assert_eq!(processor.valid_packet_count(), 1);
    assert!(processor.results.iter().all(|result| result.package_id == 9));
}

#[test]
fn malformed_and_truncated_frames_resync_without_cross_file_join() {
    let mut malformed = packet_frame(10, MODERN_PACKET_LENGTH, 0x00AD, None);
    malformed.truncate(40);
    let valid = packet_frame(11, MODERN_PACKET_LENGTH, 0x00AD, None);
    let mut content = malformed;
    content.extend_from_slice(&valid);
    let resync = hex_text(&content).into_bytes();
    let truncated = hex_text(&valid[..40]).into_bytes();
    let first_half = hex_text(&valid[..100]).into_bytes();
    let second_half = hex_text(&valid[100..]).into_bytes();

    let mut processor = ObservationDataProcessor::new();
    processor.process_files(&[resync]);
    assert_eq!(processor.valid_packet_count(), 1);
    assert!(processor.results.iter().all(|result| result.package_id == 11));

    processor.process_files(&[truncated]);
    assert!(processor.results.is_empty());

    processor.process_files(&[first_half, second_half]);
    assert!(processor.results.is_empty());
}

#[test]
fn invalid_type_length_and_detector_are_rejected_without_partial_results() {
    let invalid_type = packet_frame(1, MODERN_PACKET_LENGTH, 0x00AE, None);
    let invalid_length = packet_frame(2, 0x1234, 0x00AD, None);
    let invalid_detector = packet_frame(3, MODERN_PACKET_LENGTH, 0x00AD, Some(2));
    let valid = packet_frame(4, LEGACY_PACKET_LENGTH, 0x00AD, None);
    let content = [invalid_type, invalid_length, invalid_detector, valid].concat();
    let invalid = hex_text(&content).into_bytes();

    let mut processor = ObservationDataProcessor::new();
    processor.process_files(&[invalid]);

    assert_eq!(processor.valid_packet_count(), 1);
    assert_eq!(processor.results.len(), PARTICLES_PER_LINE);
    assert!(processor.results.iter().all(|result| result.package_id == 4));
}

#[test]
fn histograms_use_dssd_and_bgo_channel_domains() {
    let frame = packet_frame(1, MODERN_PACKET_LENGTH, 0x00AD, None);
    let histogram = hex_text(&frame).into_bytes();

    let mut processor = ObservationDataProcessor::new();
    let histograms = processor.process_files(&[histogram]);
    let raw = processor.raw_histogram_data();

    assert_eq!(histograms.get("DSSDL1_X").unwrap().len(), DSSD_HISTOGRAM_SIZE);
    assert_eq!(histograms.get("BGOL3_High").unwrap().len(), BGO_HISTOGRAM_SIZE);
    assert_eq!(
        histograms.get("DSSDL1_X").unwrap()[100..105].iter().sum::<i32>(),
        PARTICLES_PER_LINE as i32
    );
    assert_eq!(
        histograms.get("BGOL3_High").unwrap()[4095],
        PARTICLES_PER_LINE as i32
    );
    assert_eq!(raw.get("DSSDL1_X").unwrap()[0], 0);
    assert_eq!(raw.get("BGOL3_High").unwrap()[0], 0);
}

#[test]
fn byte_progress_is_monotonic_and_reaches_total() {
    let frame = packet_frame(1, MODERN_PACKET_LENGTH, 0x00AD, None);
    let content = frame.repeat(300);
    let progress = hex_text(&content).into_bytes();

    let mut processor = ObservationDataProcessor::new();
    let (_, progress_values) = processor.process_files_with_progress(&[progress]);

    assert!(progress_values.len() >= 3);
    assert!(progress_values.windows(2).all(|window| window[0].0 <= window[1].0));
    let (_, total) = *progress_values.last().unwrap();
    assert_eq!(progress_values.last().unwrap().0, total);
    assert!(progress_values
        .iter()
        .any(|&(processed, total)| processed > 0 && processed < total));
    assert_eq!(processor.valid_packet_count(), 300);
}

#[test]
fn frames_are_read_whatever_stands_between_their_digits() {
    let frame = packet_frame(7, MODERN_PACKET_LENGTH, 0x00AD, None);
    let plain = hex_text(&frame);
    let spaced = nibble_spaced_hex_text(&frame);
    assert_eq!(scan_frames(plain.as_bytes()), vec![frame.clone()]);
    assert_eq!(scan_frames(spaced.as_bytes()), vec![frame.clone()]);
    assert_eq!(scan_frames(plain.to_lowercase().as_bytes()), vec![frame.clone()]);
    assert_eq!(scan_frames(format!("F{plain}").as_bytes()), vec![frame.clone()]);
    let twice = format!("{plain}xyz{plain}");
    assert_eq!(scan_frames(twice.as_bytes()), vec![frame.clone(), frame]);
    assert!(scan_frames(b"").is_empty());
}

#[test]
fn a_header_inside_a_frame_takes_its_place() {
    let outer = packet_frame(1, MODERN_PACKET_LENGTH, 0x00AD, None);
    let inner = packet_frame(2, MODERN_PACKET_LENGTH, 0x00AD, None);
    let mut content = outer[..64].to_vec();
    content.extend_from_slice(&inner);
    assert_eq!(scan_frames(hex_text(&content).as_bytes()), vec![inner]);
}

#[test]
fn nibbles_of_a_text() {
    assert_eq!(hex_nibble(b'0'), Some(0));
    assert_eq!(hex_nibble(b'9'), Some(9));
    assert_eq!(hex_nibble(b'a'), Some(10));
    assert_eq!(hex_nibble(b'F'), Some(15));
    assert_eq!(hex_nibble(b'g'), None);
    for byte in 0..=255u8 {
        let expected = (byte as char).to_digit(16).map(|d| d as u8);
        assert_eq!(hex_nibble(byte), expected);
    }
    assert_eq!(
        normalize_hex_nibbles(b"A \t\r\n\x0C1x"),
        vec![Some(10), Some(1), None]
    );
}

#[test]
fn headers_are_told_by_code_type_and_length() {
    let frame = packet_frame(5, LEGACY_PACKET_LENGTH, 0x00AD, None);
    assert!(valid_header_bytes(&frame));
    let nibbles = normalize_hex_nibbles(hex_text(&frame).as_bytes());
    assert!(valid_header_nibbles(&nibbles, 0));
    assert!(!valid_header_nibbles(&nibbles, 1));
    assert_eq!(frame_from_nibbles(&nibbles, 0), Some(frame.clone()));
    assert_eq!(frame_from_nibbles(&nibbles, 1), None);
    let header = parse_header_bytes(&frame).unwrap();
    assert_eq!(header.packet_sync, "E225");
    assert_eq!(header.package_id, 5);
    assert_eq!(header.packet_sequence, 1);
    assert_eq!(header.packet_data_length, 45);
    assert_eq!(header.data_type, "00AD");
    assert!(!valid_header_bytes(&packet_frame(5, 0x1234, 0x00AD, None)));
    assert!(!valid_header_bytes(&packet_frame(5, LEGACY_PACKET_LENGTH, 0x00AE, None)));
    assert!(parse_header_bytes(&frame[..15]).is_none());
}

#[test]
fn frame_times_start_in_october_2024() {
    let mut frame = packet_frame(5, LEGACY_PACKET_LENGTH, 0x00AD, None);
    assert_eq!(get_date_time_from_bytes(&frame), Ok(observation_epoch()));
    frame[11] = 2;
    frame[13] = 7;
    assert_eq!(get_date_time_from_bytes(&frame), Ok(1_727_740_800_000 + 2_007));
    assert_eq!(observation_time(2, 7), 1_727_740_800_000 + 2_007);
    assert!(get_date_time_from_bytes(&frame[..13]).is_err());
}

#[test]
fn detector_nibbles_go_up_to_eight() {
    let frame = packet_frame(5, LEGACY_PACKET_LENGTH, 0x00AD, None);
    let particle = &frame[16..50];
    assert!(valid_detector_nibbles(particle));
    for (index, value) in [(2, 0x90), (7, 0x09), (24, 0x99), (29, 0xA1)] {
        let mut bad = particle.to_vec();
        bad[index] = value;
        assert!(!valid_detector_nibbles(&bad));
    }
    let mut edge = particle.to_vec();
    edge[2] = 0x88;
    assert!(valid_detector_nibbles(&edge));
    assert!(!valid_detector_nibbles(&particle[..33]));
}

#[test]
fn tails_read_the_same_from_bytes_and_from_texts() {
    let mut frame = packet_frame(5, LEGACY_PACKET_LENGTH, 0x00AD, None);
    for (i, byte) in frame.iter_mut().enumerate().skip(186) {
        *byte = i as u8;
    }
    let from_bytes = parse_line_tail_fields_from_bytes(&frame);
    let from_texts = parse_line_tail_fields(&split_hex_data(&hex_text(&frame)));
    assert_eq!(from_bytes.len(), 32);
    assert_eq!(line_tail_fields().len(), 32);
    for (a, b) in from_bytes.iter().zip(&from_texts) {
        assert_eq!(a.text(), b.text());
        assert_eq!(a.reading(), b.reading());
    }
    assert_eq!(from_bytes[0].text().unwrap(), "186");
    assert_eq!(from_bytes[4].text().unwrap(), (190 * 256 + 191).to_string());
    assert_eq!(from_bytes[23].text(), None);
    assert_eq!(from_bytes[23].reading(), Some((228 * 256 + 229, false)));
    assert_eq!(from_bytes[26].reading(), Some((234 * 256 + 235, true)));
    assert_eq!(from_bytes[30].text().unwrap(), "F2F3F4F5F6F7F8F9FAFBFCFD");
    assert_eq!(from_bytes[31].text().unwrap(), "FEFF");
}

#[test]
fn zeros_are_dropped_from_the_main_histograms_only() {
    let frame = packet_frame(1, MODERN_PACKET_LENGTH, 0x00AD, None);
    let mut processor = ObservationDataProcessor::new();
    let normal = processor.process_files(&[hex_text(&frame).into_bytes()]);
    let raw = processor.raw_histogram_data();
    assert_eq!(normal.get("DSSDL2_X").unwrap()[0], 0);
    assert_eq!(raw.get("DSSDL2_X").unwrap()[0], 5);
    assert_eq!(normal.get("DSSDL2_StripX2").unwrap()[0], 5);
    assert_eq!(raw.get("DSSDL2_StripX2").unwrap()[0], 5);
    assert_eq!(normal.get("DSSDL2_StripX1").unwrap()[0], 0);
    assert_eq!(normal.get("DSSDL1_StripY2").unwrap()[204], 1);
    assert_eq!(normal.get("DSSDL2_StripX9"), None);
    assert_eq!(normal.entries.len(), 4 * 18 + 3 * 2);
    for layer in [DetectorLayer::L1, DetectorLayer::L2, DetectorLayer::L6, DetectorLayer::L7] {
        assert!(normal.get(&axis_name(layer, "_X")).is_some());
        assert!(normal.get(&strip_name(layer, "_StripY", 8)).is_some());
    }
    assert_eq!(axis_name(DetectorLayer::L6, "_Y"), "DSSDL6_Y");
    assert_eq!(strip_name(DetectorLayer::L7, "_StripX", 3), "DSSDL7_StripX3");
    assert_eq!(gain_name(BgoLayer::L4, "_Low"), "BGOL4_Low");
    assert_eq!(layer_name(DetectorLayer::L2), "L2");
    assert_eq!(bgo_layer_name(BgoLayer::L5), "L5");
    assert!(processor.histograms_fit());
}

#[test]
fn every_particle_leaves_one_value_on_every_list() {
    let mut first = packet_frame(5, LEGACY_PACKET_LENGTH, 0x00AD, None);
    first[HEADER_OFFSET + 2] = 0x80;
    first[HEADER_OFFSET + 7] = 0x08;
    let bad = packet_frame(6, LEGACY_PACKET_LENGTH, 0x00AD, Some(4));
    let contents = vec![hex_text(&first).into_bytes(), hex_text(&bad).into_bytes()];
    let mut processor = ObservationDataProcessor::new();
    processor.process_files(&contents);
    assert_eq!(processor.results.len(), 5);
    let dssd = &processor.dssd_data;
    for layer in [&dssd.l1, &dssd.l2, &dssd.l6, &dssd.l7] {
        assert_eq!(layer.pulse_height_x.len(), 5);
        assert_eq!(layer.pulse_height_y.len(), 5);
        assert_eq!(layer.strip_x.iter().map(|strip| strip.len()).sum::<usize>(), 5);
        assert_eq!(layer.strip_y.iter().map(|strip| strip.len()).sum::<usize>(), 5);
    }
    assert_eq!(dssd.l1.strip_x[0], vec![100]);
    assert_eq!(dssd.l1.strip_y[1], vec![200]);
    let bgo = &processor.bgo_data;
    for layer in [&bgo.l3, &bgo.l4, &bgo.l5] {
        assert_eq!(layer.high_gain.len(), 5);
        assert_eq!(layer.low_gain.len(), 5);
    }
}

#[test]
fn histograms_count_values_in_range() {
    assert_eq!(histogram_of_values(&[0, 1, 1, 3, 4, -1], 4, true), vec![0, 2, 0, 1]);
    assert_eq!(histogram_of_values(&[0, 1, 1, 3, 4, -1], 4, false), vec![1, 2, 0, 1]);
    assert_eq!(histogram_of_i32(&[0, 1, 1, 3, 4, -1], 4), vec![1, 2, 0, 1]);
}

#[test]
fn data_is_cleared_before_files_are_read() {
    let frame = packet_frame(1, MODERN_PACKET_LENGTH, 0x00AD, None);
    let content = hex_text(&frame).into_bytes();
    let mut processor = ObservationDataProcessor::new();
    processor.process_files(&[content.clone()]);
    processor.process_files(&[content.clone()]);
    assert_eq!(processor.valid_packet_count(), 1);
    processor.process_file_bytes(&content);
    assert_eq!(processor.valid_packet_count(), 2);
    assert_eq!(processor.results.len(), 10);
    assert_eq!(processor.get_histogram_data().get("DSSDL1_X").unwrap()[100], 2);
    processor.clear_data();
    assert!(processor.results.is_empty());
    assert_eq!(processor.valid_packet_count(), 0);
    assert_eq!(processor.get_histogram_data().get("DSSDL1_X").unwrap()[100], 0);
}

#[test]
fn particles_of_a_line_of_texts() {
    let mut frame = packet_frame(1, MODERN_PACKET_LENGTH, 0x00AD, None);
    frame[16] = 0x0B;
    frame[17] = 0xB8;
    let texts = split_hex_data(&hex_text(&frame));
    let header = parse_line_header_fields(&texts).unwrap();
    let mut processor = ObservationDataProcessor::new();
    processor.process_particles(&texts, 1_000, &header);
    assert_eq!(processor.results.len(), 5);
    assert_eq!(processor.results[0].time, 1_003);
    assert_eq!(processor.results[0].particle_number, 1);
    assert_eq!(processor.results[4].dssd_pulses[0], (104, 204));
    let mut other = ObservationDataProcessor::new();
    let particle = other
        .process_particle_data(&texts[16..50], 0, 1_000, &header)
        .unwrap();
    assert_eq!(particle.dssd_pulses, processor.results[0].dssd_pulses);
    assert!(other.process_particle_data(&texts[16..49], 0, 1_000, &header).is_err());
}

#[test]
fn a_first_look_at_a_recording() {
    let mut frame = packet_frame(1, MODERN_PACKET_LENGTH, 0x00AD, None);
    frame[11] = 61;
    let line = hex_text(&frame);
    let report = ObservationDataProcessor::read_header("run.txt", &format!("{line}\nsecond\n"));
    assert_eq!(
        report,
        format!(
            "File: run.txt\nHeader Length: 512 characters\nTotal Lines: 2\nStart Time: 2024-10-01 00:01:01\n\nRaw Header (first 100 chars):\n{}...\n",
            &line[..100]
        )
    );
    assert_eq!(ObservationDataProcessor::read_header("run.txt", ""), "Empty file");
    assert_eq!(
        ObservationDataProcessor::read_header("a", "short"),
        "File: a\nHeader Length: 5 characters\nTotal Lines: 1\n\nRaw Header (first 100 chars):\nshort\n"
    );
    assert_eq!(
        ObservationDataProcessor::read_header("a", &"zz".repeat(14)),
        format!(
            "File: a\nHeader Length: 28 characters\nTotal Lines: 1\nStart Time: Unable to parse\n\nRaw Header (first 100 chars):\n{}\n",
            "zz".repeat(14)
        )
    );
}

#[test]
fn progress_counts_the_bytes_of_all_files() {
    let contents = vec![vec![0u8; 10], vec![0u8; 70_000]];
    assert_eq!(count_bytes(&contents), 70_010);
    let mut progress = ByteProgress::new(70_010);
    assert_eq!(progress.advance(10), (10, 70_010));
    assert_eq!(progress.advance(65_536), (65_546, 70_010));
    assert_eq!(progress.finish(), (70_010, 70_010));
    let mut processor = ObservationDataProcessor::new();
    let (_, reports) = processor.process_files_with_progress(&contents);
    assert_eq!(
        reports,
        vec![
            (0, 70_010),
            (10, 70_010),
            (65_546, 70_010),
            (70_010, 70_010),
            (70_010, 70_010)
        ]
    );
}
