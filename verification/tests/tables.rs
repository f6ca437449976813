use baseline_core::baseline_data_table::{
    baseline_tail_fields, parse_baseline_line, sample_block_offset, L1_OFFSET, L7_OFFSET,
};
use baseline_core::calibration::data_processor::{
    calibration_block_fields, calibration_tail_fields, parse_calibration_line,
};
use baseline_core::calibration::processing::CalibrationAccumulator;
use baseline_core::calibration_mode;
use baseline_core::clock::LAST_MILLIS;
use baseline_core::columns::{header_check, is_time_title, join_i32_values};
use baseline_core::flux::data_processor::{flux_tail_fields, parse_flux_line};
use baseline_core::flux::processing::{
    get_date_time_from_hex, parse_flux_packet, parse_hex_byte, process_header_internal,
    FluxAccumulator,
};
use baseline_core::flux_mode;
use baseline_core::line::{
    block_values, byte, dec_pair, get_date_time_from_hex_data, hex_span, parse_line_header_fields,
    split_hex_data, validate_header, wrap_to_i32,
};
use baseline_core::models::observation::{BgoLayer, DetectorLayer};
use baseline_core::observation::data_processor::ObservationDataProcessor;
use baseline_core::observation::tail_fields::line_tail_fields;
use baseline_core::observation_mode::{
    adc_texts, bgo_byte_ranges, data_table_shows_dssd, dssd_byte_ranges, event_csv,
    event_row_cells, event_table_headers, line_extra_header, particle_byte_label, EventRow,
    ObservationViewMode,
};
use baseline_core::table::{csv_field, csv_line, csv_table};
use baseline_core::tail::{calibrated_value, TailCell};

/// A line of 2064 bytes in which byte `i` is `i % 251`, with a header.
fn line_text() -> String {
    let mut bytes: Vec<u8> = (0..2064usize).map(|i| (i % 251) as u8).collect();
    bytes[0] = 0xE2;
    bytes[1] = 0x25;
    bytes[8] = 0;
    bytes[9] = 0;
    bytes[10] = 0;
    bytes[11] = 5;
    bytes[12] = 0;
    bytes[13] = 9;
    bytes.iter().map(|b| format!("{b:02X}")).collect()
}

fn word(i: usize) -> i32 {
    ((i % 251) * 256 + (i + 1) % 251) as i32
}

fn shown(cells: &[TailCell]) -> Vec<String> {
    cells
        .iter()
        .map(|c| match (c.text(), c.reading()) {
            (Some(text), _) => text,
            (None, Some((raw, _))) => format!("<{raw}>"),
            (None, None) => unreachable!(),
        })
        .collect()
}

#[test]
fn bytes_of_a_line() {
    let texts: Vec<String> = ["01", "zz", "-1", "FF", "1F", "7fffffff"]
        .iter()
        .map(|t| t.to_string())
        .collect();
    assert_eq!(byte(&texts, 0), 1);
    assert_eq!(byte(&texts, 1), 0);
    assert_eq!(byte(&texts, 2), -1);
    assert_eq!(byte(&texts, 9), 0);
    assert_eq!(dec_pair(&texts, 0), 256);
    assert_eq!(dec_pair(&texts, 3), 0xFF1F);
    assert_eq!(dec_pair(&texts, 5), (0x7fffffff_i32) << 8);
    assert_eq!(dec_pair(&texts, 4), (0x1F_i32 << 8).wrapping_add(0x7fffffff));
    assert_eq!(hex_span(&texts, 3, 5), "FF1F7fffffff0000");
    assert_eq!(block_values(&texts, 0)[0], 256);
    assert_eq!(block_values(&texts, 0).len(), 16);
    for n in [0i64, 1 << 31, (1 << 31) - 1, -(1 << 31) - 1, 1 << 39] {
        assert_eq!(wrap_to_i32(n), n as i32);
    }
}

#[test]
fn texts_are_split_into_pairs() {
    assert_eq!(split_hex_data("E22501"), vec!["E2", "25", "01"]);
    assert!(split_hex_data("").is_empty());
    let pieces = split_hex_data("E2250");
    assert_eq!(pieces, vec!["E2", "25"]);
    assert_eq!(split_hex_data("E22501").concat(), "E22501");
}

#[test]
fn milliseconds_of_a_line_are_truncated() {
    let mut texts = vec!["00".to_string(); 14];
    texts[11] = "01".to_string();
    texts[13] = "7B".to_string();
    assert_eq!(get_date_time_from_hex_data(&texts), Ok(1_727_740_801_000));
    texts[12] = "FF".to_string();
    texts[13] = "FF".to_string();
    assert_eq!(get_date_time_from_hex_data(&texts), Ok(1_727_740_801_000));
    texts[13] = "zz".to_string();
    assert_eq!(
        get_date_time_from_hex_data(&texts),
        Err("invalid digit found in string".to_string())
    );
}

#[test]
fn headers_and_times_of_lines() {
    let texts = split_hex_data(&line_text());
    let header = parse_line_header_fields(&texts).unwrap();
    assert_eq!(header.packet_sync, "E225");
    assert_eq!(header.package_id, 0x0203);
    assert_eq!(header.packet_sequence, 0x0405);
    assert_eq!(header.packet_data_length, 0x0607);
    assert_eq!(header.data_type, "0E0F");
    assert_eq!(
        get_date_time_from_hex_data(&texts),
        Ok(1_727_740_800_000 + 5_000)
    );
    assert!(validate_header(&texts));
    let mut bad = texts.clone();
    bad[9] = "xx".to_string();
    assert_eq!(
        get_date_time_from_hex_data(&bad),
        Err("invalid digit found in string".to_string())
    );
    bad[3] = "xx".to_string();
    assert!(parse_line_header_fields(&bad).is_none());
    assert!(parse_line_header_fields(&texts[..15]).is_none());
    assert!(get_date_time_from_hex_data(&texts[..13]).is_err());
    bad[0] = "e2".to_string();
    assert!(validate_header(&bad));
    bad[1] = "26".to_string();
    assert!(!validate_header(&bad));
    assert!(!validate_header(&texts[..1]));
}

#[test]
fn formulas_apply_to_five_fields() {
    assert!(matches!(calibrated_value("FEE2 Temperature", 7), TailCell::Formula(7)));
    for label in [
        "BGO1 Bias Voltage",
        "BGO2 Bias Voltage",
        "BGO3 Bias Voltage",
        "BGO2 Temperature",
    ] {
        assert!(matches!(calibrated_value(label, 7), TailCell::FormulaHundredth(7)));
    }
    assert!(matches!(calibrated_value("FEE1 Temperature", 7), TailCell::Decimal(7)));
}

#[test]
fn a_baseline_line() {
    let texts = split_hex_data(&line_text());
    let line = parse_baseline_line(&texts).unwrap();
    assert_eq!(line.sample_index, word(16));
    assert_eq!(line.l1_blocks.len(), 15);
    assert_eq!(line.l1_blocks[2][3], word(18 + 128 + 6));
    assert_eq!(line.l2_blocks[0][0], word(50));
    assert_eq!(line.l6_blocks[0][0], word(978));
    assert_eq!(line.l7_blocks[14][15], word(1010 + 14 * 64 + 30));
    assert_eq!(line.tail.len(), 10);
    assert_eq!(shown(&line.tail)[0], word(1938).to_string());
    assert_eq!(shown(&line.tail)[5], format!("<{}>", word(1948)));
    assert_eq!(line.reserved_hex.len(), 208);
    assert_eq!(line.checksum_hex, "3637");
    assert_eq!(line.time, 1_727_740_805_000);
    assert!(parse_baseline_line(&texts[..2063]).is_none());
    assert_eq!(sample_block_offset(L1_OFFSET, 3), 210);
    assert_eq!(sample_block_offset(L7_OFFSET, 0), 1010);
    assert_eq!(baseline_tail_fields()[9].label, "DSSD 4 Temperature");
    assert_eq!(baseline_tail_fields()[9].byte_start, 1956);
}

#[test]
fn a_calibration_line() {
    let texts = split_hex_data(&line_text());
    let line = parse_calibration_line(&texts).unwrap();
    assert_eq!(line.blocks.len(), 44);
    assert_eq!(line.blocks[0][0], word(18));
    assert_eq!(line.blocks[4 * 3 + 2][5], word(18 + 128 * 3 + 64 + 10));
    assert_eq!(shown(&line.tail)[9], word(1444).to_string());
    assert_eq!(line.reserved_hex.len(), 1232);
    assert!(parse_calibration_line(&texts[..2063]).is_none());
    let fields = calibration_block_fields();
    assert_eq!(fields.len(), 44);
    assert_eq!(fields[0].label, "0.0V L1");
    assert_eq!(fields[5].label, "0.1V L2");
    assert_eq!(fields[43].label, "1.0V L7");
    assert_eq!(fields[43].byte_start, 18 + 1280 + 96);
    assert_eq!(calibration_tail_fields()[0].byte_start, 1426);
}

#[test]
fn calibration_steps_add_up_channel_by_channel() {
    let texts = split_hex_data(&line_text());
    let line = parse_calibration_line(&texts).unwrap();
    let mut accumulator = CalibrationAccumulator::default();
    accumulator.process_calibration(&texts);
    accumulator.process_calibration(&texts[..18 + 256]);
    accumulator.process_calibration(&texts[..17]);
    for layer in 0..4 {
        let columns = accumulator.columns(layer);
        assert_eq!(columns.len(), 16);
        for channel in 0..16 {
            assert_eq!(columns[channel].len(), 13);
            for step in 0..11 {
                assert_eq!(columns[channel][step], line.blocks[4 * step + layer][channel]);
            }
            assert_eq!(columns[channel][11..], columns[channel][..2]);
        }
    }
    assert_eq!(accumulator.columns(9), accumulator.columns(0));
    accumulator.reset(3);
    assert!(accumulator.columns(2).iter().all(|c| c.is_empty()));
}

#[test]
fn a_flux_line_and_its_packet() {
    let text = line_text();
    let texts = split_hex_data(&text);
    let line = parse_flux_line(&texts).unwrap();
    assert_eq!(line.particle_time, word(16));
    assert_eq!(line.particle_counts, (0..7).map(|i| word(18 + 2 * i)).collect::<Vec<_>>());
    assert_eq!(line.particle_info.len(), 1000);
    assert_eq!(line.particle_info[999], word(2030).to_string());
    assert_eq!(shown(&line.tail)[11], format!("<{}>", word(2054)));
    assert_eq!(line.reserved_hex.len(), 12);
    assert_eq!(flux_tail_fields().len(), 12);
    let packet = parse_flux_packet(&text).unwrap();
    assert_eq!(packet.time_millis, word(16));
    assert_eq!(packet.particle_counting, line.particle_counts);
    for i in [0usize, 1, 500, 999] {
        assert_eq!(packet.particle_layer[i], word(32 + 2 * i) >> 13);
        assert_eq!(packet.particle_offset_time[i], word(32 + 2 * i) & 0xFFF);
    }
    assert!(parse_flux_packet(&text[..4063]).is_none());
    let mut bad = text.clone();
    bad.replace_range(4060..4062, "zz");
    assert!(parse_flux_packet(&bad).is_none());
    bad.replace_range(4060..4062, "+1");
    assert!(parse_flux_packet(&bad).is_some());
}

#[test]
fn flux_packets_add_up_list_by_list() {
    let text = line_text();
    let mut accumulator = FluxAccumulator::default();
    assert!(accumulator.process_flux_observation(&text));
    assert!(!accumulator.process_flux_observation("E225"));
    assert!(accumulator.process_flux_observation(&"0".repeat(4128)));
    assert_eq!(accumulator.time_millis_list, vec![word(16), 0]);
    assert_eq!(accumulator.particle_counting_lists.len(), 7);
    assert_eq!(accumulator.particle_counting_lists[3], vec![word(24), 0]);
    assert_eq!(accumulator.particle_layer_list.len(), 2);
    assert_eq!(accumulator.particle_offset_time_list[0].len(), 1000);
    assert_eq!(accumulator.all_results.len(), 2);
    accumulator.reset();
    assert!(accumulator.all_results.is_empty());
    assert!(accumulator.particle_counting_lists.iter().all(|l| l.is_empty()));
}

#[test]
fn times_and_bytes_in_flux_texts() {
    assert_eq!(get_date_time_from_hex(&line_text()), 5_009);
    assert_eq!(get_date_time_from_hex(&"z".repeat(40)), 0);
    assert_eq!(parse_hex_byte(b"0aFF+1-1", 0), Some(10));
    assert_eq!(parse_hex_byte(b"0aFF+1-1", 2), Some(255));
    assert_eq!(parse_hex_byte(b"0aFF+1-1", 4), Some(1));
    assert_eq!(parse_hex_byte(b"0aFF+1-1", 6), None);
    assert_eq!(parse_hex_byte(b"0aFF+1-1", 7), None);
}

#[test]
fn packet_headers_and_checksums() {
    let mut texts = split_hex_data(&line_text());
    let sum: u64 = texts[8..2062]
        .iter()
        .map(|t| u64::from_str_radix(t, 16).unwrap())
        .sum();
    let report = process_header_internal(&texts).unwrap();
    assert_eq!(report.packet_sync, "Packet Synchronization Code: E2 25");
    assert_eq!(report.package_id, "Package Identification: 02 03");
    assert_eq!(report.packet_seq, "Packet Sequence: 04 05");
    assert_eq!(report.packet_data_len, "Packet data length: 06 07");
    assert_eq!(report.timestamp, "Timestamp: 1970-Jan-01 00:00:05.009");
    assert_eq!(report.data_type, "Data Type: 0E 0F");
    assert_eq!(report.check_sum_hex, "Check Sum: 36 37");
    assert!(!report.checksum_matches);
    let code = format!("{:04x}", sum % 65536);
    texts[2062] = code[..2].to_string();
    texts[2063] = code[2..].to_string();
    let report = process_header_internal(&texts).unwrap();
    assert!(report.checksum_matches);
    assert_eq!(
        flux_mode::header_info_text(&report, 50, -3),
        format!(
            "Packet Synchronization Code: E2 25\nPackage Identification: 02 03\nPacket Sequence: 04 05\nPacket data length: 06 07\nTimestamp: 1970-Jan-01 00:00:05.009\nData Type: 0E 0F\nCheck Sum: {} {}\nChecksum matches!\nTest condition:\nDelay Time: 50\nThreshold: -3",
            &code[..2],
            &code[2..]
        )
    );
}

#[test]
fn calibration_table() {
    let headers = calibration_mode::calibration_table_headers();
    assert_eq!(headers.len(), 63);
    assert_eq!(headers[0], "Packet Sync Code (Byte 0-1)");
    assert_eq!(headers[6], "Sample Index (Byte 16-17)");
    assert_eq!(headers[7], "0.0V L1 (Byte 18-49)");
    assert_eq!(headers[51], "DSSD 1 Temperature (Byte 1426-1427)");
    assert_eq!(headers[61], "Reserved (Byte 1446-2061)");
    assert_eq!(headers[62], "Checksum (Byte 2062-2063)");
    let line = parse_calibration_line(&split_hex_data(&line_text())).unwrap();
    let tail = shown(&line.tail);
    let row = calibration_mode::CalibrationRow::from_line(line, tail);
    assert!(0 <= row.time && row.time <= LAST_MILLIS);
    let cells = calibration_mode::calibration_row_cells(&row);
    assert_eq!(cells.len(), 63);
    assert_eq!(cells[0], "E225");
    assert_eq!(cells[4], "2024-10-01 00:00:05.000");
    assert_eq!(cells[6], word(16).to_string());
    assert_eq!(cells[7], join_i32_values(&row.blocks[0]));
    assert_eq!(cells[62], "3637");
    assert_eq!(calibration_mode::min_column_width(&headers[7]), 260);
    assert_eq!(calibration_mode::min_column_width(&headers[61]), 900);
    assert_eq!(calibration_mode::min_column_width(&headers[62]), 60);
    assert!(is_time_title(&headers[4]));
    assert!(!is_time_title(&headers[5]));
}

#[test]
fn flux_table() {
    let headers = flux_mode::flux_table_headers();
    assert_eq!(headers.len(), 29);
    assert_eq!(headers[6], "Particle Time (Byte 16-17)");
    assert_eq!(headers[7], "Particle Counts L1 (Byte 18-19)");
    assert_eq!(headers[13], "Particle Counts L7 (Byte 30-31)");
    assert_eq!(headers[14], "Particle Info (Byte 32-2031)");
    assert_eq!(headers[27], "Reserved (Byte 2056-2061)");
    let line = parse_flux_line(&split_hex_data(&line_text())).unwrap();
    let tail = shown(&line.tail);
    let row = flux_mode::FluxRow::from_line(line, tail);
    let cells = flux_mode::flux_row_cells(&row);
    assert_eq!(cells.len(), 29);
    assert_eq!(cells[7], word(18).to_string());
    assert_eq!(cells[14], join_i32_values(&row.particle_info));
    assert_eq!(row.particle_info[0], word(32));
    assert_eq!(flux_mode::min_column_width(&headers[14]), 900);
    assert_eq!(flux_mode::min_column_width(&headers[27]), 220);
    assert_eq!(flux_mode::min_column_width(&headers[0]), 60);
}

#[test]
fn segments_are_read_in_order() {
    let segments = vec![line_text(), "0".repeat(4128), "E2".to_string()];
    let calibration = calibration_mode::read_segments(&segments);
    assert!(calibration.first_valid);
    assert_eq!(calibration.lines.len(), 2);
    assert_eq!(calibration.accumulator.columns(1)[3].len(), 22);
    let mut step_by_step = calibration_mode::CalibrationReading::start(3);
    for segment in &segments {
        step_by_step.read(segment);
    }
    assert!(step_by_step.first_valid);
    assert_eq!(step_by_step.accumulator.columns(1), calibration.accumulator.columns(1));
    assert_eq!(calibration_mode::first_segment_text(true), "Checksum OK");
    assert_eq!(calibration_mode::first_segment_text(false), "Checksum Mismatch");
    let flux = flux_mode::read_segments(&segments);
    assert_eq!(flux.accumulator.all_results.len(), 2);
    assert_eq!(flux.lines.len(), 2);
    assert_eq!(flux.start, Some(5_009));
    assert_eq!(flux.stop, Some(0));
    assert!(flux.header.is_none());
    let mut reading = flux_mode::FluxReading::start();
    reading.read(&segments[0]);
    assert_eq!((reading.start, reading.stop), (Some(5_009), Some(5_009)));
    assert!(reading.header.is_some());
    assert_eq!(flux_mode::duration_text(5_009, 65_010), "60.001 seconds");
    assert_eq!(flux_mode::duration_text(65_010, 5_009), "-60.001 seconds");
    assert_eq!(flux_mode::duration_text(0, 0), "0.000 seconds");
}

#[test]
fn event_table() {
    let mut bytes = vec![0u8; 256];
    bytes[0] = 0xE2;
    bytes[1] = 0x25;
    bytes[7] = 0xF7;
    bytes[15] = 0xAD;
    bytes[16 + 4] = 9;
    bytes[16 + 13] = 7;
    let text: String = bytes.iter().map(|b| format!("{b:02X}")).collect();
    let mut processor = ObservationDataProcessor::new();
    processor.process_files(&[text.into_bytes()]);
    let particle = &processor.results[0];
    let row = EventRow::from_particle(particle, shown(&particle.line_tail));
    for (show_dssd, columns) in [(true, 7 + 12 + 32), (false, 7 + 6 + 32)] {
        let headers = event_table_headers(show_dssd);
        let cells = event_row_cells(&row, show_dssd, &adc_texts(&row));
        assert_eq!(headers.len(), columns);
        assert_eq!(cells.len(), columns);
        assert_eq!(headers[6], "Particle Time (Particle Byte 0-1)");
        assert_eq!(cells[4], "2024-10-01 00:00:00.000");
        let csv = event_csv(&headers, &[cells.clone(), cells.clone()]);
        assert_eq!(
            csv,
            format!("{}\n{}\n{}\n", headers.join(","), cells.join(","), cells.join(","))
        );
    }
    let headers = event_table_headers(true);
    assert_eq!(headers[7], "L1 XY Position (Particle Byte 2)");
    assert_eq!(headers[18], "L7 Y Pulse Height (Particle Byte 32-33)");
    assert_eq!(headers[19], "Galactic Electron Count (Byte 186)");
    assert_eq!(headers[50], "Checksum (Byte 254-255)");
    assert_eq!(
        event_table_headers(false)[7],
        "L3 High-Gain Pulse Height (Particle Byte 12-13)"
    );
    let mut values = adc_texts(&row);
    assert_eq!(values, vec!["9", "0", "0", "0", "0", "0", "0", "0"]);
    values[0] = "0.0027".to_string();
    let cells = event_row_cells(&row, true, &values);
    assert_eq!(cells[7..10], ["0", "0.0027", "0"]);
    let cells = event_row_cells(&row, false, &values);
    assert_eq!(cells[7..9], ["7", "0"]);
}

#[test]
fn labels_of_the_event_table() {
    assert_eq!(dssd_byte_ranges(DetectorLayer::L6), ("24", "25-26", "27-28"));
    assert_eq!(bgo_byte_ranges(BgoLayer::L5), ("20-21", "22-23"));
    assert_eq!(particle_byte_label("7"), "(Particle Byte 7)");
    assert!(data_table_shows_dssd(ObservationViewMode::XStrip));
    assert!(!data_table_shows_dssd(ObservationViewMode::Bgo));
    let fields = line_tail_fields();
    assert_eq!(line_extra_header(&fields[3]), "Albedo Ion Count (Byte 189)");
    assert_eq!(line_extra_header(&fields[30]), "Padding (Byte 242-253)");
}

#[test]
fn fields_are_quoted_where_they_must() {
    assert_eq!(csv_field("plain"), "plain");
    assert_eq!(csv_field("a,b"), "\"a,b\"");
    assert_eq!(csv_field("say \"hi\""), "\"say \"\"hi\"\"\"");
    assert_eq!(csv_field("two\nlines"), "\"two\nlines\"");
    let cells: Vec<String> = ["a", "b,c", ""].iter().map(|t| t.to_string()).collect();
    assert_eq!(csv_line(&cells), "a,\"b,c\",");
    assert_eq!(
        csv_table(&cells, &[cells.clone()]),
        "a,\"b,c\",\na,\"b,c\",\n"
    );
    assert_eq!(join_i32_values(&[1, -2, 3]), "1, -2, 3");
    assert_eq!(join_i32_values(&[]), "");
}

#[test]
fn rows_of_a_workbook_are_checked() {
    let rows: Vec<String> = ["E2251", "E225", "e225"].iter().map(|t| t.to_string()).collect();
    assert_eq!(header_check(&rows), "Header is INCORRECT! at data row no. 3");
    assert_eq!(header_check(&rows[..2]), "Header is correct!");
}
