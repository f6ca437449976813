use baseline_core::io::baseline_file_service::{process_file_stream, SegmentStream};
use baseline_core::io::excel::{baseline_from_row, baseline_headers, baseline_row, BaselineCells};
use baseline_core::io::file_helper::{
    combine_files, find_excel_file, get_output_folder, get_possible_file_paths,
    resolve_excel_save_path, with_workbook_ending,
};
use baseline_core::io::header_validator::{file_not_found, validate_file};
use baseline_core::io::segment_filter::filter_e225_segments_from_files;
use baseline_core::models::baseline::BaselineData;
use calamine::{DataType, Reader};

fn cells_of(d: &BaselineData) -> BaselineCells<f64> {
    let layer = |values: [i32; 16]| values.map(|v| v as f64);
    BaselineCells {
        packet: d.sampling_packet_no as f64,
        number: d.sampling_no as f64,
        l1: layer(d.l1),
        l2: layer(d.l2),
        l6: layer(d.l6),
        l7: layer(d.l7),
    }
}

#[test]
fn roundtrip_baseline_excel() {
    let mut data = Vec::new();
    for i in 0..5 {
        let mut d = BaselineData::default();
        d.sampling_packet_no = i;
        d.sampling_no = i * 2;
        for ch in 0..16 {
            d.l1[ch] = i * 100 + ch as i32;
            d.l2[ch] = i * 200 + ch as i32;
            d.l6[ch] = i * 300 + ch as i32;
            d.l7[ch] = i * 400 + ch as i32;
        }
        data.push(d);
    }

    let mut workbook = rust_xlsxwriter::Workbook::new();
    let sheet = workbook.add_worksheet();
    for (c, title) in baseline_headers().iter().enumerate() {
        sheet.write_string(0, c as u16, title).expect("save failed");
    }
    for (r, d) in data.iter().enumerate() {
        for (c, value) in baseline_row(&cells_of(d)).iter().enumerate() {
            sheet
                .write_number(r as u32 + 1, c as u16, *value)
                .expect("save failed");
        }
    }
    let bytes = workbook.save_to_buffer().expect("save failed");

    let mut saved: calamine::Xlsx<_> =
        calamine::Xlsx::new(std::io::Cursor::new(bytes)).expect("read failed");
    let name = saved.sheet_names().first().cloned().expect("read failed");
    let range = saved.worksheet_range(&name).expect("read failed");
    let mut read_back = Vec::new();
    for row in range.rows().skip(1) {
        let values: Vec<f64> = row.iter().map(|v| v.as_f64().unwrap_or(0.0)).collect();
        let cells = baseline_from_row(&values, 0.0);
        let layer = |cells: [f64; 16]| cells.map(|v| v as i32);
        read_back.push(BaselineData {
            sampling_packet_no: cells.packet as i32,
            sampling_no: cells.number as i32,
            l1: layer(cells.l1),
            l2: layer(cells.l2),
            l6: layer(cells.l6),
            l7: layer(cells.l7),
        });
    }

    assert_eq!(read_back.len(), data.len(), "row count mismatch");
    for (orig, got) in data.iter().zip(read_back.iter()) {
        assert_eq!(orig.sampling_packet_no, got.sampling_packet_no);
        assert_eq!(orig.sampling_no, got.sampling_no);
        assert_eq!(orig.l1, got.l1);
        assert_eq!(orig.l2, got.l2);
        assert_eq!(orig.l6, got.l6);
        assert_eq!(orig.l7, got.l7);
    }
}

#[test]
fn workbook_titles_and_short_rows() {
    let titles = baseline_headers();
    assert_eq!(titles.len(), 66);
    assert_eq!(titles[0], "Sampling Packet No.");
    assert_eq!(titles[1], "Sampling No.");
    assert_eq!(titles[2], "L1 CH1");
    assert_eq!(titles[17], "L1 CH16");
    assert_eq!(titles[18], "L2 CH1");
    assert_eq!(titles[34], "L6 CH1");
    assert_eq!(titles[65], "L7 CH16");
    let cells = baseline_from_row(&[7, 8, 9], -1);
    assert_eq!(cells.packet, 7);
    assert_eq!(cells.number, 8);
    assert_eq!(cells.l1[0], 9);
    assert_eq!(cells.l1[1], -1);
    assert_eq!(cells.l7[15], -1);
}

fn segment(packet: u16) -> String {
    let mut bytes = vec![0u8; 2064];
    bytes[0] = 0xE2;
    bytes[1] = 0x25;
    bytes[16] = (packet >> 8) as u8;
    bytes[17] = packet as u8;
    for sample in 0..15usize {
        for ch in 0..16usize {
            let at = |base: usize| base + 64 * sample + 2 * ch;
            bytes[at(18)] = sample as u8;
            bytes[at(18) + 1] = ch as u8;
            bytes[at(50) + 1] = 0x40 + ch as u8;
            bytes[at(978) + 1] = 0x60 + ch as u8;
            bytes[at(1010) + 1] = 0x80 + ch as u8;
        }
    }
    bytes.iter().map(|b| format!("{b:02x}")).collect()
}

#[test]
fn segments_give_fifteen_samples_each() {
    let text = format!("..{}\n{}", segment(3), segment(0x1234));
    let samples = process_file_stream(&[text.clone().into_bytes()]);
    assert_eq!(samples.len(), 30);
    assert_eq!(samples[0].sampling_packet_no, 3);
    assert_eq!(samples[0].sampling_no, 1);
    assert_eq!(samples[14].sampling_no, 15);
    assert_eq!(samples[29].sampling_packet_no, 0x1234);
    assert_eq!(samples[2].l1[5], 2 * 256 + 5);
    assert_eq!(samples[2].l2[5], 0x45);
    assert_eq!(samples[2].l6[5], 0x65);
    assert_eq!(samples[2].l7[5], 0x85);
}

#[test]
fn where_a_recording_is_cut_makes_no_difference() {
    let text = format!("ff{}gh{}E225", segment(3), segment(4)).into_bytes();
    let whole = process_file_stream(&[text.clone()]);
    for cut in [0, 1, 2, 3, 100, 4129, 4130, 4131, text.len() - 1, text.len()] {
        let pieces = [text[..cut].to_vec(), text[cut..].to_vec()];
        assert_eq!(process_file_stream(&pieces), whole);
    }
    let bytes: Vec<Vec<u8>> = text.iter().map(|b| vec![*b]).collect();
    assert_eq!(process_file_stream(&bytes), whole);
    assert_eq!(whole.len(), 30);
}

#[test]
fn an_incomplete_segment_gives_nothing() {
    let text = segment(3).into_bytes();
    let mut stream = SegmentStream::new();
    assert!(stream.reports_progress());
    stream.feed(&text[..4127]);
    assert!(stream.results.is_empty());
    stream.feed(&text[4127..]);
    assert_eq!(stream.results.len(), 15);
    assert!(!stream.reports_progress());
    stream.feed(&text[..4127]);
    assert_eq!(stream.finish().len(), 15);
}

#[test]
fn segments_of_full_length_are_kept() {
    let whole = format!("E225{}", "0A".repeat(2062));
    let contents = vec![
        format!("xx{}\n{} e225{}", &whole[..100], &whole[100..], &whole[4..]),
        format!("{whole}{whole}zz{}", &whole[..4000]),
        "E225".to_string(),
        String::new(),
    ];
    let segments = filter_e225_segments_from_files(&contents, 4128);
    assert_eq!(segments, vec![whole.clone(), whole.clone(), whole]);
}

#[test]
fn runs_end_at_the_first_other_character() {
    let contents = vec!["00E2251fE225ABCDE2E22577-E225-E2259".to_string()];
    assert_eq!(
        filter_e225_segments_from_files(&contents, 5),
        vec!["E2251", "E225A", "BCDE2", "E2257", "E2259"]
    );
    let pattern = regex::Regex::new(baseline_core::io::regex_patterns::E225_HEADER).unwrap();
    let found: Vec<&str> = pattern.find_iter(&contents[0]).map(|m| m.as_str()).collect();
    assert_eq!(found, vec!["E2251", "E225ABCDE2E22577", "E2259"]);
    assert_eq!(filter_e225_segments_from_files(&contents, 16), vec!["E225ABCDE2E22577"]);
}

#[test]
fn headers_of_a_file() {
    let lines = |texts: &[&str]| texts.iter().map(|t| t.to_string()).collect::<Vec<String>>();
    let good = validate_file(&lines(&["", "E225AA", "E225BB"]), "run.txt", None);
    assert!(good.is_valid);
    assert_eq!(good.first_header_content.as_deref(), Some("E225AA"));
    assert_eq!(good.error_message, None);
    let bad = validate_file(&lines(&["E225", "", " E225"]), "run.txt", None);
    assert!(!bad.is_valid);
    assert_eq!(bad.error_line, 3);
    assert_eq!(bad.error_message.as_deref(), Some("Header INCORRECT at line 3"));
    assert_eq!(bad.error_content.as_deref(), Some(" E225"));
    assert_eq!(bad.filtered_file_path.as_deref(), Some("run.txt"));
    let empty = validate_file(&[], "run.txt", None);
    assert!(!empty.is_valid);
    assert_eq!(empty.error_message.as_deref(), Some("File is empty."));
    let broken = validate_file(&lines(&["E225"]), "run.txt", Some("no disk".to_string()));
    assert_eq!(broken.error_message.as_deref(), Some("Error reading file: no disk"));
    assert_eq!(file_not_found().error_message.as_deref(), Some("File not found."));
}

#[test]
fn files_are_put_one_after_the_other() {
    let contents = vec![vec![1u8, 2], vec![], vec![3]];
    assert_eq!(combine_files(&contents), Ok(vec![1, 2, 3]));
    assert_eq!(
        combine_files(&[]),
        Err("No files selected for combination.".to_string())
    );
}

#[test]
fn places_of_files() {
    assert_eq!(get_output_folder(""), vec!["DSSD_Analysis"]);
    assert_eq!(get_output_folder("Flux"), vec!["DSSD_Analysis", "Flux"]);
    assert_eq!(with_workbook_ending("a"), "a.xlsx");
    assert_eq!(with_workbook_ending("a.XlSx"), "a.XlSx");
    assert_eq!(
        resolve_excel_save_path("run", "Flux"),
        Ok(vec!["DSSD_Analysis".to_string(), "Flux".to_string(), "run.xlsx".to_string()])
    );
    assert_eq!(
        resolve_excel_save_path("run.xlsx", "  "),
        Ok(vec!["DSSD_Analysis".to_string(), "Source".to_string(), "run.xlsx".to_string()])
    );
    assert_eq!(
        resolve_excel_save_path(" \t", "Flux"),
        Err("Invalid file name. Please use a valid name.".to_string())
    );
    let places = get_possible_file_paths("run");
    assert_eq!(places[0], vec!["DSSD_Analysis", "run", "run_ParticleData.xlsx"]);
    assert_eq!(places[1], vec!["DSSD_Analysis", "Source", "run.xlsx"]);
    assert_eq!(places[2], vec!["DSSD_Analysis", "run.xlsx"]);
    assert_eq!(find_excel_file("run", [false, true, true]), Some(places[1].clone()));
    assert_eq!(find_excel_file("run", [true, true, true]), Some(places[0].clone()));
    assert_eq!(find_excel_file("run", [false, false, true]), Some(places[2].clone()));
    assert_eq!(find_excel_file("run", [false, false, false]), None);
}
