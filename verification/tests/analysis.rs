use baseline_core::baseline_mode::{
    check_header_summary, clean_hex, find_last_packet, hex_to_bytes, layer_id_of, layer_of,
    parse_first_packet, parse_header_summary, BaselineSubtractMode,
};
use baseline_core::baseline_processing::{
    calculate_coincidence_matrix, channel_sums, coincidence_matrix, daily_folder_name,
    mean_file_name, mean_file_text, mean_text,
};
use baseline_core::calibration_session::{axis_range, channel_text, positive_values};
use baseline_core::fit_overlay::{
    crop_around_peak, fit_window, populated_range, requested_fits, FitKind, FitOverlayFlags,
};
use baseline_core::models::baseline::BaselineData;
use baseline_core::observation_mode::{
    format_histogram_stats, histogram_counts, histogram_range, stats_domain,
    EMPTY_HISTOGRAM_STATS,
};
use baseline_core::plot_export::{
    crop, crop_box, sanitize_filename, CropBox, ExportAction, PlotExportQueue,
};

fn chars(s: &str) -> Vec<char> {
    s.chars().collect()
}

#[test]
fn strongest_channels_are_counted_together() {
    let mut first = [0i32; 16];
    first[3] = 5;
    first[8 + 6] = 9;
    let mut second = [0i32; 16];
    second[3] = 5;
    second[5] = 5;
    second[8 + 6] = 1;
    let matrix = coincidence_matrix(&[first, second, [7; 16]]);
    assert_eq!(matrix[6][3], 2);
    assert_eq!(matrix[0][0], 1);
    assert_eq!(matrix.iter().flatten().sum::<u64>(), 3);
    let mut data = BaselineData::default();
    data.l2 = first;
    let by_layer = calculate_coincidence_matrix(&[data], |d: &BaselineData| d.l2);
    assert_eq!(by_layer[6][3], 1);
}

#[test]
fn sums_of_channels() {
    let mut a = [0i32; 16];
    a[2] = i32::MAX;
    let mut b = [1i32; 16];
    b[2] = i32::MAX;
    let sums = channel_sums(&[a, b]);
    assert_eq!(sums[2], 2 * i32::MAX as i128);
    assert_eq!(sums[3], 1);
    assert_eq!(channel_sums(&[]), [0; 16]);
    let parts = (channel_sums(&[a]), channel_sums(&[b]));
    for ch in 0..16 {
        assert_eq!(sums[ch], parts.0[ch] + parts.1[ch]);
    }
}

#[test]
fn means_are_written_and_read_back() {
    let means: Vec<String> = (0..16).map(|i| format!("{:.2}", i as f64 * 1.5)).collect();
    let text = mean_file_text(&means);
    assert_eq!(text, means.join("\n"));
    for (i, mean) in means.iter().enumerate() {
        assert_eq!(mean_text(&text, i).as_ref(), Some(mean));
    }
    assert_eq!(mean_text(&text, 16), None);
    assert_eq!(mean_text(" 1.5 \r\n x", 0).as_deref(), Some("1.5"));
    assert_eq!(mean_file_name(6), "MeanValues6.txt");
    assert_eq!(daily_folder_name(1_727_740_800_000), "2024-10-01");
}

#[test]
fn layers_and_modes() {
    let mut data = BaselineData::default();
    data.l1[0] = 1;
    data.l2[0] = 2;
    data.l6[0] = 6;
    data.l7[0] = 7;
    for (index, id) in [(0, 1u32), (1, 2), (2, 6), (3, 7), (4, 1)] {
        assert_eq!(layer_of(&data, index)[0], id as i32);
        assert_eq!(layer_id_of(index), id);
    }
    assert!(BaselineSubtractMode::After.should_subtract());
    assert!(BaselineSubtractMode::AfterLog.should_subtract());
    assert!(!BaselineSubtractMode::Before.should_subtract());
    assert!(!BaselineSubtractMode::BeforeLog.should_subtract());
}

#[test]
fn texts_of_bytes() {
    assert_eq!(clean_hex(" A\tB\n\u{a0}C "), "ABC");
    assert_eq!(hex_to_bytes(&chars("00ff+1")), Some(vec![0, 255, 1]));
    assert_eq!(hex_to_bytes(&chars("0")), None);
    assert_eq!(hex_to_bytes(&chars("0g")), None);
    assert_eq!(hex_to_bytes(&[]), Some(vec![]));
}

#[test]
fn packets_at_the_ends_of_a_recording() {
    assert_eq!(parse_first_packet(""), None);
    assert_eq!(parse_first_packet(" 0 1\n2"), Some(vec![1]));
    assert_eq!(parse_first_packet("zz"), None);
    assert_eq!(parse_first_packet(&"0A".repeat(3000)), Some(vec![10; 2064]));
    assert_eq!(find_last_packet("0011"), None);
    assert_eq!(find_last_packet(""), None);
    assert_eq!(find_last_packet("AA5501 aa 55 0203F"), Some(vec![0xAA, 0x55, 2, 3]));
    let long = format!("00AA55{}", "01".repeat(3000));
    let packet = find_last_packet(&long).unwrap();
    assert_eq!(packet.len(), 2064);
    assert_eq!(packet[..3], [0xAA, 0x55, 1]);
}

#[test]
fn reports_on_the_ends_of_a_recording() {
    let mut packet: Vec<u8> = (0..14).collect();
    packet[8..14].copy_from_slice(&[5, 0, 0, 0, 9, 0]);
    assert_eq!(
        parse_header_summary(&packet),
        "Timestamp: 1970-Jan-01 00:00:05.009 (UTC)\nSync Code: 00 01\nSeq No:    04 05"
    );
    assert_eq!(parse_header_summary(&packet[..13]), "Invalid/Incomplete Packet Data");
    let rule = "-".repeat(50);
    assert_eq!(
        check_header_summary("1.25", &Some(packet.clone()), &None, 7, "2.5"),
        format!(
            "File Size: 1.25 MB\n{rule}\n[START OF FILE]\n{}\n{rule}\n[END OF FILE]\nWarning: Could not identify a valid packet at the end of file.\n(File might be truncated or format is inconsistent)\n{rule}\nDelay Time: 7\nThreshold: 2.5\n",
            parse_header_summary(&packet)
        )
    );
    assert!(check_header_summary("0.00", &None, &Some(packet), 0, "2")
        .contains("Error: Could not read start of file."));
}

#[test]
fn windows_around_the_peak() {
    let mut counts = vec![0i64; 1000];
    assert_eq!(crop_around_peak(&counts), None);
    counts[500] = 3;
    counts[600] = 3;
    assert_eq!(crop_around_peak(&counts), Some((500, 701)));
    assert_eq!(fit_window(&counts, 0, 550), Some((400, 550)));
    assert_eq!(fit_window(&counts, 450, 550), Some((450, 550)));
    assert_eq!(fit_window(&counts, 499, 502), None);
    assert_eq!(fit_window(&counts, 10, 10), None);
    assert_eq!(crop_around_peak(&[1, 2, 3, 4]), None);
    assert_eq!(crop_around_peak(&[1, 2, 3, 4, 0]), Some((0, 5)));
}

#[test]
fn fits_are_solved_in_order() {
    let all = FitOverlayFlags { gaussian: true, lorentzian: true, hemg_single: true, hemg_double: true };
    assert!(all.any());
    assert_eq!(
        requested_fits(&all),
        vec![FitKind::Gaussian, FitKind::HemgSingle, FitKind::HemgDouble, FitKind::Lorentzian]
    );
    let none = FitOverlayFlags::default();
    assert!(!none.any());
    assert!(requested_fits(&none).is_empty());
    let labels: Vec<&str> = requested_fits(&all).iter().map(|k| k.label()).collect();
    assert_eq!(labels, vec!["Gaussian", "HEMG single", "HEMG double", "Lorentzian"]);
}

#[test]
fn bins_that_count_anything() {
    assert_eq!(populated_range(&[0, 2, 0, 1, 0]), Some((1, 3)));
    assert_eq!(populated_range(&[4]), Some((0, 0)));
    assert_eq!(populated_range(&[0, 0]), None);
    assert_eq!(populated_range(&[]), None);
}

#[test]
fn histograms_within_a_range() {
    assert_eq!(histogram_range(100, None), (0, 100));
    assert_eq!(histogram_range(100, Some((10, 20))), (10, 21));
    assert_eq!(histogram_range(100, Some((10, 99))), (10, 100));
    assert_eq!(histogram_range(100, Some((200, usize::MAX))), (100, 100));
    assert_eq!(histogram_counts(&[1, 2, 3, 4], 1, 3), 5);
    assert_eq!(histogram_counts(&[1], 1, 1), 0);
    assert_eq!(stats_domain(&[1, 2, 3, 4], None), Some((0, 4, 10)));
    assert_eq!(stats_domain(&[1, 2, 3, 4], Some((1, 2))), Some((1, 3, 5)));
    assert_eq!(stats_domain(&[1, 2, 3, 4], Some((4, 9))), None);
    assert_eq!(stats_domain(&[0, 0, 3], Some((0, 1))), None);
    assert_eq!(stats_domain(&[], None), None);
    assert_eq!(
        format_histogram_stats("5", 9, "1.00", "2.00", "-", "-"),
        "Peak: 5   Counts: 9   Mean: 1.00   RMS: 2.00   FWHM: -   Res: -"
    );
    assert_eq!(
        EMPTY_HISTOGRAM_STATS,
        format_histogram_stats("-", 0, "-", "-", "-", "-")
    );
}

#[test]
fn values_above_zero_are_plotted() {
    assert_eq!(positive_values(&[3, 0, -1, 5]), vec![3, 5]);
    assert_eq!(axis_range(true), (0, 5000));
    assert_eq!(axis_range(false), (0, 16384));
    assert_eq!(channel_text(4, None), "Counts: 4");
    assert_eq!(channel_text(4, Some("mu=1")), "Counts: 4  mu=1");
}

#[test]
fn parts_of_an_image() {
    let part = crop_box(4, 3, 1, 1, 3, 9);
    assert_eq!(part, CropBox { x: 1, y: 1, width: 2, height: 2 });
    let pixels: Vec<u8> = (0..12).collect();
    assert_eq!(crop(&pixels, 4, 3, part), vec![5, 6, 9, 10]);
    let nothing = crop_box(4, 3, 9, 9, -5, -5);
    assert_eq!((nothing.width, nothing.height), (0, 0));
    assert!(crop(&pixels, 4, 3, nothing).is_empty());
    let whole = crop_box(4, 3, i64::MIN, i64::MIN, i64::MAX, i64::MAX);
    assert_eq!(crop(&pixels, 4, 3, whole), pixels);
    assert_eq!(sanitize_filename("a<b>:\"/\\|?*c"), "a_b________c");
}

#[test]
fn images_are_taken_once_there_is_a_screenshot() {
    let mut queue: PlotExportQueue<u8> = PlotExportQueue::new();
    assert!(queue.take_ready(true).is_none());
    queue.request(1, ExportAction::Save, "first");
    queue.request(2, ExportAction::Copy, "second");
    assert!(queue.take_ready(false).is_none());
    let taken = queue.take_ready(true).unwrap();
    assert_eq!((taken.rect, taken.action, taken.title.as_str()), (2, ExportAction::Copy, "second"));
    assert!(queue.take_ready(true).is_none());
    queue.request_zoom("a");
    queue.request_zoom("b");
    queue.request_zoom("a");
    assert!(queue.take_zoom("a"));
    assert!(!queue.take_zoom("a"));
    assert!(queue.take_zoom("b"));
    assert!(!queue.take_zoom("c"));
    assert_eq!(queue.open_window(), 1);
    assert_eq!(queue.open_window(), 2);
}
