use baseline_core::baseline_run::{run_steps, RunState, RunStep};
use baseline_core::baseline_session::{self, BaselineSession, MeanSource};
use baseline_core::calibration::processing::CalibrationAccumulator;
use baseline_core::calibration_session::{self, CalibrationSession};
use baseline_core::flux::processing::FluxAccumulator;
use baseline_core::flux_session::{self, FluxSession};
use baseline_core::models::baseline::BaselineData;
use baseline_core::observation::histogram::HistogramSet;
use baseline_core::observation_session::{self, ObservationSession};
use baseline_core::panel::{
    export_text, json_text, Note, Panel, Progress, StatusColor,
};
use baseline_core::segment_session::{self, SegmentsOutcome};

fn shown(notes: &[Note]) -> Vec<String> {
    notes.iter().map(|n| format!("{n:?}")).collect()
}

#[test]
fn a_panel_takes_in_reports() {
    let mut panel = Panel::new("out");
    assert_eq!(panel.status_message, "Ready");
    assert_eq!(panel.output_file_name, "out");
    panel.apply(Note::Busy(true));
    panel.apply(Note::Progress(Progress { done: 1, total: 4 }));
    panel.apply(Note::InputFilesInfo("info".to_string()));
    panel.apply(Note::OutputFileName("name".to_string()));
    panel.apply(Note::HeaderCheck("check".to_string()));
    panel.apply(Note::HeaderInfo("header".to_string()));
    panel.apply(Note::Timing {
        start: "a".to_string(),
        stop: "b".to_string(),
        duration: "c".to_string(),
    });
    assert_eq!(panel.timing_text(), "Start: a  Stop: b  Duration: c");
    assert_eq!(panel.progress, Progress { done: 1, total: 4 });
    assert_eq!(
        (panel.input_files_info.as_str(), panel.output_file_name.as_str()),
        ("info", "name")
    );
    assert_eq!(
        (panel.header_check_status.as_str(), panel.header_info.as_str()),
        ("check", "header")
    );
    assert!(panel.is_busy);
    panel.apply(Note::Error("broken".to_string()));
    assert!(!panel.is_busy);
    assert_eq!(panel.status_message, "broken");
    assert_eq!(panel.status_color, StatusColor::Red);
    panel.show("fine", StatusColor::Green);
    assert_eq!((panel.status_message.as_str(), panel.status_color), ("fine", StatusColor::Green));
}

#[test]
fn every_report_ends_the_work() {
    let rows = vec!["E225".to_string()];
    let reports = vec![
        baseline_session::merge_report(Ok("p")),
        baseline_session::merge_report(Err("e")),
        baseline_session::save_report(2, "f.xlsx", Ok(())),
        baseline_session::save_report(2, "f.xlsx", Err("e")),
        baseline_session::missing_workbook_report("p"),
        baseline_session::read_report(0),
        baseline_session::process_report(3, "s", "t", 12),
        baseline_session::save_mean_report(Ok(())),
        baseline_session::save_mean_report(Err("e")),
        baseline_session::header_report(Ok("text")),
        baseline_session::header_report(Err("e")),
        segment_session::segments_report(&SegmentsOutcome::Saved),
        segment_session::segments_report(&SegmentsOutcome::Failed("e".to_string())),
        segment_session::segments_report(&SegmentsOutcome::NoSegments),
        segment_session::segments_report(&SegmentsOutcome::Unreadable("e".to_string())),
        segment_session::unreadable_report("e"),
        segment_session::no_segments_report(),
        segment_session::calibration_complete(),
        segment_session::flux_complete(),
        segment_session::missing_workbook_report("run", "Flux"),
        segment_session::header_check_report(Ok(&rows)),
        segment_session::header_check_report(Err("e")),
        segment_session::flux_combine_report(2, Ok("p")),
        segment_session::flux_combine_report(2, Err("e")),
        observation_session::combine_report(2, Ok("p")),
        observation_session::combine_report(2, Err("e")),
        observation_session::analyze_report(Ok(())),
        observation_session::analyze_report(Err("e")),
    ];
    for notes in reports {
        let mut panel = Panel::new("");
        panel.is_busy = true;
        for note in notes {
            panel.apply(note);
        }
        assert!(!panel.is_busy);
    }
}

#[test]
fn baseline_reports() {
    assert_eq!(
        shown(&baseline_session::merge_report(Ok("d/x.txt"))),
        vec![
            "InputFilesInfo(\"Merged into d/x.txt\")",
            "OutputFileName(\"multiple_file_output.xlsx\")",
            "Status(\"Merge Complete. Ready.\", Green)",
            "Busy(false)"
        ]
    );
    assert_eq!(
        shown(&baseline_session::merge_report(Err("no disk"))),
        vec!["Error(\"Merge Error: no disk\")", "Busy(false)"]
    );
    assert_eq!(
        shown(&[baseline_session::file_status(0, 3)]),
        vec!["Status(\"Processing file 1/3...\", Orange)"]
    );
    assert_eq!(
        shown(&baseline_session::save_report(15, "a.xlsx", Ok(()))),
        vec!["Status(\"Saved 15 events to a.xlsx\", Green)", "Busy(false)"]
    );
    assert_eq!(
        shown(&baseline_session::missing_workbook_report("a.xlsx")),
        vec![
            "Error(\"Expected input file not found: a.xlsx. Please run 'Pre-Process to Excel' first.\")",
            "Busy(false)"
        ]
    );
    assert_eq!(
        shown(&baseline_session::read_report(4)),
        vec!["Progress(Progress { done: 1, total: 2 })"]
    );
    assert_eq!(baseline_session::read_report(0).len(), 2);
    assert_eq!(
        shown(&baseline_session::process_report(4, "10:00:00", "10:00:01", 1000)),
        vec![
            "Timing { start: \"10:00:00\", stop: \"10:00:01\", duration: \"1000 ms\" }",
            "Status(\"Processed 4 events.\", Green)",
            "Progress(Progress { done: 1, total: 1 })",
            "Busy(false)"
        ]
    );
    assert_eq!(
        shown(&baseline_session::header_report(Err("gone")))[0],
        "HeaderInfo(\"Error: gone\")"
    );
    assert_eq!(baseline_session::channel_title(0), "Channel 1");
    assert_eq!(
        baseline_session::fit_text("1.00", "2.00", "3.00", "4.00"),
        "mu=1.00 sigma=2.00 fwhm=3.00 res=4.00%"
    );
}

#[test]
fn means_that_are_taken_off() {
    assert_eq!(baseline_session::mean_source(false, false, false), MeanSource::Nothing);
    assert_eq!(baseline_session::mean_source(false, true, true), MeanSource::Nothing);
    assert_eq!(baseline_session::mean_source(true, true, false), MeanSource::Computed);
    assert_eq!(baseline_session::mean_source(true, false, true), MeanSource::Computed);
    assert_eq!(baseline_session::mean_source(true, false, false), MeanSource::Stored);
}

#[test]
fn baseline_commands() {
    let mut session: BaselineSession<&str, BaselineData> = BaselineSession::new();
    assert_eq!(session.panel.output_file_name, "output.txt");
    assert_eq!(session.data_counts_text(), "-");
    assert!(session.is_free());
    assert!(!session.can_pre_process());
    assert!(!session.pre_process_data());
    assert_eq!(session.panel.status_message, "No files selected for processing.");
    assert_eq!(session.panel.status_color, StatusColor::Red);
    assert!(!session.check_header());
    assert_eq!(session.panel.status_message, "Please select files first.");
    assert!(!session.save_mean());
    assert_eq!(session.panel.status_message, "No data to process.");

    assert_eq!(session.select_files(Some(vec!["a.txt"]), Some("a")), None);
    assert_eq!(session.panel.output_file_name, "a.xlsx");
    assert_eq!(session.panel.input_files_info, "1 file selected.");
    assert_eq!(session.panel.status_message, "File loaded. Ready.");
    assert!(session.can_pre_process());
    session.panel.output_file_name = " \t".to_string();
    assert!(!session.pre_process_data());
    assert_eq!(session.panel.status_message, "Please provide output filename.");
    session.panel.output_file_name = "a.xlsx".to_string();
    assert!(session.pre_process_data());
    assert!(!session.is_free());
    assert_eq!(session.panel.status_color, StatusColor::Orange);
    assert!(!session.recompute_fits(true));
    session.apply(Note::Busy(false));
    assert!(!session.recompute_fits(false));
    assert!(session.recompute_fits(true));
    assert_eq!(session.panel.status_message, "Refitting...");
    session.apply(Note::Busy(false));

    session.process_data();
    assert_eq!(session.panel.status_message, "Processing...");
    session.load(vec![BaselineData::default(); 3]);
    assert_eq!(session.data_counts_text(), "3");
    assert!(!session.can_save());
    for note in baseline_session::process_report(3, "s", "t", 1) {
        session.apply(note);
    }
    assert!(session.can_save());
    assert!(session.save_mean());
    assert!(!session.can_save());
    session.apply(Note::Busy(false));
    assert!(session.check_header());
    assert_eq!(session.panel.header_info, "Analyzing File Structure (Head & Tail)...");
    session.apply(Note::Busy(false));

    session.reset();
    assert_eq!(session.panel.status_message, "Reset complete.");
    assert_eq!(session.panel.start_time, "s");
    assert!(session.selected_files.is_empty());
    assert!(session.processed_data.is_empty());
    assert!(!session.can_save());

    assert_eq!(session.select_files(Some(vec!["a", "b"]), Some("a")), Some(vec!["a", "b"]));
    assert_eq!(session.panel.input_files_info, "2 files selected.");
    assert_eq!(session.panel.status_message, "Merging 2 files...");
    assert!(!session.is_free());
    assert_eq!(session.select_files(None, None), None);
    assert_eq!(session.panel.status_message, "Reset complete.");
    assert_eq!(session.select_files(Some(vec!["/"]), None), None);
    assert_eq!(session.panel.output_file_name, "output.xlsx");
}

#[test]
fn calibration_commands() {
    let mut session: CalibrationSession<u8> = CalibrationSession::new();
    assert_eq!(session.panel.output_file_name, "CalibrationResult");
    assert!(!session.read_data());
    assert_eq!(session.panel.status_message, "Select raw .txt files first.");
    session.select_files(None);
    assert_eq!(session.panel.status_message, "Select raw .txt files first.");
    session.select_files(Some(vec![1, 2]));
    assert_eq!(session.panel.input_files_info, "2 txt file(s) selected");
    assert_eq!(session.panel.status_message, "Files selected.");
    assert!(session.can_pre_process());
    session.process_data();
    assert_eq!(session.panel.status_message, "Processing raw data...");
    assert!(!session.can_pre_process());
    session.apply(Note::Busy(false));
    session.check_header();
    assert_eq!(session.panel.header_check_status, "Checking...");
    session.apply(Note::Busy(false));
    assert!(session.read_data());
    let mut accumulator = CalibrationAccumulator::default();
    accumulator.process_calibration(&vec!["01".to_string(); 146]);
    session.load(accumulator);
    session.show_rows(Vec::new(), "[]".to_string());
    assert_eq!(session.accumulator.columns(0)[0], vec![257]);
    assert_eq!(session.json_preview, "[]");
    assert!(!session.can_export());
    assert!(!session.is_free());
    session.reset();
    assert!(session.accumulator.columns(0)[0].is_empty());
    assert_eq!(session.json_preview, "");
    assert_eq!(session.panel.header_check_status, "");
    assert!(session.input_files.is_empty());
    assert_eq!(calibration_session::channel_title(0), "X1");
    assert_eq!(calibration_session::channel_title(7), "X8");
    assert_eq!(calibration_session::channel_title(8), "Z1");
    assert_eq!(calibration_session::channel_title(15), "Z8");
}

#[test]
fn a_baseline_run_sends_its_steps_in_order() {
    let texts = |state: RunState| -> Vec<String> {
        run_steps(&state).iter().map(|step| format!("{step:?}")).collect()
    };
    let end = "Note(Busy(false))".to_string();
    let reading = "Note(Status(\"Reading Excel...\", Orange))".to_string();
    assert_eq!(
        texts(RunState::NoFolder("denied".to_string())),
        vec!["Note(Error(\"denied\"))".to_string(), end.clone()]
    );
    assert_eq!(
        texts(RunState::NoWorkbook("a.xlsx".to_string())),
        vec![
            "Note(Error(\"Expected input file not found: a.xlsx. Please run 'Pre-Process to Excel' first.\"))".to_string(),
            end.clone()
        ]
    );
    assert_eq!(texts(RunState::Reading), vec![reading.clone()]);
    assert_eq!(
        texts(RunState::Unreadable("bad".to_string())),
        vec![reading.clone(), "Note(Error(\"Read Error: bad\"))".to_string(), end.clone()]
    );
    let loaded = texts(RunState::Loaded(4));
    assert_eq!(
        loaded,
        vec![
            reading,
            "Loaded".to_string(),
            "Note(Progress(Progress { done: 1, total: 2 }))".to_string()
        ]
    );
    let empty = texts(RunState::Loaded(0));
    assert_eq!(empty[..3], loaded[..]);
    assert_eq!(empty[3..], [end.clone()]);
    let state = RunState::Processed {
        count: 4,
        start: "10:00:00".to_string(),
        stop: "10:00:01".to_string(),
        millis: 1000,
    };
    let steps = run_steps(&state);
    for index in 0..16 {
        assert!(matches!(steps[3 + index], RunStep::Channel(i) if i == index));
    }
    let all = texts(state);
    assert_eq!(all[..3], loaded[..]);
    assert_eq!(all.len(), 23);
    assert_eq!(
        all[19],
        "Note(Timing { start: \"10:00:00\", stop: \"10:00:01\", duration: \"1000 ms\" })"
    );
    assert_eq!(all[20], "Note(Status(\"Processed 4 events.\", Green))");
    assert_eq!(all[22], end);
    assert_eq!(all.iter().filter(|step| **step == end).count(), 1);
}

#[test]
fn flux_commands() {
    let mut session: FluxSession<u8> = FluxSession::new();
    assert_eq!(session.panel.output_file_name, "FluxResult");
    assert!(!session.read_data());
    assert_eq!(session.select_files(Some(vec![1]), Some("run")), None);
    assert_eq!(session.panel.output_file_name, "run.xlsx");
    assert_eq!(session.panel.status_message, "Files loaded. Ready to process.");
    assert!(session.can_pre_process());
    assert!(session.read_data());
    session.count_data(7);
    let mut accumulator = FluxAccumulator::default();
    assert!(accumulator.process_flux_observation(&"00".repeat(2064)));
    session.load(accumulator);
    assert_eq!(session.accumulator.all_results.len(), 1);
    assert_eq!(session.accumulator.time_millis_list, vec![0]);
    session.show_rows(Vec::new(), "[]".to_string());
    session.apply(Note::HeaderInfo("h".to_string()));
    session.apply(Note::Timing {
        start: "a".to_string(),
        stop: "b".to_string(),
        duration: "c".to_string(),
    });
    assert_eq!(session.data_count, 7);
    assert_eq!(session.accumulator.time_millis_list, vec![0]);
    session.reset();
    assert!(session.accumulator.all_results.is_empty());
    assert!(session.accumulator.time_millis_list.is_empty());
    assert_eq!(session.accumulator.particle_counting_lists, vec![Vec::<i32>::new(); 7]);
    assert_eq!(session.data_count, 0);
    assert_eq!(session.panel.header_info, "");
    assert_eq!(session.panel.timing_text(), "Start: -  Stop: -  Duration: -");
    assert_eq!(session.panel.status_message, "Reset complete.");
    assert_eq!(session.select_files(Some(vec![1, 2, 3]), None), Some(vec![1, 2, 3]));
    assert_eq!(session.panel.status_message, "Combining 3 files...");
    assert!(!session.is_free());
    assert_eq!(session.select_files(Some(vec![1]), None), None);
    assert_eq!(session.panel.output_file_name, "FluxResult.xlsx");
    session.check_header();
    assert_eq!(session.panel.header_check_status, "Checking...");
    session.process_data();
    assert_eq!(session.panel.status_message, "Processing raw data...");
    assert_eq!(flux_session::layer_title(6), "L7");
    assert_eq!(flux_session::layer_text(0, "1.00"), "No valid flux data");
    assert_eq!(flux_session::layer_text(5, "1.00"), "Points: 5 | Max: 1.00");
}

#[test]
fn observation_commands() {
    let mut session: ObservationSession<u8> = ObservationSession::new();
    assert!(session.is_free());
    assert!(!session.can_analyze());
    assert_eq!(session.data_count_text(), "-");
    assert_eq!(session.select_files(None), None);
    assert_eq!(session.panel.status_message, "Ready");
    assert_eq!(session.select_files(Some(vec![4])), None);
    assert_eq!(session.panel.status_message, "1 file selected.");
    assert!(session.can_analyze());
    session.analyze_files();
    assert_eq!(session.panel.status_message, "Processing...");
    assert!(!session.can_analyze());
    session.load_histograms(HistogramSet { entries: Vec::new() });
    session.load_events(Vec::new());
    for note in observation_session::analyze_report(Ok(())) {
        session.apply(note);
    }
    assert_eq!(session.panel.status_message, "Processing complete!");
    assert!(session.histograms.is_some());
    assert_eq!(session.data_count_text(), "0");
    assert!(!session.can_export());
    assert_eq!(session.select_files(Some(vec![1, 2])), Some(vec![1, 2]));
    assert_eq!(session.panel.status_message, "Combining 2 files...");
    for note in observation_session::combine_report(2, Ok("c.txt")) {
        session.apply(note);
    }
    session.use_files(vec![9]);
    assert_eq!(session.panel.input_files_info, "2 file(s) combined.");
    assert_eq!(
        session.panel.status_message,
        "Files combined successfully into c.txt"
    );
    assert!(session.can_analyze());
    session.reset();
    assert!(session.input_files.is_empty());
    assert!(session.histograms.is_none());
    assert_eq!(session.data_count_text(), "-");
    assert_eq!(session.panel.status_message, "Ready");
    assert_eq!(
        shown(&observation_session::analyze_report(Err("no disk")))[0],
        "Error(\"Error! no disk\")"
    );
}

#[test]
fn reports_on_segments() {
    assert_eq!(
        shown(&[segment_session::saving_segments(12)]),
        vec!["Status(\"Saving 12 segments to Excel...\", Gray)"]
    );
    assert_eq!(
        shown(&segment_session::segments_report(&SegmentsOutcome::Unreadable("e".to_string())))[0],
        "Error(\"Error: e\")"
    );
    assert_eq!(
        shown(&segment_session::segments_report(&SegmentsOutcome::NoSegments))[0],
        "Status(\"No valid segments found.\", Red)"
    );
    assert_eq!(
        shown(&segment_session::calibration_progress(1000, 2500)),
        vec![
            "Progress(Progress { done: 1000, total: 2500 })",
            "Status(\"Reading data: 1000/2500 segments\", Gray)"
        ]
    );
    assert!(segment_session::calibration_progress(1001, 2500).is_empty());
    assert_eq!(
        shown(&segment_session::flux_progress(500, 1000, "50.0"))[1],
        "Status(\"Processing... 50.0% (500/1000)\", Gray)"
    );
    assert!(segment_session::flux_progress(499, 1000, "49.9").is_empty());
    assert_eq!(
        shown(&segment_session::missing_workbook_report("run", "Flux"))[0],
        "Error(\"File not found: run.xlsx (searched Documents/DSSD_Analysis/Flux and legacy locations)\")"
    );
    let rows = vec!["E2250".to_string(), "x".to_string()];
    assert_eq!(
        shown(&segment_session::header_check_report(Ok(&rows)))[0],
        "HeaderCheck(\"Header is INCORRECT! at data row no. 2\")"
    );
    assert_eq!(
        shown(&segment_session::header_check_report(Err("e")))[0],
        "Error(\"Error reading file: e\")"
    );
    assert_eq!(
        shown(&segment_session::flux_combine_report(3, Ok("c.txt"))),
        vec![
            "InputFilesInfo(\"3 files combined.\")",
            "OutputFileName(\"multiple_file_output.xlsx\")",
            "Status(\"Files combined into c.txt\", Green)",
            "Busy(false)"
        ]
    );
}

#[test]
fn messages_on_exports() {
    assert_eq!(export_text(3, "row(s)", Ok("t.csv")), "Exported 3 row(s) to t.csv");
    assert_eq!(export_text(3, "row(s)", Err("e")), "Failed to export CSV: e");
    assert_eq!(json_text(3, Ok("t.json")), "Saved 3 row(s) to t.json");
    assert_eq!(json_text(3, Err("e")), "Failed to save JSON: e");
}
