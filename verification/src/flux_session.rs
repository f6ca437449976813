//! The commands of flux mode.
//!
//! `F` is how the caller names a file. The layers' curves are the
//! caller's.

use crate::baseline_session::stem_view;
use crate::flux::processing::FluxAccumulator;
use crate::flux_mode::FluxRow;
use crate::models::flux::FluxView;
use crate::panel::{no_progress, nothing_done, Note, Panel, PanelView};
use crate::text::{concat2, concat3, int_text, natural};
use vstd::prelude::*;
use vstd::string::StringExecFns;

verus! {

/// The state of flux mode.
#[derive(Debug, Clone)]
pub struct FluxSession<F> {
    pub panel: Panel,
    pub selected_files: Vec<F>,
    pub accumulator: FluxAccumulator,
    pub rows: Vec<FluxRow>,
    /// The first rows, as JSON text.
    pub json_preview: String,
    /// The number of segments that the files hold.
    pub data_count: usize,
}

/// The state of flux mode.
pub struct FluxSessionView<F> {
    pub panel: PanelView,
    pub selected_files: Seq<F>,
    pub packets: Seq<FluxView>,
    pub rows: Seq<FluxRow>,
    pub json_preview: Seq<char>,
    pub data_count: int,
}

impl<F> View for FluxSession<F> {
    type V = FluxSessionView<F>;

    open spec fn view(&self) -> FluxSessionView<F> {
        FluxSessionView {
            panel: self.panel@,
            selected_files: self.selected_files@,
            packets: self.accumulator@,
            rows: self.rows@,
            json_preview: self.json_preview@,
            data_count: self.data_count as int,
        }
    }
}

impl<F> FluxSessionView<F> {
    /// Before any command.
    pub open spec fn fresh() -> FluxSessionView<F> {
        FluxSessionView {
            panel: PanelView::fresh("FluxResult"@),
            selected_files: Seq::empty(),
            packets: Seq::empty(),
            rows: Seq::empty(),
            json_preview: Seq::empty(),
            data_count: 0,
        }
    }

    /// With another panel.
    pub open spec fn with_panel(self, panel: PanelView) -> FluxSessionView<F> {
        FluxSessionView { panel, ..self }
    }

    /// Without what the files have given.
    pub open spec fn without_data(self) -> FluxSessionView<F> {
        FluxSessionView {
            packets: Seq::empty(),
            rows: Seq::empty(),
            json_preview: Seq::empty(),
            ..self
        }
    }

    /// After one file was chosen, given its name without the ending.
    pub open spec fn with_file(self, files: Seq<F>, stem: Option<Seq<char>>) -> FluxSessionView<F> {
        let state = self.cleared();
        FluxSessionView {
            panel: PanelView {
                output_file_name: match stem {
                    Some(name) => name + ".xlsx"@,
                    None => "FluxResult.xlsx"@,
                },
                input_files_info: "1 file selected."@,
                status_message: "Files loaded. Ready to process."@,
                ..state.panel
            },
            selected_files: files,
            ..state
        }
    }

    /// After `count` files were chosen, which are about to be combined.
    pub open spec fn combining(self, count: int) -> FluxSessionView<F> {
        let state = self.cleared();
        state.with_panel(
            PanelView {
                is_busy: true,
                status_message: "Combining "@ + int_text(count) + " files..."@,
                ..state.panel
            },
        )
    }

    /// After a reset.
    pub open spec fn cleared(self) -> FluxSessionView<F> {
        FluxSessionView {
            panel: PanelView {
                input_files_info: "No files selected"@,
                status_message: "Reset complete."@,
                progress: no_progress(),
                header_check_status: ""@,
                header_info: ""@,
                start_time: "-"@,
                stop_time: "-"@,
                duration: "-"@,
                ..self.panel
            },
            selected_files: Seq::empty(),
            data_count: 0,
            ..self.without_data()
        }
    }
}

impl<F> FluxSession<F> {
    /// The state before any command.
    pub fn new() -> (r: FluxSession<F>)
        ensures
            r@ == FluxSessionView::<F>::fresh(),
            r.accumulator.wf(),
    {
        FluxSession {
            panel: Panel::new("FluxResult"),
            selected_files: Vec::new(),
            accumulator: FluxAccumulator::default(),
            rows: Vec::new(),
            json_preview: String::new(),
            data_count: 0,
        }
    }

    /// Takes in one report of a worker.
    pub fn apply(&mut self, note: Note)
        ensures
            final(self)@ == old(self)@.with_panel(old(self)@.panel.noted(note@)),
            final(self).accumulator == old(self).accumulator,
    {
        self.panel.apply(note);
    }

    /// Takes in the packets that a worker has read.
    pub fn load(&mut self, accumulator: FluxAccumulator)
        ensures
            final(self)@ == (FluxSessionView { packets: accumulator@, ..old(self)@ }),
            final(self).accumulator == accumulator,
    {
        self.accumulator = accumulator;
    }

    /// Takes in the rows that a worker has read, with the first of them as JSON
    /// text.
    pub fn show_rows(&mut self, rows: Vec<FluxRow>, json_preview: String)
        ensures
            final(self)@ == (FluxSessionView {
                rows: rows@,
                json_preview: json_preview@,
                ..old(self)@
            }),
            final(self).accumulator == old(self).accumulator,
    {
        self.rows = rows;
        self.json_preview = json_preview;
    }

    /// Files can be selected and checked, and data read.
    pub fn is_free(&self) -> (r: bool)
        ensures
            r == !self@.panel.is_busy,
    {
        !self.panel.is_busy
    }

    /// There are files that can be written to a workbook.
    pub fn can_pre_process(&self) -> (r: bool)
        ensures
            r == (!self@.panel.is_busy && self@.selected_files.len() > 0),
    {
        !self.panel.is_busy && self.selected_files.len() > 0
    }

    /// There are rows that can be exported.
    pub fn can_export(&self) -> (r: bool)
        ensures
            r == (self@.rows.len() > 0),
    {
        self.rows.len() > 0
    }

    fn forget_data(&mut self)
        ensures
            final(self)@ == old(self)@.without_data(),
            final(self).accumulator.wf(),
    {
        self.accumulator = FluxAccumulator::default();
        self.rows = Vec::new();
        self.json_preview = String::new();
    }

    /// Forgets files and data.
    pub fn reset(&mut self)
        ensures
            final(self)@ == old(self)@.cleared(),
            final(self).accumulator.wf(),
    {
        self.selected_files = Vec::new();
        self.panel.input_files_info = String::from_str("No files selected");
        self.forget_data();
        self.panel.message("Reset complete.");
        self.panel.progress = nothing_done();
        self.panel.header_check_status = String::from_str("");
        self.panel.header_info = String::from_str("");
        self.panel.start_time = String::from_str("-");
        self.panel.stop_time = String::from_str("-");
        self.panel.duration = String::from_str("-");
        self.data_count = 0;
    }

    /// Takes the files that were chosen; `stem` is the name of the first
    /// without its ending. More than one file, or none, are handed back to be
    /// combined.
    pub fn select_files(&mut self, files: Option<Vec<F>>, stem: Option<&str>) -> (r: Option<Vec<F>>)
        ensures
            match files {
                None => r is None && final(self)@ == old(self)@.cleared(),
                Some(files) => if files@.len() == 1 {
                    r is None && final(self)@ == old(self)@.with_file(files@, stem_view(stem))
                } else {
                    r == Some(files) && final(self)@ == old(self)@.combining(files@.len() as int)
                },
            },
            final(self).accumulator.wf(),
    {
        self.reset();
        match files {
            None => None,
            Some(files) => {
                if files.len() == 1 {
                    self.panel.output_file_name = match stem {
                        Some(name) => concat2(name, ".xlsx"),
                        None => String::from_str("FluxResult.xlsx"),
                    };
                    self.panel.input_files_info = String::from_str("1 file selected.");
                    self.selected_files = files;
                    self.panel.message("Files loaded. Ready to process.");
                    None
                } else {
                    let count = natural(files.len() as u64);
                    self.panel.is_busy = true;
                    self.panel.status_message = concat3("Combining ", count.as_str(), " files...");
                    Some(files)
                }
            },
        }
    }

    /// Takes in the number of segments that a worker has found.
    pub fn count_data(&mut self, count: usize)
        ensures
            final(self)@ == (FluxSessionView { data_count: count as int, ..old(self)@ }),
            final(self).accumulator == old(self).accumulator,
    {
        self.data_count = count;
    }

    /// Begins to check a workbook.
    pub fn check_header(&mut self)
        ensures
            final(self)@ == old(self)@.with_panel(
                PanelView {
                    is_busy: true,
                    header_check_status: "Checking..."@,
                    ..old(self)@.panel
                },
            ),
            final(self).accumulator == old(self).accumulator,
    {
        self.panel.is_busy = true;
        self.panel.header_check_status = String::from_str("Checking...");
    }

    /// Begins to write the segments of the selected files to a workbook.
    pub fn process_data(&mut self)
        ensures
            final(self)@ == old(self)@.with_panel(
                PanelView {
                    is_busy: true,
                    ..old(self)@.panel.with_message("Processing raw data..."@)
                },
            ),
            final(self).accumulator == old(self).accumulator,
    {
        self.panel.is_busy = true;
        self.panel.message("Processing raw data...");
    }

    /// Begins to read the selected files, unless there are none. Says whether
    /// the work is to begin.
    pub fn read_data(&mut self) -> (r: bool)
        ensures
            r == (old(self)@.selected_files.len() > 0),
            final(self)@ == (if r {
                old(self)@.with_panel(
                    PanelView { is_busy: true, progress: no_progress(), ..old(self)@.panel },
                ).without_data()
            } else {
                old(self)@.with_panel(
                    old(self)@.panel.with_message("Select raw .txt files first."@),
                )
            }),
            r ==> final(self).accumulator.wf(),
            !r ==> final(self).accumulator == old(self).accumulator,
    {
        if self.selected_files.len() == 0 {
            self.panel.message("Select raw .txt files first.");
            return false;
        }
        self.panel.is_busy = true;
        self.panel.progress = nothing_done();
        self.forget_data();
        true
    }
}


/// The name of a layer.
pub fn layer_title(index: usize) -> (r: String)
    requires
        index < usize::MAX,
    ensures
        r@ == "L"@ + int_text(index + 1),
{
    concat2("L", natural(index as u64 + 1).as_str())
}

/// The line on a layer's curve: the number of its points and, as text, the
/// greatest flux.
pub fn layer_text(points: usize, max_flux: &str) -> (r: String)
    ensures
        r@ == (if points == 0 {
            "No valid flux data"@
        } else {
            "Points: "@ + int_text(points as int) + " | Max: "@ + max_flux@
        }),
{
    if points == 0 {
        return String::from_str("No valid flux data");
    }
    let mut out = concat3("Points: ", natural(points as u64).as_str(), " | Max: ");
    out.append(max_flux);
    out
}

/// A second reset changes nothing.
pub proof fn reset_twice_is_once<F>(state: FluxSessionView<F>)
    ensures
        state.cleared().cleared() == state.cleared(),
{
}

} // verus!
