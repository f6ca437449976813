//! The commands of calibration mode.
//!
//! `F` is how the caller names a file. The channels' histograms and fits are
//! the caller's.

use crate::calibration::processing::{CalibrationAccumulator, CalibrationView};
use crate::calibration_mode::CalibrationRow;
use crate::panel::{no_progress, nothing_done, Note, Panel, PanelView};
use crate::text::{concat2, int_text, natural};
use vstd::prelude::*;
use vstd::string::StringExecFns;

verus! {

/// The state of calibration mode.
#[derive(Debug, Clone)]
pub struct CalibrationSession<F> {
    pub panel: Panel,
    pub input_files: Vec<F>,
    pub accumulator: CalibrationAccumulator,
    pub rows: Vec<CalibrationRow>,
    /// The first rows, as JSON text.
    pub json_preview: String,
}

/// The state of calibration mode.
pub struct CalibrationSessionView<F> {
    pub panel: PanelView,
    pub input_files: Seq<F>,
    pub channels: CalibrationView,
    pub rows: Seq<CalibrationRow>,
    pub json_preview: Seq<char>,
}

impl<F> View for CalibrationSession<F> {
    type V = CalibrationSessionView<F>;

    open spec fn view(&self) -> CalibrationSessionView<F> {
        CalibrationSessionView {
            panel: self.panel@,
            input_files: self.input_files@,
            channels: self.accumulator@,
            rows: self.rows@,
            json_preview: self.json_preview@,
        }
    }
}

impl<F> CalibrationSessionView<F> {
    /// Before any command.
    pub open spec fn fresh() -> CalibrationSessionView<F> {
        CalibrationSessionView {
            panel: PanelView::fresh("CalibrationResult"@),
            input_files: Seq::empty(),
            channels: CalibrationView::empty(),
            rows: Seq::empty(),
            json_preview: Seq::empty(),
        }
    }

    /// With another panel.
    pub open spec fn with_panel(self, panel: PanelView) -> CalibrationSessionView<F> {
        CalibrationSessionView { panel, ..self }
    }

    /// Without what the files have given.
    pub open spec fn without_data(self) -> CalibrationSessionView<F> {
        CalibrationSessionView {
            channels: CalibrationView::empty(),
            rows: Seq::empty(),
            json_preview: Seq::empty(),
            ..self
        }
    }

    /// After a reset.
    pub open spec fn cleared(self) -> CalibrationSessionView<F> {
        CalibrationSessionView {
            panel: PanelView {
                input_files_info: "No files selected"@,
                status_message: "Reset complete."@,
                progress: no_progress(),
                header_check_status: ""@,
                ..self.panel
            },
            input_files: Seq::empty(),
            ..self.without_data()
        }
    }
}

impl<F> CalibrationSession<F> {
    /// The state before any command.
    pub fn new() -> (r: CalibrationSession<F>)
        ensures
            r@ == CalibrationSessionView::<F>::fresh(),
    {
        CalibrationSession {
            panel: Panel::new("CalibrationResult"),
            input_files: Vec::new(),
            accumulator: CalibrationAccumulator::default(),
            rows: Vec::new(),
            json_preview: String::new(),
        }
    }

    /// Takes in one report of a worker.
    pub fn apply(&mut self, note: Note)
        ensures
            final(self)@ == old(self)@.with_panel(old(self)@.panel.noted(note@)),
    {
        self.panel.apply(note);
    }

    /// Takes in the channel values that a worker has read.
    pub fn load(&mut self, accumulator: CalibrationAccumulator)
        ensures
            final(self)@ == (CalibrationSessionView { channels: accumulator@, ..old(self)@ }),
    {
        self.accumulator = accumulator;
    }

    /// Takes in the rows that a worker has read, with the first of them as JSON
    /// text.
    pub fn show_rows(&mut self, rows: Vec<CalibrationRow>, json_preview: String)
        ensures
            final(self)@ == (CalibrationSessionView {
                rows: rows@,
                json_preview: json_preview@,
                ..old(self)@
            }),
    {
        self.rows = rows;
        self.json_preview = json_preview;
    }

    /// Files can be selected and checked, and data read.
    pub fn is_free(&self) -> (r: bool)
        ensures
            r == !self@.panel.is_busy,
    {
        !self.panel.is_busy
    }

    /// There are files that can be written to a workbook.
    pub fn can_pre_process(&self) -> (r: bool)
        ensures
            r == (!self@.panel.is_busy && self@.input_files.len() > 0),
    {
        !self.panel.is_busy && self.input_files.len() > 0
    }

    /// There are rows that can be exported.
    pub fn can_export(&self) -> (r: bool)
        ensures
            r == (self@.rows.len() > 0),
    {
        self.rows.len() > 0
    }

    fn forget_data(&mut self)
        ensures
            final(self)@ == old(self)@.without_data(),
    {
        self.accumulator = CalibrationAccumulator::default();
        self.rows = Vec::new();
        self.json_preview = String::new();
    }

    /// Forgets files and data.
    pub fn reset(&mut self)
        ensures
            final(self)@ == old(self)@.cleared(),
    {
        self.input_files = Vec::new();
        self.panel.input_files_info = String::from_str("No files selected");
        self.forget_data();
        self.panel.message("Reset complete.");
        self.panel.progress = nothing_done();
        self.panel.header_check_status = String::from_str("");
    }

    /// Takes the files that were chosen, if any were.
    pub fn select_files(&mut self, files: Option<Vec<F>>)
        ensures
            final(self)@ == (match files {
                None => old(self)@,
                Some(files) => CalibrationSessionView {
                    panel: PanelView {
                        input_files_info: int_text(files@.len() as int)
                            + " txt file(s) selected"@,
                        status_message: "Files selected."@,
                        ..old(self)@.panel
                    },
                    input_files: files@,
                    ..old(self)@
                },
            }),
    {
        match files {
            None => {},
            Some(files) => {
                self.panel.input_files_info = concat2(
                    natural(files.len() as u64).as_str(),
                    " txt file(s) selected",
                );
                self.input_files = files;
                self.panel.message("Files selected.");
            },
        }
    }

    /// Begins to check a workbook.
    pub fn check_header(&mut self)
        ensures
            final(self)@ == old(self)@.with_panel(
                PanelView {
                    is_busy: true,
                    header_check_status: "Checking..."@,
                    ..old(self)@.panel
                },
            ),
    {
        self.panel.is_busy = true;
        self.panel.header_check_status = String::from_str("Checking...");
    }

    /// Begins to write the segments of the selected files to a workbook.
    pub fn process_data(&mut self)
        ensures
            final(self)@ == old(self)@.with_panel(
                PanelView {
                    is_busy: true,
                    ..old(self)@.panel.with_message("Processing raw data..."@)
                },
            ),
    {
        self.panel.is_busy = true;
        self.panel.message("Processing raw data...");
    }

    /// Begins to read the selected files, unless there are none. Says whether
    /// the work is to begin.
    pub fn read_data(&mut self) -> (r: bool)
        ensures
            r == (old(self)@.input_files.len() > 0),
            final(self)@ == (if r {
                old(self)@.with_panel(
                    PanelView { is_busy: true, progress: no_progress(), ..old(self)@.panel },
                ).without_data()
            } else {
                old(self)@.with_panel(
                    old(self)@.panel.with_message("Select raw .txt files first."@),
                )
            }),
    {
        if self.input_files.len() == 0 {
            self.panel.message("Select raw .txt files first.");
            return false;
        }
        self.panel.is_busy = true;
        self.panel.progress = nothing_done();
        self.forget_data();
        true
    }
}

/// The title of a channel: X1 to X8, then Z1 to Z8.
pub fn channel_title(index: usize) -> (r: String)
    requires
        index < usize::MAX,
    ensures
        r@ == (if index < 8 {
            "X"@ + int_text(index + 1)
        } else {
            "Z"@ + int_text(index - 7)
        }),
{
    if index < 8 {
        concat2("X", natural(index as u64 + 1).as_str())
    } else {
        concat2("Z", natural(index as u64 - 7).as_str())
    }
}

/// The range of the horizontal axis: millivolts or channels of the converter.
pub fn axis_range(voltage: bool) -> (r: (i32, i32))
    ensures
        r == (if voltage {
            (0i32, 5000i32)
        } else {
            (0i32, 16384i32)
        }),
{
    if voltage {
        (0, 5000)
    } else {
        (0, 16384)
    }
}

/// The values above zero, in order.
pub open spec fn positive(values: Seq<i32>) -> Seq<i32> {
    values.filter(|v: i32| v > 0)
}

/// The values of a channel that its histogram counts: those above zero.
pub fn positive_values(values: &[i32]) -> (r: Vec<i32>)
    ensures
        r@ == positive(values@),
{
    let mut kept: Vec<i32> = Vec::new();
    proof {
        reveal(Seq::filter);
    }
    for i in 0..values.len()
        invariant
            kept@ == positive(values@.take(i as int)),
    {
        proof {
            assert(values@.take(i + 1).drop_last() == values@.take(i as int));
            reveal(Seq::filter);
        }
        if values[i] > 0 {
            kept.push(values[i]);
        }
    }
    assert(values@.take(values@.len() as int) =~= values@);
    kept
}

/// The line on a channel: the number of its values, and its fit where that is
/// solved, given as text.
pub fn channel_text(count: usize, fit: Option<&str>) -> (r: String)
    ensures
        r@ == "Counts: "@ + int_text(count as int) + (match fit {
            Some(text) => "  "@ + text@,
            None => ""@,
        }),
{
    let mut out = concat2("Counts: ", natural(count as u64).as_str());
    match fit {
        Some(text) => {
            let more = concat2("  ", text);
            out.append(more.as_str());
        },
        None => {
            out.append("");
        },
    }
    out
}

/// A second reset changes nothing.
pub proof fn reset_twice_is_once<F>(state: CalibrationSessionView<F>)
    ensures
        state.cleared().cleared() == state.cleared(),
{
}

} // verus!
