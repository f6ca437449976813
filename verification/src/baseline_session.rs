//! The commands of baseline mode and what its workers report.
//!
//! `F` is how the caller names a file and `D` how it holds a sample. The
//! channels' histograms and fits are the caller's.

use crate::panel::{
    all_done, ended, failure, full_progress, no_progress, note_views, nothing_done, status, Note, NoteView, Panel,
    PanelView, Progress, StatusColor,
};
use crate::text::{concat2, concat3, decimal, int_text, natural, trim, trimmed};
use vstd::prelude::*;
use vstd::string::StringExecFns;

verus! {

/// The state of baseline mode.
#[derive(Debug, Clone)]
pub struct BaselineSession<F, D> {
    pub panel: Panel,
    pub selected_files: Vec<F>,
    pub processed_data: Vec<D>,
    /// Data has been loaded since the last reset.
    pub loaded: bool,
    pub can_save_mean: bool,
}

/// The state of baseline mode.
pub struct BaselineSessionView<F, D> {
    pub panel: PanelView,
    pub selected_files: Seq<F>,
    pub processed_data: Seq<D>,
    pub loaded: bool,
    pub can_save_mean: bool,
}

impl<F, D> View for BaselineSession<F, D> {
    type V = BaselineSessionView<F, D>;

    open spec fn view(&self) -> BaselineSessionView<F, D> {
        BaselineSessionView {
            panel: self.panel@,
            selected_files: self.selected_files@,
            processed_data: self.processed_data@,
            loaded: self.loaded,
            can_save_mean: self.can_save_mean,
        }
    }
}

impl<F, D> BaselineSessionView<F, D> {
    /// Before any command.
    pub open spec fn fresh() -> BaselineSessionView<F, D> {
        BaselineSessionView {
            panel: PanelView::fresh("output.txt"@),
            selected_files: Seq::empty(),
            processed_data: Seq::empty(),
            loaded: false,
            can_save_mean: false,
        }
    }

    /// After a reset.
    pub open spec fn cleared(self) -> BaselineSessionView<F, D> {
        BaselineSessionView {
            panel: PanelView {
                input_files_info: "No files selected"@,
                status_message: "Reset complete."@,
                status_color: StatusColor::Gray,
                progress: no_progress(),
                ..self.panel
            },
            selected_files: Seq::empty(),
            processed_data: Seq::empty(),
            loaded: false,
            can_save_mean: false,
        }
    }

    /// With another panel.
    pub open spec fn with_panel(self, panel: PanelView) -> BaselineSessionView<F, D> {
        BaselineSessionView { panel, ..self }
    }

    /// After a report. The times of a run come at its end, when its means can
    /// be saved.
    pub open spec fn noted(self, note: NoteView) -> BaselineSessionView<F, D> {
        BaselineSessionView {
            panel: self.panel.noted(note),
            can_save_mean: self.can_save_mean || note is Timing,
            ..self
        }
    }

    /// After one file was chosen, given its name without the ending.
    pub open spec fn with_file(self, files: Seq<F>, stem: Option<Seq<char>>) -> BaselineSessionView<
        F,
        D,
    > {
        let state = self.cleared();
        BaselineSessionView {
            panel: PanelView {
                output_file_name: match stem {
                    Some(name) => name + ".xlsx"@,
                    None => "output.xlsx"@,
                },
                input_files_info: "1 file selected."@,
                status_message: "File loaded. Ready."@,
                ..state.panel
            },
            selected_files: files,
            ..state
        }
    }

    /// After `count` files were chosen, which are about to be merged.
    pub open spec fn merging(self, count: int) -> BaselineSessionView<F, D> {
        let state = self.cleared();
        state.with_panel(
            PanelView {
                input_files_info: int_text(count) + " files selected."@,
                is_busy: true,
                status_message: "Merging "@ + int_text(count) + " files..."@,
                ..state.panel
            },
        )
    }
}

/// The text of a file's name, where there is one.
pub open spec fn stem_view(stem: Option<&str>) -> Option<Seq<char>> {
    match stem {
        Some(name) => Some(name@),
        None => None,
    }
}

impl<F, D> BaselineSession<F, D> {
    /// The state before any command.
    pub fn new() -> (r: BaselineSession<F, D>)
        ensures
            r@ == BaselineSessionView::<F, D>::fresh(),
    {
        BaselineSession {
            panel: Panel::new("output.txt"),
            selected_files: Vec::new(),
            processed_data: Vec::new(),
            loaded: false,
            can_save_mean: false,
        }
    }

    /// Takes in one report of a worker.
    pub fn apply(&mut self, note: Note)
        ensures
            final(self)@ == old(self)@.noted(note@),
    {
        match &note {
            Note::Timing { .. } => {
                self.can_save_mean = true;
            },
            _ => {},
        }
        self.panel.apply(note);
    }

    /// Takes in the samples that a worker has read.
    pub fn load(&mut self, data: Vec<D>)
        ensures
            final(self)@ == (BaselineSessionView { processed_data: data@, loaded: true, ..old(self)@ }),
    {
        self.processed_data = data;
        self.loaded = true;
    }

    /// The number of samples that are loaded, as text.
    pub fn data_counts_text(&self) -> (r: String)
        ensures
            r@ == (if self.loaded {
                int_text(self.processed_data@.len() as int)
            } else {
                "-"@
            }),
    {
        if self.loaded {
            natural(self.processed_data.len() as u64)
        } else {
            String::from_str("-")
        }
    }

    /// Files can be selected and checked, and data processed.
    pub fn is_free(&self) -> (r: bool)
        ensures
            r == !self@.panel.is_busy,
    {
        !self.panel.is_busy
    }

    /// There are files that can be written to a workbook.
    pub fn can_pre_process(&self) -> (r: bool)
        ensures
            r == (!self@.panel.is_busy && self@.selected_files.len() > 0),
    {
        !self.panel.is_busy && self.selected_files.len() > 0
    }

    /// There are means that can be saved.
    pub fn can_save(&self) -> (r: bool)
        ensures
            r == (self@.can_save_mean && !self@.panel.is_busy),
    {
        self.can_save_mean && !self.panel.is_busy
    }

    /// Forgets files and data. The texts that earlier work has left, other
    /// than the status line, stay.
    pub fn reset(&mut self)
        ensures
            final(self)@ == old(self)@.cleared(),
    {
        self.selected_files = Vec::new();
        self.panel.input_files_info = String::from_str("No files selected");
        self.processed_data = Vec::new();
        self.loaded = false;
        self.panel.show("Reset complete.", StatusColor::Gray);
        self.panel.progress = nothing_done();
        self.can_save_mean = false;
    }

    /// Takes the files that were chosen; `stem` is the name of the first
    /// without its ending. More than one file, or none, are handed back to be
    /// merged.
    pub fn select_files(&mut self, files: Option<Vec<F>>, stem: Option<&str>) -> (r: Option<Vec<F>>)
        ensures
            match files {
                None => r is None && final(self)@ == old(self)@.cleared(),
                Some(files) => if files@.len() == 1 {
                    r is None && final(self)@ == old(self)@.with_file(files@, stem_view(stem))
                } else {
                    r == Some(files) && final(self)@ == old(self)@.merging(files@.len() as int)
                },
            },
    {
        self.reset();
        match files {
            None => None,
            Some(files) => {
                if files.len() == 1 {
                    self.panel.output_file_name = match stem {
                        Some(name) => concat2(name, ".xlsx"),
                        None => String::from_str("output.xlsx"),
                    };
                    self.panel.input_files_info = String::from_str("1 file selected.");
                    self.selected_files = files;
                    self.panel.message("File loaded. Ready.");
                    None
                } else {
                    let count = natural(files.len() as u64);
                    self.panel.input_files_info = concat2(count.as_str(), " files selected.");
                    self.panel.is_busy = true;
                    self.panel.status_message = concat3("Merging ", count.as_str(), " files...");
                    Some(files)
                }
            },
        }
    }

    /// Begins to write the selected files to a workbook, unless there are none
    /// or the workbook has no name. Says whether the work is to begin.
    pub fn pre_process_data(&mut self) -> (r: bool)
        ensures
            r == (old(self)@.selected_files.len() > 0 && trimmed(
                old(self)@.panel.output_file_name,
            ).len() > 0),
            final(self)@ == old(self)@.with_panel(
                if old(self)@.selected_files.len() == 0 {
                    old(self)@.panel.with_status(
                        "No files selected for processing."@,
                        StatusColor::Red,
                    )
                } else if trimmed(old(self)@.panel.output_file_name).len() == 0 {
                    old(self)@.panel.with_status("Please provide output filename."@, StatusColor::Red)
                } else {
                    PanelView {
                        is_busy: true,
                        ..old(self)@.panel.with_status(
                            "Processing raw files to Excel..."@,
                            StatusColor::Orange,
                        )
                    }
                },
            ),
    {
        if self.selected_files.len() == 0 {
            self.panel.show("No files selected for processing.", StatusColor::Red);
            return false;
        }
        if trim(self.panel.output_file_name.as_str()).len() == 0 {
            self.panel.show("Please provide output filename.", StatusColor::Red);
            return false;
        }
        self.panel.is_busy = true;
        self.panel.show("Processing raw files to Excel...", StatusColor::Orange);
        true
    }

    /// Begins to process the workbook.
    pub fn process_data(&mut self)
        ensures
            final(self)@ == (BaselineSessionView {
                panel: PanelView {
                    is_busy: true,
                    progress: no_progress(),
                    status_message: "Processing..."@,
                    ..old(self)@.panel
                },
                can_save_mean: false,
                ..old(self)@
            }),
    {
        self.panel.is_busy = true;
        self.panel.progress = nothing_done();
        self.panel.message("Processing...");
        self.can_save_mean = false;
    }

    /// Begins to solve the fits anew, unless other work is going on or no
    /// channel has a histogram. Says whether the work is to begin.
    pub fn recompute_fits(&mut self, any_histogram: bool) -> (r: bool)
        ensures
            r == (!old(self)@.panel.is_busy && any_histogram),
            final(self)@ == (if r {
                old(self)@.with_panel(
                    PanelView {
                        is_busy: true,
                        progress: no_progress(),
                        ..old(self)@.panel.with_status("Refitting..."@, StatusColor::Orange)
                    },
                )
            } else {
                old(self)@
            }),
    {
        if self.panel.is_busy || !any_histogram {
            return false;
        }
        self.panel.is_busy = true;
        self.panel.progress = nothing_done();
        self.panel.show("Refitting...", StatusColor::Orange);
        true
    }

    /// Begins to save the means, unless there is no data. Says whether the work
    /// is to begin.
    pub fn save_mean(&mut self) -> (r: bool)
        ensures
            r == (old(self)@.processed_data.len() > 0),
            final(self)@ == old(self)@.with_panel(
                if r {
                    PanelView {
                        is_busy: true,
                        ..old(self)@.panel.with_message("Calculating Means (Multithreaded)..."@)
                    }
                } else {
                    old(self)@.panel.with_message("No data to process."@)
                },
            ),
    {
        if self.processed_data.len() == 0 {
            self.panel.message("No data to process.");
            return false;
        }
        self.panel.is_busy = true;
        self.panel.message("Calculating Means (Multithreaded)...");
        true
    }

    /// Begins to look at the first selected file, unless there is none. Says
    /// whether the work is to begin.
    pub fn check_header(&mut self) -> (r: bool)
        ensures
            r == (old(self)@.selected_files.len() > 0),
            final(self)@ == old(self)@.with_panel(
                if r {
                    PanelView {
                        is_busy: true,
                        header_info: "Analyzing File Structure (Head & Tail)..."@,
                        ..old(self)@.panel
                    }
                } else {
                    old(self)@.panel.with_message("Please select files first."@)
                },
            ),
    {
        if self.selected_files.len() == 0 {
            self.panel.message("Please select files first.");
            return false;
        }
        self.panel.header_info = String::from_str("Analyzing File Structure (Head & Tail)...");
        self.panel.is_busy = true;
        true
    }
}

/// The report on merging the selected files: where they were put, or why that
/// failed.
pub fn merge_report(outcome: Result<&str, &str>) -> (r: Vec<Note>)
    ensures
        note_views(r@) == (match outcome {
            Ok(path) => seq![
                NoteView::InputFilesInfo("Merged into "@ + path@),
                NoteView::OutputFileName("multiple_file_output.xlsx"@),
                NoteView::Status("Merge Complete. Ready."@, StatusColor::Green),
                NoteView::Busy(false),
            ],
            Err(e) => seq![NoteView::Error("Merge Error: "@ + e@), NoteView::Busy(false)],
        }),
{
    match outcome {
        Ok(path) => vec![
            Note::InputFilesInfo(concat2("Merged into ", path)),
            Note::OutputFileName(String::from_str("multiple_file_output.xlsx")),
            status("Merge Complete. Ready.", StatusColor::Green),
            Note::Busy(false),
        ],
        Err(e) => failure(concat2("Merge Error: ", e)),
    }
}

/// The report that file number `index` of `count` is being read.
pub fn file_status(index: usize, count: usize) -> (r: Note)
    requires
        index < count,
    ensures
        r@ == NoteView::Status(
            "Processing file "@ + int_text(index + 1) + "/"@ + int_text(count as int) + "..."@,
            StatusColor::Orange,
        ),
{
    let mut text = concat3(
        "Processing file ",
        natural(index as u64 + 1).as_str(),
        "/",
    );
    text.append(natural(count as u64).as_str());
    text.append("...");
    Note::Status(text, StatusColor::Orange)
}

/// The report on saving samples to a workbook.
pub fn save_report(count: usize, file_name: &str, outcome: Result<(), &str>) -> (r: Vec<Note>)
    ensures
        note_views(r@) == (match outcome {
            Ok(_) => seq![
                NoteView::Status(
                    "Saved "@ + int_text(count as int) + " events to "@ + file_name@,
                    StatusColor::Green,
                ),
                NoteView::Busy(false),
            ],
            Err(e) => seq![
                NoteView::Error("Failed to save Excel file: "@ + e@),
                NoteView::Busy(false),
            ],
        }),
{
    match outcome {
        Ok(_) => {
            let mut text = concat3("Saved ", natural(count as u64).as_str(), " events to ");
            text.append(file_name);
            ended(text.as_str(), StatusColor::Green)
        },
        Err(e) => failure(concat2("Failed to save Excel file: ", e)),
    }
}

/// The report that there is no workbook to process.
pub fn missing_workbook_report(path: &str) -> (r: Vec<Note>)
    ensures
        note_views(r@) == seq![
            NoteView::Error(
                "Expected input file not found: "@ + path@
                    + ". Please run 'Pre-Process to Excel' first."@,
            ),
            NoteView::Busy(false),
        ],
{
    failure(
        concat3(
            "Expected input file not found: ",
            path,
            ". Please run 'Pre-Process to Excel' first.",
        ),
    )
}

/// The report on a workbook that was read: half of the work is done, and it
/// ends there where there are no samples.
pub fn read_report(count: usize) -> (r: Vec<Note>)
    ensures
        note_views(r@) == (if count == 0 {
            seq![NoteView::Progress(Progress { done: 1, total: 2 }), NoteView::Busy(false)]
        } else {
            seq![NoteView::Progress(Progress { done: 1, total: 2 })]
        }),
{
    if count == 0 {
        vec![Note::Progress(Progress { done: 1, total: 2 }), Note::Busy(false)]
    } else {
        vec![Note::Progress(Progress { done: 1, total: 2 })]
    }
}

/// The report on samples that were processed.
pub fn process_report(count: usize, start: &str, stop: &str, millis: i64) -> (r: Vec<Note>)
    ensures
        note_views(r@) == seq![
            NoteView::Timing {
                start: start@,
                stop: stop@,
                duration: int_text(millis as int) + " ms"@,
            },
            NoteView::Status(
                "Processed "@ + int_text(count as int) + " events."@,
                StatusColor::Green,
            ),
            NoteView::Progress(full_progress()),
            NoteView::Busy(false),
        ],
{
    let text = concat3("Processed ", natural(count as u64).as_str(), " events.");
    vec![
        Note::Timing {
            start: String::from_str(start),
            stop: String::from_str(stop),
            duration: concat2(decimal(millis).as_str(), " ms"),
        },
        Note::Status(text, StatusColor::Green),
        Note::Progress(all_done()),
        Note::Busy(false),
    ]
}

/// The report on saving the means.
pub fn save_mean_report(outcome: Result<(), &str>) -> (r: Vec<Note>)
    ensures
        note_views(r@) == (match outcome {
            Ok(_) => seq![
                NoteView::Status("Mean Values Saved Successfully."@, StatusColor::Green),
                NoteView::Busy(false),
            ],
            Err(e) => seq![NoteView::Error("Error saving means: "@ + e@), NoteView::Busy(false)],
        }),
{
    match outcome {
        Ok(_) => ended("Mean Values Saved Successfully.", StatusColor::Green),
        Err(e) => failure(concat2("Error saving means: ", e)),
    }
}

/// The report on a look at a file.
pub fn header_report(outcome: Result<&str, &str>) -> (r: Vec<Note>)
    ensures
        note_views(r@) == seq![
            NoteView::HeaderInfo(
                match outcome {
                    Ok(text) => text@,
                    Err(e) => "Error: "@ + e@,
                },
            ),
            NoteView::Status("Header Analysis Complete."@, StatusColor::Gray),
            NoteView::Busy(false),
        ],
{
    let text = match outcome {
        Ok(text) => String::from_str(text),
        Err(e) => concat2("Error: ", e),
    };
    vec![
        Note::HeaderInfo(text),
        status("Header Analysis Complete.", StatusColor::Gray),
        Note::Busy(false),
    ]
}

/// Where the mean comes from that is taken off a channel's values.
#[derive(Debug, Clone, Copy, PartialEq, Eq, Structural)]
pub enum MeanSource {
    /// Nothing is taken off.
    Nothing,
    /// The mean in the file of means.
    Stored,
    /// The mean of the values themselves.
    Computed,
}

/// Which mean to take off: none in the modes that show the values as they are,
/// the values' own while the baseline is being set and where no mean is
/// stored, else the stored one.
pub fn mean_source(should_subtract: bool, baseline_setting: bool, stored_is_zero: bool) -> (r:
    MeanSource)
    ensures
        r == (if !should_subtract {
            MeanSource::Nothing
        } else if baseline_setting || stored_is_zero {
            MeanSource::Computed
        } else {
            MeanSource::Stored
        }),
{
    if !should_subtract {
        MeanSource::Nothing
    } else if baseline_setting || stored_is_zero {
        MeanSource::Computed
    } else {
        MeanSource::Stored
    }
}

/// The title of a channel.
pub fn channel_title(index: usize) -> (r: String)
    requires
        index < usize::MAX,
    ensures
        r@ == "Channel "@ + int_text(index + 1),
{
    concat2("Channel ", natural(index as u64 + 1).as_str())
}

/// The line on a channel's fit, given its numbers as texts.
pub fn fit_text(mu: &str, sigma: &str, fwhm: &str, resolution: &str) -> (r: String)
    ensures
        r@ == "mu="@ + mu@ + " sigma="@ + sigma@ + " fwhm="@ + fwhm@ + " res="@ + resolution@
            + "%"@,
{
    let mut out = concat3("mu=", mu, " sigma=");
    out.append(sigma);
    out.append(" fwhm=");
    out.append(fwhm);
    out.append(" res=");
    out.append(resolution);
    out.append("%");
    out
}

/// A second reset changes nothing.
pub proof fn reset_twice_is_once<F, D>(state: BaselineSessionView<F, D>)
    ensures
        state.cleared().cleared() == state.cleared(),
{
}

} // verus!
