//! The commands of observation mode and what its workers report.
//!
//! `F` is how the caller names a file. The fits are the caller's.

use crate::observation::histogram::HistogramSet;
use crate::observation_mode::EventRow;
use crate::panel::{
    ended, failure, no_progress, note_views, nothing_done, Note, NoteView, Panel, PanelView,
    StatusColor,
};
use crate::text::{concat2, concat3, int_text, natural};
use vstd::prelude::*;
use vstd::string::StringExecFns;

verus! {

/// The state of observation mode.
#[derive(Debug, Clone)]
pub struct ObservationSession<F> {
    pub panel: Panel,
    pub input_files: Vec<F>,
    /// The histograms of the files, where they have been analysed.
    pub histograms: Option<HistogramSet>,
    pub events: Vec<EventRow>,
    /// Events have been loaded since the last reset.
    pub loaded: bool,
}

/// The state of observation mode.
pub struct ObservationSessionView<F> {
    pub panel: PanelView,
    pub input_files: Seq<F>,
    pub histograms: Option<HistogramSet>,
    pub events: Seq<EventRow>,
    pub loaded: bool,
}

impl<F> View for ObservationSession<F> {
    type V = ObservationSessionView<F>;

    open spec fn view(&self) -> ObservationSessionView<F> {
        ObservationSessionView {
            panel: self.panel@,
            input_files: self.input_files@,
            histograms: self.histograms,
            events: self.events@,
            loaded: self.loaded,
        }
    }
}

impl<F> ObservationSessionView<F> {
    /// Before any command.
    pub open spec fn fresh() -> ObservationSessionView<F> {
        ObservationSessionView {
            panel: PanelView::fresh(""@),
            input_files: Seq::empty(),
            histograms: None,
            events: Seq::empty(),
            loaded: false,
        }
    }

    /// With another panel.
    pub open spec fn with_panel(self, panel: PanelView) -> ObservationSessionView<F> {
        ObservationSessionView { panel, ..self }
    }

    /// After a reset.
    pub open spec fn cleared(self) -> ObservationSessionView<F> {
        ObservationSessionView {
            panel: PanelView {
                input_files_info: "No files selected"@,
                status_message: "Ready"@,
                progress: no_progress(),
                ..self.panel
            },
            input_files: Seq::empty(),
            histograms: None,
            events: Seq::empty(),
            loaded: false,
        }
    }
}

impl<F> ObservationSession<F> {
    /// The state before any command.
    pub fn new() -> (r: ObservationSession<F>)
        ensures
            r@ == ObservationSessionView::<F>::fresh(),
    {
        ObservationSession {
            panel: Panel::new(""),
            input_files: Vec::new(),
            histograms: None,
            events: Vec::new(),
            loaded: false,
        }
    }

    /// Takes in one report of a worker.
    pub fn apply(&mut self, note: Note)
        ensures
            final(self)@ == old(self)@.with_panel(old(self)@.panel.noted(note@)),
    {
        self.panel.apply(note);
    }

    /// Takes in the file into which a worker has combined the chosen ones.
    pub fn use_files(&mut self, files: Vec<F>)
        ensures
            final(self)@ == (ObservationSessionView { input_files: files@, ..old(self)@ }),
    {
        self.input_files = files;
    }

    /// Takes in the histograms that a worker has counted. Fits to earlier
    /// histograms no longer hold.
    pub fn load_histograms(&mut self, histograms: HistogramSet)
        ensures
            final(self)@ == (ObservationSessionView {
                histograms: Some(histograms),
                ..old(self)@
            }),
    {
        self.histograms = Some(histograms);
    }

    /// Takes in the events that a worker has decoded.
    pub fn load_events(&mut self, events: Vec<EventRow>)
        ensures
            final(self)@ == (ObservationSessionView {
                events: events@,
                loaded: true,
                ..old(self)@
            }),
    {
        self.events = events;
        self.loaded = true;
    }

    /// The number of events that are loaded, as text.
    pub fn data_count_text(&self) -> (r: String)
        ensures
            r@ == (if self.loaded {
                int_text(self.events@.len() as int)
            } else {
                "-"@
            }),
    {
        if self.loaded {
            natural(self.events.len() as u64)
        } else {
            String::from_str("-")
        }
    }

    /// Files can be selected.
    pub fn is_free(&self) -> (r: bool)
        ensures
            r == !self@.panel.is_busy,
    {
        !self.panel.is_busy
    }

    /// There are files that can be analysed.
    pub fn can_analyze(&self) -> (r: bool)
        ensures
            r == (!self@.panel.is_busy && self@.input_files.len() > 0),
    {
        !self.panel.is_busy && self.input_files.len() > 0
    }

    /// There are events that can be exported.
    pub fn can_export(&self) -> (r: bool)
        ensures
            r == (self@.events.len() > 0),
    {
        self.events.len() > 0
    }

    /// Forgets files, histograms and events.
    pub fn reset(&mut self)
        ensures
            final(self)@ == old(self)@.cleared(),
    {
        self.input_files = Vec::new();
        self.panel.input_files_info = String::from_str("No files selected");
        self.histograms = None;
        self.events = Vec::new();
        self.loaded = false;
        self.panel.message("Ready");
        self.panel.progress = nothing_done();
    }

    /// Takes the files that were chosen, if any were. More than one file, or
    /// none, are handed back to be combined.
    pub fn select_files(&mut self, files: Option<Vec<F>>) -> (r: Option<Vec<F>>)
        ensures
            match files {
                None => r is None && final(self)@ == old(self)@,
                Some(files) => if files@.len() == 1 {
                    r is None && final(self)@ == (ObservationSessionView {
                        panel: PanelView {
                            input_files_info: "1 file selected."@,
                            status_message: "1 file selected."@,
                            ..old(self)@.panel
                        },
                        input_files: files@,
                        ..old(self)@
                    })
                } else {
                    r == Some(files) && final(self)@ == old(self)@.with_panel(
                        PanelView {
                            is_busy: true,
                            status_message: "Combining "@ + int_text(files@.len() as int)
                                + " files..."@,
                            ..old(self)@.panel
                        },
                    )
                },
            },
    {
        match files {
            None => None,
            Some(files) => {
                if files.len() == 1 {
                    self.input_files = files;
                    self.panel.input_files_info = String::from_str("1 file selected.");
                    self.panel.message("1 file selected.");
                    None
                } else {
                    let count = natural(files.len() as u64);
                    self.panel.is_busy = true;
                    self.panel.status_message = concat3("Combining ", count.as_str(), " files...");
                    Some(files)
                }
            },
        }
    }

    /// Begins to analyse the selected files.
    pub fn analyze_files(&mut self)
        ensures
            final(self)@ == old(self)@.with_panel(
                PanelView {
                    is_busy: true,
                    progress: no_progress(),
                    ..old(self)@.panel.with_message("Processing..."@)
                },
            ),
    {
        self.panel.is_busy = true;
        self.panel.progress = nothing_done();
        self.panel.message("Processing...");
    }
}

/// The report on combining files.
pub fn combine_report(count: usize, outcome: Result<&str, &str>) -> (r: Vec<Note>)
    ensures
        note_views(r@) == (match outcome {
            Ok(path) => seq![
                NoteView::InputFilesInfo(int_text(count as int) + " file(s) combined."@),
                NoteView::Status(
                    "Files combined successfully into "@ + path@,
                    StatusColor::Green,
                ),
                NoteView::Busy(false),
            ],
            Err(e) => seq![
                NoteView::Error("Error combining files: "@ + e@),
                NoteView::Busy(false),
            ],
        }),
{
    match outcome {
        Ok(path) => vec![
            Note::InputFilesInfo(concat2(natural(count as u64).as_str(), " file(s) combined.")),
            Note::Status(concat2("Files combined successfully into ", path), StatusColor::Green),
            Note::Busy(false),
        ],
        Err(e) => failure(concat2("Error combining files: ", e)),
    }
}

/// The report on analysing files.
pub fn analyze_report(outcome: Result<(), &str>) -> (r: Vec<Note>)
    ensures
        note_views(r@) == (match outcome {
            Ok(_) => seq![
                NoteView::Status("Processing complete!"@, StatusColor::Green),
                NoteView::Busy(false),
            ],
            Err(e) => seq![NoteView::Error("Error! "@ + e@), NoteView::Busy(false)],
        }),
{
    match outcome {
        Ok(_) => ended("Processing complete!", StatusColor::Green),
        Err(e) => failure(concat2("Error! ", e)),
    }
}

/// A second reset changes nothing.
pub proof fn reset_twice_is_once<F>(state: ObservationSessionView<F>)
    ensures
        state.cleared().cleared() == state.cleared(),
{
}

} // verus!
