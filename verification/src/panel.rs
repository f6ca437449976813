//! What a mode shows of its work: the chosen files, the status line, the
//! progress and the texts that a worker reports.

use crate::text::{concat2, concat3, int_text, natural};
use vstd::prelude::*;
use vstd::string::StringExecFns;

verus! {

/// The colour of the status line.
#[derive(Debug, Clone, Copy, PartialEq, Eq, Structural)]
pub enum StatusColor {
    /// Nothing is going on.
    Gray,
    /// Work is going on.
    Orange,
    /// Work has ended well.
    Green,
    /// Work has failed.
    Red,
}

/// How much of a piece of work is done.
#[derive(Debug, Clone, Copy, PartialEq, Eq, Structural)]
pub struct Progress {
    pub done: u64,
    pub total: u64,
}

/// What a worker reports.
#[derive(Debug, Clone)]
pub enum Note {
    Status(String, StatusColor),
    Busy(bool),
    Progress(Progress),
    InputFilesInfo(String),
    OutputFileName(String),
    HeaderCheck(String),
    HeaderInfo(String),
    Timing { start: String, stop: String, duration: String },
    Error(String),
}

/// What a report says.
pub enum NoteView {
    Status(Seq<char>, StatusColor),
    Busy(bool),
    Progress(Progress),
    InputFilesInfo(Seq<char>),
    OutputFileName(Seq<char>),
    HeaderCheck(Seq<char>),
    HeaderInfo(Seq<char>),
    Timing { start: Seq<char>, stop: Seq<char>, duration: Seq<char> },
    Error(Seq<char>),
}

impl View for Note {
    type V = NoteView;

    open spec fn view(&self) -> NoteView {
        match *self {
            Note::Status(text, color) => NoteView::Status(text@, color),
            Note::Busy(busy) => NoteView::Busy(busy),
            Note::Progress(progress) => NoteView::Progress(progress),
            Note::InputFilesInfo(text) => NoteView::InputFilesInfo(text@),
            Note::OutputFileName(text) => NoteView::OutputFileName(text@),
            Note::HeaderCheck(text) => NoteView::HeaderCheck(text@),
            Note::HeaderInfo(text) => NoteView::HeaderInfo(text@),
            Note::Timing { start, stop, duration } => NoteView::Timing {
                start: start@,
                stop: stop@,
                duration: duration@,
            },
            Note::Error(text) => NoteView::Error(text@),
        }
    }
}

/// What a list of reports says.
pub open spec fn note_views(notes: Seq<Note>) -> Seq<NoteView> {
    notes.map_values(|n: Note| n@)
}

/// The texts and switches that a mode shows.
#[derive(Debug, Clone)]
pub struct Panel {
    pub input_files_info: String,
    pub output_file_name: String,
    pub status_message: String,
    pub status_color: StatusColor,
    pub is_busy: bool,
    pub progress: Progress,
    pub header_check_status: String,
    pub header_info: String,
    pub start_time: String,
    pub stop_time: String,
    pub duration: String,
}

/// What a panel shows.
pub struct PanelView {
    pub input_files_info: Seq<char>,
    pub output_file_name: Seq<char>,
    pub status_message: Seq<char>,
    pub status_color: StatusColor,
    pub is_busy: bool,
    pub progress: Progress,
    pub header_check_status: Seq<char>,
    pub header_info: Seq<char>,
    pub start_time: Seq<char>,
    pub stop_time: Seq<char>,
    pub duration: Seq<char>,
}

impl View for Panel {
    type V = PanelView;

    open spec fn view(&self) -> PanelView {
        PanelView {
            input_files_info: self.input_files_info@,
            output_file_name: self.output_file_name@,
            status_message: self.status_message@,
            status_color: self.status_color,
            is_busy: self.is_busy,
            progress: self.progress,
            header_check_status: self.header_check_status@,
            header_info: self.header_info@,
            start_time: self.start_time@,
            stop_time: self.stop_time@,
            duration: self.duration@,
        }
    }
}

/// Nothing done yet.
pub open spec fn no_progress() -> Progress {
    Progress { done: 0, total: 1 }
}

/// All done.
pub open spec fn full_progress() -> Progress {
    Progress { done: 1, total: 1 }
}

impl PanelView {
    /// The panel before any work, with the name of the output file.
    pub open spec fn fresh(output_file_name: Seq<char>) -> PanelView {
        PanelView {
            input_files_info: "No files selected"@,
            output_file_name,
            status_message: "Ready"@,
            status_color: StatusColor::Gray,
            is_busy: false,
            progress: no_progress(),
            header_check_status: ""@,
            header_info: ""@,
            start_time: "-"@,
            stop_time: "-"@,
            duration: "-"@,
        }
    }

    /// After a report. An error is shown in the status line and ends the work.
    pub open spec fn noted(self, note: NoteView) -> PanelView {
        match note {
            NoteView::Status(text, color) => PanelView {
                status_message: text,
                status_color: color,
                ..self
            },
            NoteView::Busy(busy) => PanelView { is_busy: busy, ..self },
            NoteView::Progress(progress) => PanelView { progress, ..self },
            NoteView::InputFilesInfo(text) => PanelView { input_files_info: text, ..self },
            NoteView::OutputFileName(text) => PanelView { output_file_name: text, ..self },
            NoteView::HeaderCheck(text) => PanelView { header_check_status: text, ..self },
            NoteView::HeaderInfo(text) => PanelView { header_info: text, ..self },
            NoteView::Timing { start, stop, duration } => PanelView {
                start_time: start,
                stop_time: stop,
                duration,
                ..self
            },
            NoteView::Error(text) => PanelView {
                status_message: text,
                status_color: StatusColor::Red,
                is_busy: false,
                ..self
            },
        }
    }

    /// After reports, in order.
    pub open spec fn noted_all(self, notes: Seq<NoteView>) -> PanelView
        decreases notes.len(),
    {
        if notes.len() == 0 {
            self
        } else {
            self.noted_all(notes.drop_last()).noted(notes.last())
        }
    }

    /// With another status message in the same colour.
    pub open spec fn with_message(self, text: Seq<char>) -> PanelView {
        PanelView { status_message: text, ..self }
    }

    /// With another status line.
    pub open spec fn with_status(self, text: Seq<char>, color: StatusColor) -> PanelView {
        PanelView { status_message: text, status_color: color, ..self }
    }
}

/// The work has not begun.
pub fn nothing_done() -> (r: Progress)
    ensures
        r == no_progress(),
{
    Progress { done: 0, total: 1 }
}

/// The work is done.
pub fn all_done() -> (r: Progress)
    ensures
        r == full_progress(),
{
    Progress { done: 1, total: 1 }
}

/// A status report.
pub fn status(text: &str, color: StatusColor) -> (r: Note)
    ensures
        r@ == NoteView::Status(text@, color),
{
    Note::Status(String::from_str(text), color)
}

/// The report of a worker that has failed.
pub fn failure(text: String) -> (r: Vec<Note>)
    ensures
        note_views(r@) == seq![NoteView::Error(text@), NoteView::Busy(false)],
{
    vec![Note::Error(text), Note::Busy(false)]
}

/// The report of a worker that has ended with a status line.
pub fn ended(text: &str, color: StatusColor) -> (r: Vec<Note>)
    ensures
        note_views(r@) == seq![NoteView::Status(text@, color), NoteView::Busy(false)],
{
    vec![status(text, color), Note::Busy(false)]
}

/// The report of a worker that has done all its work.
pub fn completed(text: &str, color: StatusColor) -> (r: Vec<Note>)
    ensures
        note_views(r@) == seq![
            NoteView::Status(text@, color),
            NoteView::Progress(full_progress()),
            NoteView::Busy(false),
        ],
{
    vec![status(text, color), Note::Progress(all_done()), Note::Busy(false)]
}

impl Panel {
    /// The panel before any work.
    pub fn new(output_file_name: &str) -> (r: Panel)
        ensures
            r@ == PanelView::fresh(output_file_name@),
    {
        Panel {
            input_files_info: String::from_str("No files selected"),
            output_file_name: String::from_str(output_file_name),
            status_message: String::from_str("Ready"),
            status_color: StatusColor::Gray,
            is_busy: false,
            progress: nothing_done(),
            header_check_status: String::from_str(""),
            header_info: String::from_str(""),
            start_time: String::from_str("-"),
            stop_time: String::from_str("-"),
            duration: String::from_str("-"),
        }
    }

    /// Takes in one report.
    pub fn apply(&mut self, note: Note)
        ensures
            final(self)@ == old(self)@.noted(note@),
    {
        match note {
            Note::Status(text, color) => {
                self.status_message = text;
                self.status_color = color;
            },
            Note::Busy(busy) => {
                self.is_busy = busy;
            },
            Note::Progress(progress) => {
                self.progress = progress;
            },
            Note::InputFilesInfo(text) => {
                self.input_files_info = text;
            },
            Note::OutputFileName(text) => {
                self.output_file_name = text;
            },
            Note::HeaderCheck(text) => {
                self.header_check_status = text;
            },
            Note::HeaderInfo(text) => {
                self.header_info = text;
            },
            Note::Timing { start, stop, duration } => {
                self.start_time = start;
                self.stop_time = stop;
                self.duration = duration;
            },
            Note::Error(text) => {
                self.status_message = text;
                self.status_color = StatusColor::Red;
                self.is_busy = false;
            },
        }
    }

    /// Shows a status message in the colour that the line has.
    pub fn message(&mut self, text: &str)
        ensures
            final(self)@ == old(self)@.with_message(text@),
    {
        self.status_message = String::from_str(text);
    }

    /// Shows a status line.
    pub fn show(&mut self, text: &str, color: StatusColor)
        ensures
            final(self)@ == old(self)@.with_status(text@, color),
    {
        self.status_message = String::from_str(text);
        self.status_color = color;
    }

    /// The line on when the data begins and ends.
    pub fn timing_text(&self) -> (r: String)
        ensures
            r@ == "Start: "@ + self@.start_time + "  Stop: "@ + self@.stop_time + "  Duration: "@
                + self@.duration,
    {
        let mut out = String::from_str("Start: ");
        out.append(self.start_time.as_str());
        out.append("  Stop: ");
        out.append(self.stop_time.as_str());
        out.append("  Duration: ");
        out.append(self.duration.as_str());
        out
    }
}

/// The message on a table of `count` rows that was exported, or on why that
/// failed.
pub fn export_text(count: usize, unit: &str, outcome: Result<&str, &str>) -> (r: String)
    ensures
        r@ == (match outcome {
            Ok(path) => "Exported "@ + int_text(count as int) + " "@ + unit@ + " to "@ + path@,
            Err(e) => "Failed to export CSV: "@ + e@,
        }),
{
    match outcome {
        Ok(path) => {
            let mut out = concat3("Exported ", natural(count as u64).as_str(), " ");
            out.append(unit);
            out.append(" to ");
            out.append(path);
            out
        },
        Err(e) => concat2("Failed to export CSV: ", e),
    }
}

/// The message on rows that were saved as JSON, or on why that failed.
pub fn json_text(count: usize, outcome: Result<&str, &str>) -> (r: String)
    ensures
        r@ == (match outcome {
            Ok(path) => "Saved "@ + int_text(count as int) + " row(s) to "@ + path@,
            Err(e) => "Failed to save JSON: "@ + e@,
        }),
{
    match outcome {
        Ok(path) => {
            let mut out = concat3("Saved ", natural(count as u64).as_str(), " row(s) to ");
            out.append(path);
            out
        },
        Err(e) => concat2("Failed to save JSON: ", e),
    }
}

/// A worker whose last report is that it is no longer busy leaves the panel
/// free for the next command, whatever it reported before.
pub proof fn last_report_frees(panel: PanelView, notes: Seq<NoteView>)
    requires
        notes.len() > 0,
        notes.last() == NoteView::Busy(false),
    ensures
        !panel.noted_all(notes).is_busy,
{
}

/// An error that nothing follows but the end of the work stays in the status
/// line.
pub proof fn error_stays_shown(panel: PanelView, notes: Seq<NoteView>, text: Seq<char>)
    requires
        notes.len() >= 2,
        notes[notes.len() - 2] == NoteView::Error(text),
        notes.last() == NoteView::Busy(false),
    ensures
        panel.noted_all(notes).status_message == text,
        panel.noted_all(notes).status_color == StatusColor::Red,
{
    reveal_with_fuel(PanelView::noted_all, 3);
    assert(notes.drop_last().last() == NoteView::Error(text));
}

} // verus!
