//! What the workers of calibration mode and flux mode report on the segments
//! of the selected files.

use crate::columns::{header_check, header_check_text};
use crate::panel::{
    completed, ended, failure, full_progress, note_views, status, Note, NoteView, Progress,
    StatusColor,
};
use crate::text::{concat2, concat3, int_text, natural, views};
use vstd::prelude::*;
use vstd::string::StringExecFns;

verus! {

/// The report that segments are about to be saved.
pub fn saving_segments(count: usize) -> (r: Note)
    ensures
        r@ == NoteView::Status(
            "Saving "@ + int_text(count as int) + " segments to Excel..."@,
            StatusColor::Gray,
        ),
{
    Note::Status(
        concat3("Saving ", natural(count as u64).as_str(), " segments to Excel..."),
        StatusColor::Gray,
    )
}

/// How saving the segments has ended.
#[derive(Debug, Clone)]
pub enum SegmentsOutcome {
    Saved,
    /// The workbook could not be written.
    Failed(String),
    /// There was nothing to save.
    NoSegments,
    /// The files could not be read.
    Unreadable(String),
}

/// The report on saving the segments.
pub fn segments_report(outcome: &SegmentsOutcome) -> (r: Vec<Note>)
    ensures
        note_views(r@) == seq![
            match *outcome {
                SegmentsOutcome::Saved => NoteView::Status(
                    "Processing complete."@,
                    StatusColor::Green,
                ),
                SegmentsOutcome::Failed(e) => NoteView::Error(e@),
                SegmentsOutcome::NoSegments => NoteView::Status(
                    "No valid segments found."@,
                    StatusColor::Red,
                ),
                SegmentsOutcome::Unreadable(e) => NoteView::Error("Error: "@ + e@),
            },
            NoteView::Progress(full_progress()),
            NoteView::Busy(false),
        ],
{
    let first = match outcome {
        SegmentsOutcome::Saved => status("Processing complete.", StatusColor::Green),
        SegmentsOutcome::Failed(e) => Note::Error(e.clone()),
        SegmentsOutcome::NoSegments => status("No valid segments found.", StatusColor::Red),
        SegmentsOutcome::Unreadable(e) => Note::Error(concat2("Error: ", e.as_str())),
    };
    vec![first, Note::Progress(crate::panel::all_done()), Note::Busy(false)]
}

/// The report that the files could not be read.
pub fn unreadable_report(e: &str) -> (r: Vec<Note>)
    ensures
        note_views(r@) == seq![NoteView::Error("Error: "@ + e@), NoteView::Busy(false)],
{
    failure(concat2("Error: ", e))
}

/// The report that the files hold no segment.
pub fn no_segments_report() -> (r: Vec<Note>)
    ensures
        note_views(r@) == seq![
            NoteView::Status("No valid E225 segments found."@, StatusColor::Red),
            NoteView::Busy(false),
        ],
{
    ended("No valid E225 segments found.", StatusColor::Red)
}

/// The reports of calibration mode once segment number `index` is read: one on
/// every thousandth.
pub fn calibration_progress(index: usize, total: usize) -> (r: Vec<Note>)
    requires
        index < total,
    ensures
        note_views(r@) == (if index % 1000 == 0 {
            seq![
                NoteView::Progress(Progress { done: index as u64, total: total as u64 }),
                NoteView::Status(
                    "Reading data: "@ + int_text(index as int) + "/"@ + int_text(total as int)
                        + " segments"@,
                    StatusColor::Gray,
                ),
            ]
        } else {
            seq![]
        }),
{
    if index % 1000 != 0 {
        return Vec::new();
    }
    let mut text = concat3("Reading data: ", natural(index as u64).as_str(), "/");
    text.append(natural(total as u64).as_str());
    text.append(" segments");
    vec![
        Note::Progress(Progress { done: index as u64, total: total as u64 }),
        Note::Status(text, StatusColor::Gray),
    ]
}

/// The reports of flux mode once segment number `index` is read: one on
/// every five hundredth. `percent` is the share that is done, as text.
pub fn flux_progress(index: usize, total: usize, percent: &str) -> (r: Vec<Note>)
    requires
        index < total,
    ensures
        note_views(r@) == (if index % 500 == 0 {
            seq![
                NoteView::Progress(Progress { done: index as u64, total: total as u64 }),
                NoteView::Status(
                    "Processing... "@ + percent@ + "% ("@ + int_text(index as int) + "/"@
                        + int_text(total as int) + ")"@,
                    StatusColor::Gray,
                ),
            ]
        } else {
            seq![]
        }),
{
    if index % 500 != 0 {
        return Vec::new();
    }
    let mut text = concat3("Processing... ", percent, "% (");
    text.append(natural(index as u64).as_str());
    text.append("/");
    text.append(natural(total as u64).as_str());
    text.append(")");
    vec![
        Note::Progress(Progress { done: index as u64, total: total as u64 }),
        Note::Status(text, StatusColor::Gray),
    ]
}

/// The report that all segments have been read in calibration mode.
pub fn calibration_complete() -> (r: Vec<Note>)
    ensures
        note_views(r@) == seq![
            NoteView::Status("Complete!"@, StatusColor::Green),
            NoteView::Progress(full_progress()),
            NoteView::Busy(false),
        ],
{
    completed("Complete!", StatusColor::Green)
}

/// The report that all segments have been read in flux mode.
pub fn flux_complete() -> (r: Vec<Note>)
    ensures
        note_views(r@) == seq![
            NoteView::Status("Process Complete"@, StatusColor::Green),
            NoteView::Progress(full_progress()),
            NoteView::Busy(false),
        ],
{
    completed("Process Complete", StatusColor::Green)
}

/// The report that there is no workbook of that name; `folder` is the mode's
/// folder.
pub fn missing_workbook_report(output_name: &str, folder: &str) -> (r: Vec<Note>)
    ensures
        note_views(r@) == seq![
            NoteView::Error(
                "File not found: "@ + output_name@
                    + ".xlsx (searched Documents/DSSD_Analysis/"@ + folder@
                    + " and legacy locations)"@,
            ),
            NoteView::Busy(false),
        ],
{
    let mut text = concat3(
        "File not found: ",
        output_name,
        ".xlsx (searched Documents/DSSD_Analysis/",
    );
    text.append(folder);
    text.append(" and legacy locations)");
    failure(text)
}

/// The report on the rows of a workbook, or on why they could not be read.
pub fn header_check_report(outcome: Result<&[String], &str>) -> (r: Vec<Note>)
    ensures
        note_views(r@) == (match outcome {
            Ok(rows) => seq![
                NoteView::HeaderCheck(header_check_text(views(rows@))),
                NoteView::Busy(false),
            ],
            Err(e) => seq![NoteView::Error("Error reading file: "@ + e@), NoteView::Busy(false)],
        }),
{
    match outcome {
        Ok(rows) => vec![Note::HeaderCheck(header_check(rows)), Note::Busy(false)],
        Err(e) => failure(concat2("Error reading file: ", e)),
    }
}

/// The report on combining files in flux mode.
pub fn flux_combine_report(count: usize, outcome: Result<&str, &str>) -> (r: Vec<Note>)
    ensures
        note_views(r@) == (match outcome {
            Ok(path) => seq![
                NoteView::InputFilesInfo(int_text(count as int) + " files combined."@),
                NoteView::OutputFileName("multiple_file_output.xlsx"@),
                NoteView::Status("Files combined into "@ + path@, StatusColor::Green),
                NoteView::Busy(false),
            ],
            Err(e) => seq![NoteView::Error(e@), NoteView::Busy(false)],
        }),
{
    match outcome {
        Ok(path) => vec![
            Note::InputFilesInfo(concat2(natural(count as u64).as_str(), " files combined.")),
            Note::OutputFileName(String::from_str("multiple_file_output.xlsx")),
            Note::Status(concat2("Files combined into ", path), StatusColor::Green),
            Note::Busy(false),
        ],
        Err(e) => failure(String::from_str(e)),
    }
}

} // verus!
