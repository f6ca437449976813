//! What reports and commands change of what a mode shows, and what they leave.

use crate::baseline_session::BaselineSessionView;
use crate::calibration::processing::CalibrationView;
use crate::calibration_session::CalibrationSessionView;
use crate::flux_session::FluxSessionView;
use crate::observation_session::ObservationSessionView;
use crate::panel::{NoteView, PanelView, Progress, StatusColor};
use crate::plot_export::{holds, text_at};
use crate::text::int_text;
use vstd::prelude::*;

verus! {

/// What a mode shows of the chosen files and of the output.
pub open spec fn same_files(a: PanelView, b: PanelView) -> bool {
    a.input_files_info == b.input_files_info && a.output_file_name == b.output_file_name
}

/// The status line.
pub open spec fn same_status(a: PanelView, b: PanelView) -> bool {
    a.status_message == b.status_message && a.status_color == b.status_color
}

/// What a mode shows of the header.
pub open spec fn same_header(a: PanelView, b: PanelView) -> bool {
    a.header_check_status == b.header_check_status && a.header_info == b.header_info
}

/// What a mode shows of the times.
pub open spec fn same_times(a: PanelView, b: PanelView) -> bool {
    a.start_time == b.start_time && a.stop_time == b.stop_time && a.duration == b.duration
}

/// Before any work nothing is chosen, nothing goes on and nothing is done.
pub proof fn panel_at_first(name: Seq<char>)
    ensures
        ({
            let p = PanelView::fresh(name);
            &&& p.input_files_info == "No files selected"@
            &&& p.output_file_name == name
            &&& p.status_message == "Ready"@
            &&& p.status_color == StatusColor::Gray
            &&& !p.is_busy
            &&& p.progress.done == 0 && p.progress.total == 1
            &&& p.header_check_status.len() == 0 && p.header_info.len() == 0
            &&& p.start_time == seq!['-'] && p.stop_time == seq!['-'] && p.duration == seq!['-']
        }),
{
    reveal_strlit("");
    reveal_strlit("-");
}

/// A status report changes the status line, an error also makes it red and ends
/// the work; neither changes anything else.
pub proof fn status_reports(p: PanelView, text: Seq<char>, color: StatusColor)
    ensures
        ({
            let a = p.noted(NoteView::Status(text, color));
            &&& a.status_message == text && a.status_color == color
            &&& a.is_busy == p.is_busy && a.progress == p.progress
            &&& same_files(a, p) && same_header(a, p) && same_times(a, p)
        }),
        ({
            let a = p.noted(NoteView::Error(text));
            &&& a.status_message == text && a.status_color == StatusColor::Red
            &&& !a.is_busy && a.progress == p.progress
            &&& same_files(a, p) && same_header(a, p) && same_times(a, p)
        }),
        ({
            let a = p.with_message(text);
            &&& a.status_message == text && a.status_color == p.status_color
            &&& a.is_busy == p.is_busy && a.progress == p.progress
            &&& same_files(a, p) && same_header(a, p) && same_times(a, p)
        }),
        p.with_status(text, color) == p.noted(NoteView::Status(text, color)),
{
}

/// Reports on the work change whether it goes on and how far it is, and nothing
/// else.
pub proof fn work_reports(p: PanelView, busy: bool, progress: Progress)
    ensures
        ({
            let a = p.noted(NoteView::Busy(busy));
            &&& a.is_busy == busy && a.progress == p.progress
            &&& same_status(a, p) && same_files(a, p) && same_header(a, p) && same_times(a, p)
        }),
        ({
            let a = p.noted(NoteView::Progress(progress));
            &&& a.is_busy == p.is_busy && a.progress == progress
            &&& same_status(a, p) && same_files(a, p) && same_header(a, p) && same_times(a, p)
        }),
{
}

/// Reports on files, header and times change the text that they are about, and
/// nothing else.
#[verifier::spinoff_prover]
#[verifier::rlimit(60)]
pub proof fn text_reports(p: PanelView, text: Seq<char>, start: Seq<char>, stop: Seq<char>)
    ensures
        ({
            let a = p.noted(NoteView::InputFilesInfo(text));
            &&& a.input_files_info == text && a.output_file_name == p.output_file_name
            &&& a.is_busy == p.is_busy && a.progress == p.progress
            &&& same_status(a, p) && same_header(a, p) && same_times(a, p)
        }),
        ({
            let a = p.noted(NoteView::OutputFileName(text));
            &&& a.input_files_info == p.input_files_info && a.output_file_name == text
            &&& a.is_busy == p.is_busy && a.progress == p.progress
            &&& same_status(a, p) && same_header(a, p) && same_times(a, p)
        }),
        ({
            let a = p.noted(NoteView::HeaderCheck(text));
            &&& a.header_check_status == text && a.header_info == p.header_info
            &&& a.is_busy == p.is_busy && a.progress == p.progress
            &&& same_status(a, p) && same_files(a, p) && same_times(a, p)
        }),
        ({
            let a = p.noted(NoteView::HeaderInfo(text));
            &&& a.header_check_status == p.header_check_status && a.header_info == text
            &&& a.is_busy == p.is_busy && a.progress == p.progress
            &&& same_status(a, p) && same_files(a, p) && same_times(a, p)
        }),
        ({
            let a = p.noted(NoteView::Timing { start, stop, duration: text });
            &&& a.start_time == start && a.stop_time == stop && a.duration == text
            &&& a.is_busy == p.is_busy && a.progress == p.progress
            &&& same_status(a, p) && same_files(a, p) && same_header(a, p)
        }),
{
}

/// Reports are taken in one after the other.
pub proof fn reports_in_order(p: PanelView, notes: Seq<NoteView>, note: NoteView)
    ensures
        p.noted_all(Seq::empty()) == p,
        p.noted_all(notes.push(note)) == p.noted_all(notes).noted(note),
{
    assert(notes.push(note).drop_last() =~= notes);
}

/// Before any command the modes have neither files nor data.
pub proof fn modes_at_first<F, D>()
    ensures
        BaselineSessionView::<F, D>::fresh().panel == PanelView::fresh("output.txt"@),
        BaselineSessionView::<F, D>::fresh().selected_files.len() == 0,
        BaselineSessionView::<F, D>::fresh().processed_data.len() == 0,
        !BaselineSessionView::<F, D>::fresh().loaded,
        !BaselineSessionView::<F, D>::fresh().can_save_mean,
        CalibrationSessionView::<F>::fresh().panel == PanelView::fresh("CalibrationResult"@),
        CalibrationSessionView::<F>::fresh().input_files.len() == 0,
        CalibrationSessionView::<F>::fresh().channels == CalibrationView::empty(),
        CalibrationSessionView::<F>::fresh().rows.len() == 0,
        CalibrationSessionView::<F>::fresh().json_preview.len() == 0,
        FluxSessionView::<F>::fresh().panel == PanelView::fresh("FluxResult"@),
        FluxSessionView::<F>::fresh().selected_files.len() == 0,
        FluxSessionView::<F>::fresh().packets.len() == 0,
        FluxSessionView::<F>::fresh().rows.len() == 0,
        FluxSessionView::<F>::fresh().json_preview.len() == 0,
        FluxSessionView::<F>::fresh().data_count == 0,
        ObservationSessionView::<F>::fresh().panel == PanelView::fresh(""@),
        ObservationSessionView::<F>::fresh().input_files.len() == 0,
        ObservationSessionView::<F>::fresh().histograms is None,
        ObservationSessionView::<F>::fresh().events.len() == 0,
        !ObservationSessionView::<F>::fresh().loaded,
{
}

/// A reset of baseline mode forgets files, data and means, and keeps the name of
/// the output, the header texts and the times.
pub proof fn baseline_reset<F, D>(s: BaselineSessionView<F, D>)
    ensures
        ({
            let a = s.cleared();
            &&& a.selected_files.len() == 0 && a.processed_data.len() == 0
            &&& !a.loaded && !a.can_save_mean
            &&& a.panel.input_files_info == "No files selected"@
            &&& a.panel.output_file_name == s.panel.output_file_name
            &&& a.panel.status_message == "Reset complete."@
            &&& a.panel.status_color == StatusColor::Gray
            &&& a.panel.progress.done == 0 && a.panel.progress.total == 1
            &&& a.panel.is_busy == s.panel.is_busy
            &&& same_header(a.panel, s.panel) && same_times(a.panel, s.panel)
        }),
{
}

/// A reset of calibration mode forgets files, channels and rows, and keeps the
/// name of the output, the header report, the times and the status colour.
pub proof fn calibration_reset<F>(s: CalibrationSessionView<F>)
    ensures
        ({
            let a = s.cleared();
            &&& a.input_files.len() == 0 && a.channels == CalibrationView::empty()
            &&& a.rows.len() == 0 && a.json_preview.len() == 0
            &&& a.panel.input_files_info == "No files selected"@
            &&& a.panel.output_file_name == s.panel.output_file_name
            &&& a.panel.status_message == "Reset complete."@
            &&& a.panel.status_color == s.panel.status_color
            &&& a.panel.progress.done == 0 && a.panel.progress.total == 1
            &&& a.panel.is_busy == s.panel.is_busy
            &&& a.panel.header_check_status.len() == 0
            &&& a.panel.header_info == s.panel.header_info
            &&& same_times(a.panel, s.panel)
        }),
{
    reveal_strlit("");
}

/// A reset of flux mode forgets files, packets and rows, the header texts and
/// the times, and keeps the name of the output and the status colour.
pub proof fn flux_reset<F>(s: FluxSessionView<F>)
    ensures
        ({
            let a = s.cleared();
            &&& a.selected_files.len() == 0 && a.packets.len() == 0
            &&& a.rows.len() == 0 && a.json_preview.len() == 0 && a.data_count == 0
            &&& a.panel.input_files_info == "No files selected"@
            &&& a.panel.output_file_name == s.panel.output_file_name
            &&& a.panel.status_message == "Reset complete."@
            &&& a.panel.status_color == s.panel.status_color
            &&& a.panel.progress.done == 0 && a.panel.progress.total == 1
            &&& a.panel.is_busy == s.panel.is_busy
            &&& a.panel.header_check_status.len() == 0 && a.panel.header_info.len() == 0
            &&& a.panel.start_time == seq!['-'] && a.panel.stop_time == seq!['-']
            &&& a.panel.duration == seq!['-']
        }),
{
    reveal_strlit("");
    reveal_strlit("-");
}

/// A reset of observation mode forgets files, histograms and events, and keeps
/// the name of the output, the header texts, the times and the status colour.
pub proof fn observation_reset<F>(s: ObservationSessionView<F>)
    ensures
        ({
            let a = s.cleared();
            &&& a.input_files.len() == 0 && a.histograms is None
            &&& a.events.len() == 0 && !a.loaded
            &&& a.panel.input_files_info == "No files selected"@
            &&& a.panel.output_file_name == s.panel.output_file_name
            &&& a.panel.status_message == "Ready"@
            &&& a.panel.status_color == s.panel.status_color
            &&& a.panel.progress.done == 0 && a.panel.progress.total == 1
            &&& a.panel.is_busy == s.panel.is_busy
            &&& same_header(a.panel, s.panel) && same_times(a.panel, s.panel)
        }),
{
}

/// One file that is chosen is kept, and the output is named after it; several
/// are counted and merged, and none is kept until then.
#[verifier::spinoff_prover]
#[verifier::rlimit(60)]
pub proof fn baseline_files<F, D>(
    s: BaselineSessionView<F, D>,
    files: Seq<F>,
    stem: Option<Seq<char>>,
    count: int,
)
    ensures
        ({
            let a = s.with_file(files, stem);
            &&& a.selected_files == files
            &&& a.processed_data.len() == 0 && !a.loaded && !a.can_save_mean
            &&& a.panel.output_file_name == (match stem {
                Some(name) => name + ".xlsx"@,
                None => "output.xlsx"@,
            })
            &&& a.panel.input_files_info == "1 file selected."@
            &&& a.panel.status_message == "File loaded. Ready."@
            &&& a.panel.status_color == StatusColor::Gray
            &&& a.panel.is_busy == s.panel.is_busy
        }),
        ({
            let a = s.merging(count);
            &&& a.selected_files.len() == 0
            &&& a.processed_data.len() == 0 && !a.loaded && !a.can_save_mean
            &&& a.panel.output_file_name == s.panel.output_file_name
            &&& a.panel.input_files_info == int_text(count) + " files selected."@
            &&& a.panel.status_message == "Merging "@ + int_text(count) + " files..."@
            &&& a.panel.status_color == StatusColor::Gray
            &&& a.panel.is_busy
        }),
{
}

/// One file that is chosen is kept, and the output is named after it; several
/// are combined, and none is kept until then.
#[verifier::spinoff_prover]
#[verifier::rlimit(60)]
pub proof fn flux_files<F>(
    s: FluxSessionView<F>,
    files: Seq<F>,
    stem: Option<Seq<char>>,
    count: int,
)
    ensures
        ({
            let a = s.with_file(files, stem);
            &&& a.selected_files == files
            &&& a.packets.len() == 0 && a.rows.len() == 0 && a.data_count == 0
            &&& a.panel.output_file_name == (match stem {
                Some(name) => name + ".xlsx"@,
                None => "FluxResult.xlsx"@,
            })
            &&& a.panel.input_files_info == "1 file selected."@
            &&& a.panel.status_message == "Files loaded. Ready to process."@
            &&& a.panel.is_busy == s.panel.is_busy
        }),
        ({
            let a = s.combining(count);
            &&& a.selected_files.len() == 0
            &&& a.packets.len() == 0 && a.rows.len() == 0 && a.data_count == 0
            &&& a.panel.output_file_name == s.panel.output_file_name
            &&& a.panel.input_files_info == "No files selected"@
            &&& a.panel.status_message == "Combining "@ + int_text(count) + " files..."@
            &&& a.panel.is_busy
        }),
{
}

/// The means of a run can be saved once its times have been reported, and not
/// before; a report changes neither files nor data.
pub proof fn means_come_with_the_times<F, D>(s: BaselineSessionView<F, D>, note: NoteView)
    ensures
        s.noted(note).panel == s.panel.noted(note),
        s.noted(note).can_save_mean == (s.can_save_mean || note is Timing),
        s.noted(note).selected_files == s.selected_files,
        s.noted(note).processed_data == s.processed_data,
        s.noted(note).loaded == s.loaded,
{
}

/// Another panel changes nothing else.
#[verifier::spinoff_prover]
#[verifier::rlimit(60)]
pub proof fn panels_stand_alone<F, D>(
    baseline: BaselineSessionView<F, D>,
    calibration: CalibrationSessionView<F>,
    flux: FluxSessionView<F>,
    observation: ObservationSessionView<F>,
    p: PanelView,
)
    ensures
        ({
            let a = baseline.with_panel(p);
            &&& a.panel == p && a.selected_files == baseline.selected_files
            &&& a.processed_data == baseline.processed_data && a.loaded == baseline.loaded
            &&& a.can_save_mean == baseline.can_save_mean
        }),
        ({
            let a = calibration.with_panel(p);
            &&& a.panel == p && a.input_files == calibration.input_files
            &&& a.channels == calibration.channels && a.rows == calibration.rows
            &&& a.json_preview == calibration.json_preview
        }),
        ({
            let a = flux.with_panel(p);
            &&& a.panel == p && a.selected_files == flux.selected_files
            &&& a.packets == flux.packets && a.rows == flux.rows
            &&& a.json_preview == flux.json_preview && a.data_count == flux.data_count
        }),
        ({
            let a = observation.with_panel(p);
            &&& a.panel == p && a.input_files == observation.input_files
            &&& a.histograms == observation.histograms && a.events == observation.events
            &&& a.loaded == observation.loaded
        }),
{
}

/// What the files have given is forgotten before they are read again; the files
/// and the panel stay.
pub proof fn data_is_forgotten<F>(calibration: CalibrationSessionView<F>, flux: FluxSessionView<F>)
    ensures
        calibration.without_data().panel == calibration.panel,
        calibration.without_data().input_files == calibration.input_files,
        calibration.without_data().channels == CalibrationView::empty(),
        calibration.without_data().rows.len() == 0,
        calibration.without_data().json_preview.len() == 0,
        flux.without_data().panel == flux.panel,
        flux.without_data().selected_files == flux.selected_files,
        flux.without_data().data_count == flux.data_count,
        flux.without_data().packets.len() == 0,
        flux.without_data().rows.len() == 0,
        flux.without_data().json_preview.len() == 0,
{
}

/// A list holds a text that was put in, and still holds those before it.
pub proof fn lists_hold_their_texts(list: Seq<String>, text: String, id: Seq<char>)
    ensures
        !holds(Seq::empty(), id),
        holds(list.push(text), id) == (text@ == id || holds(list, id)),
{
    let more = list.push(text);
    if holds(list, id) {
        let i = choose|i: int| 0 <= i < list.len() && text_at(list, i, id);
        assert(text_at(more, i, id));
    }
    if text@ == id {
        assert(text_at(more, list.len() as int, id));
    }
    if holds(more, id) {
        let i = choose|i: int| 0 <= i < more.len() && text_at(more, i, id);
        if i < list.len() {
            assert(text_at(list, i, id));
        }
    }
}

} // verus!
