//! What the contracts speak of is what the values hold: field by field, and
//! entry by entry.

use crate::baseline_data_table::{BaselineLineResult, BaselineTailField};
use crate::baseline_run::{step_views, RunState, RunStateView, RunStep, RunStepView};
use crate::baseline_session::BaselineSession;
use crate::calibration::data_processor::{
    CalibrationBlockField, CalibrationLineResult, CalibrationTailField,
};
use crate::calibration::processing::CalibrationAccumulator;
use crate::calibration_mode::CalibrationRow;
use crate::calibration_session::CalibrationSession;
use crate::flux::data_processor::{FluxLineResult, FluxTailField};
use crate::flux::processing::{flux_views, FluxAccumulator, HeaderParseResult};
use crate::flux_mode::FluxRow;
use crate::flux_session::FluxSession;
use crate::io::file_helper::places;
use crate::json_view::{member_views, node_views, JsonNode, JsonValue, JsonView};
use crate::line::LineHeaderFields;
use crate::models::baseline::{baseline_views, BaselineData};
use crate::models::flux::FluxDataResult;
use crate::models::observation::{BgoData, LayerData};
use crate::models::shared::HeaderValidationResult;
use crate::observation::data_processor::{contents_views, ObservationDataProcessor};
use crate::observation::histogram::HistogramSet;
use crate::observation::particle::{particle_views, signals, BgoLayers, DssdData, ParticleResult};
use crate::observation::tail_fields::{field_views, LineTailField};
use crate::observation_mode::EventRow;
use crate::observation_session::ObservationSession;
use crate::panel::{note_views, Note, NoteView, Panel};
use crate::series::series_views;
use crate::table::row_views;
use crate::tail::{cell_views, TailCell, TailView};
use crate::text::views;
use vstd::prelude::*;

verus! {

/// A list of texts is its texts, in order.
pub proof fn texts_in_order(list: Seq<String>, k: int)
    requires
        0 <= k < list.len(),
    ensures
        views(list).len() == list.len(),
        views(list)[k] == list[k]@,
{
}

/// A list of series is its series, in order.
pub proof fn series_in_order(list: Seq<Vec<i32>>, k: int)
    requires
        0 <= k < list.len(),
    ensures
        series_views(list).len() == list.len(),
        series_views(list)[k] == list[k]@,
{
}

/// A list of rows is its rows, in order.
pub proof fn rows_in_order(list: Seq<Vec<String>>, k: int, c: int)
    requires
        0 <= k < list.len(),
        0 <= c < list[k]@.len(),
    ensures
        row_views(list).len() == list.len(),
        row_views(list)[k].len() == list[k]@.len(),
        row_views(list)[k][c] == list[k]@[c]@,
{
}

/// A list of recordings is their bytes, in order.
pub proof fn recordings_in_order(list: Seq<Vec<u8>>, k: int)
    requires
        0 <= k < list.len(),
    ensures
        contents_views(list).len() == list.len(),
        contents_views(list)[k] == list[k]@,
{
}

/// The housekeeping cells of a line, in order.
pub proof fn cells_in_order(list: Seq<TailCell>, k: int)
    requires
        0 <= k < list.len(),
    ensures
        cell_views(list).len() == list.len(),
        cell_views(list)[k] == (match list[k] {
            TailCell::Decimal(n) => TailView::Decimal(n as int),
            TailCell::Hex(s) => TailView::Hex(s@),
            TailCell::Formula(n) => TailView::Formula(n as int),
            TailCell::FormulaHundredth(n) => TailView::FormulaHundredth(n as int),
        }),
{
}

/// The nodes of a row, in order: their path and their value.
pub proof fn nodes_in_order(list: Seq<JsonNode>, k: int)
    requires
        0 <= k < list.len(),
    ensures
        node_views(list).len() == list.len(),
        node_views(list)[k].0 == views(list[k].path@),
        node_views(list)[k].1 == (match list[k].value {
            JsonValue::Object => JsonView::Object,
            JsonValue::Integer(n) => JsonView::Integer(n as int),
            JsonValue::Text(s) => JsonView::Text(s@),
            JsonValue::Plain(s) => JsonView::Plain(s@),
            JsonValue::Integers(v) => JsonView::Integers(v@),
        }),
{
}

/// The members of an object, in order: their key and their value.
pub proof fn members_in_order(list: Seq<(String, JsonValue)>, k: int)
    requires
        0 <= k < list.len(),
    ensures
        member_views(list).len() == list.len(),
        member_views(list)[k] == (list[k].0@, list[k].1@),
{
}

/// The header of a line.
pub proof fn header_holds(h: LineHeaderFields)
    ensures
        h@.packet_sync == h.packet_sync@,
        h@.package_id == h.package_id,
        h@.packet_sequence == h.packet_sequence,
        h@.packet_data_length == h.packet_data_length,
        h@.data_type == h.data_type@,
{
}

/// A scintillator layer.
pub proof fn scintillator_holds(layer: BgoData)
    ensures
        layer@.high_gain == layer.high_gain@,
        layer@.low_gain == layer.low_gain@,
{
}

/// A strip layer.
pub proof fn strip_layer_holds(layer: LayerData, strip: int)
    ensures
        layer@.pulse_x == layer.pulse_height_x@,
        layer@.pulse_y == layer.pulse_height_y@,
        layer@.strip_x.len() == layer.strip_x@.len(),
        layer@.strip_y.len() == layer.strip_y@.len(),
        0 <= strip < layer.strip_x@.len() ==> layer@.strip_x[strip] == layer.strip_x@[strip]@,
        0 <= strip < layer.strip_y@.len() ==> layer@.strip_y[strip] == layer.strip_y@[strip]@,
{
}

/// All layers.
pub proof fn layers_hold(dssd: DssdData, bgo: BgoLayers)
    ensures
        signals(dssd, bgo).l1 == dssd.l1@,
        signals(dssd, bgo).l2 == dssd.l2@,
        signals(dssd, bgo).l6 == dssd.l6@,
        signals(dssd, bgo).l7 == dssd.l7@,
        signals(dssd, bgo).l3 == bgo.l3@,
        signals(dssd, bgo).l4 == bgo.l4@,
        signals(dssd, bgo).l5 == bgo.l5@,
{
}

/// A particle.
pub proof fn particle_holds(p: ParticleResult)
    ensures
        p@.number == p.particle_number,
        p@.time_raw == p.particle_time_raw,
        p@.milliseconds == p.milliseconds,
        p@.time == p.time,
        p@.dssd_pulses == p.dssd_pulses@,
        p@.dssd_positions == p.dssd_positions@,
        p@.bgo_pulses == p.bgo_pulses@,
        p@.header.packet_sync == p.packet_sync@,
        p@.header.package_id == p.package_id,
        p@.header.packet_sequence == p.packet_sequence,
        p@.header.packet_data_length == p.packet_data_length,
        p@.header.data_type == p.data_type@,
        p@.tail == cell_views(p.line_tail@),
{
}

/// A processor of recordings.
pub proof fn processor_holds(p: ObservationDataProcessor, k: int)
    ensures
        p@.results.len() == p.results@.len(),
        0 <= k < p.results@.len() ==> p@.results[k] == p.results@[k]@,
        p@.results == particle_views(p.results@),
        p@.signals == signals(p.dssd_data, p.bgo_data),
        p@.packets == p.valid_packet_count,
{
}

/// A set of histograms, in order.
pub proof fn histograms_hold(set: HistogramSet, k: int)
    requires
        0 <= k < set.entries@.len(),
    ensures
        set@.len() == set.entries@.len(),
        set@[k].0 == set.entries@[k].0@,
        set@[k].1 == set.entries@[k].1@,
{
}

/// An event of the data table.
pub proof fn event_holds(e: EventRow)
    ensures
        e@.header.packet_sync == e.packet_sync@,
        e@.header.package_id == e.package_id,
        e@.header.packet_sequence == e.packet_sequence,
        e@.header.packet_data_length == e.packet_data_length,
        e@.header.data_type == e.data_type@,
        e@.time == e.time,
        e@.particle_time == e.particle_time_raw,
        e@.positions == e.dssd_position@,
        e@.dssd == e.dssd@,
        e@.bgo == e.bgo@,
        e@.extra == views(e.line_extra@),
{
}

/// A flux packet, and a list of them.
pub proof fn flux_packet_holds(p: FluxDataResult, list: Seq<FluxDataResult>, k: int)
    ensures
        p@.time_millis == p.time_millis,
        p@.counting == p.particle_counting@,
        p@.layer == p.particle_layer@,
        p@.offset_time == p.particle_offset_time@,
        flux_views(list).len() == list.len(),
        0 <= k < list.len() ==> flux_views(list)[k] == list[k]@,
{
}

/// The accumulated packets.
pub proof fn flux_accumulator_holds(a: FluxAccumulator)
    ensures
        a@ == flux_views(a.all_results@),
{
}

/// The report on a packet header.
pub proof fn header_report_holds(h: HeaderParseResult)
    ensures
        h@.packet_sync == h.packet_sync@,
        h@.package_id == h.package_id@,
        h@.packet_seq == h.packet_seq@,
        h@.packet_data_len == h.packet_data_len@,
        h@.timestamp == h.timestamp@,
        h@.data_type == h.data_type@,
        h@.check_sum_hex == h.check_sum_hex@,
        h@.checksum_matches == h.checksum_matches,
{
}

/// A flux line.
pub proof fn flux_line_holds(l: FluxLineResult)
    ensures
        l@.header.packet_sync == l.packet_sync@,
        l@.header.package_id == l.package_id,
        l@.header.packet_sequence == l.packet_sequence,
        l@.header.packet_data_length == l.packet_data_length,
        l@.header.data_type == l.data_type@,
        l@.time == l.time,
        l@.particle_time == l.particle_time,
        l@.particle_counts == l.particle_counts@,
        l@.particle_info == views(l.particle_info@),
        l@.tail == cell_views(l.tail@),
        l@.reserved == l.reserved_hex@,
        l@.checksum == l.checksum_hex@,
{
}

/// A flux row.
pub proof fn flux_row_holds(r: FluxRow)
    ensures
        r@.header.packet_sync == r.packet_sync@,
        r@.header.package_id == r.package_id,
        r@.header.packet_sequence == r.packet_sequence,
        r@.header.packet_data_length == r.packet_data_length,
        r@.header.data_type == r.data_type@,
        r@.time == r.time,
        r@.particle_time == r.particle_time,
        r@.particle_counts == r.particle_counts@,
        r@.particle_info == r.particle_info@,
        r@.tail == views(r.tail@),
        r@.reserved == r.reserved_hex@,
        r@.checksum == r.checksum_hex@,
{
}

/// The columns of the calibration channels, layer by layer.
pub proof fn calibration_columns_hold(a: CalibrationAccumulator)
    ensures
        a@.l1 == series_views(a.l1_columns@),
        a@.l2 == series_views(a.l2_columns@),
        a@.l6 == series_views(a.l6_columns@),
        a@.l7 == series_views(a.l7_columns@),
{
}

/// A calibration line.
pub proof fn calibration_line_holds(l: CalibrationLineResult)
    ensures
        l@.header.packet_sync == l.packet_sync@,
        l@.header.package_id == l.package_id,
        l@.header.packet_sequence == l.packet_sequence,
        l@.header.packet_data_length == l.packet_data_length,
        l@.header.data_type == l.data_type@,
        l@.time == l.time,
        l@.sample_index == l.sample_index,
        l@.blocks == series_views(l.blocks@),
        l@.tail == cell_views(l.tail@),
        l@.reserved == l.reserved_hex@,
        l@.checksum == l.checksum_hex@,
{
}

/// A calibration row.
pub proof fn calibration_row_holds(r: CalibrationRow)
    ensures
        r@.header.packet_sync == r.packet_sync@,
        r@.header.package_id == r.package_id,
        r@.header.packet_sequence == r.packet_sequence,
        r@.header.packet_data_length == r.packet_data_length,
        r@.header.data_type == r.data_type@,
        r@.time == r.time,
        r@.sample_index == r.sample_index,
        r@.blocks == series_views(r.blocks@),
        r@.tail == views(r.tail@),
        r@.reserved == r.reserved_hex@,
        r@.checksum == r.checksum_hex@,
{
}

/// A baseline line.
pub proof fn baseline_line_holds(l: BaselineLineResult)
    ensures
        l@.header.packet_sync == l.packet_sync@,
        l@.header.package_id == l.package_id,
        l@.header.packet_sequence == l.packet_sequence,
        l@.header.packet_data_length == l.packet_data_length,
        l@.header.data_type == l.data_type@,
        l@.time == l.time,
        l@.sample_index == l.sample_index,
        l@.l1_blocks == series_views(l.l1_blocks@),
        l@.l2_blocks == series_views(l.l2_blocks@),
        l@.l6_blocks == series_views(l.l6_blocks@),
        l@.l7_blocks == series_views(l.l7_blocks@),
        l@.tail == cell_views(l.tail@),
        l@.reserved == l.reserved_hex@,
        l@.checksum == l.checksum_hex@,
{
}

/// A baseline sample, and a list of them.
pub proof fn baseline_sample_holds(s: BaselineData, list: Seq<BaselineData>, k: int)
    ensures
        s@.packet == s.sampling_packet_no,
        s@.number == s.sampling_no,
        s@.l1 == s.l1@,
        s@.l2 == s.l2@,
        s@.l6 == s.l6@,
        s@.l7 == s.l7@,
        baseline_views(list).len() == list.len(),
        0 <= k < list.len() ==> baseline_views(list)[k] == list[k]@,
{
}

/// The outcome of a header check.
pub proof fn header_check_holds(r: HeaderValidationResult)
    ensures
        r@.is_valid == r.is_valid,
        r@.error_line == r.error_line,
        r@.error_message is Some == r.error_message is Some,
        r.error_message is Some ==> r@.error_message->0 == r.error_message->0@,
        r@.error_content is Some == r.error_content is Some,
        r.error_content is Some ==> r@.error_content->0 == r.error_content->0@,
        r@.first_header_content is Some == r.first_header_content is Some,
        r.first_header_content is Some ==> r@.first_header_content->0
            == r.first_header_content->0@,
        r@.filtered_file_path is Some == r.filtered_file_path is Some,
        r.filtered_file_path is Some ==> r@.filtered_file_path->0 == r.filtered_file_path->0@,
{
}

/// What a mode shows.
pub proof fn panel_holds(p: Panel)
    ensures
        p@.input_files_info == p.input_files_info@,
        p@.output_file_name == p.output_file_name@,
        p@.status_message == p.status_message@,
        p@.status_color == p.status_color,
        p@.is_busy == p.is_busy,
        p@.progress == p.progress,
        p@.header_check_status == p.header_check_status@,
        p@.header_info == p.header_info@,
        p@.start_time == p.start_time@,
        p@.stop_time == p.stop_time@,
        p@.duration == p.duration@,
{
}

/// The sessions of the four modes.
pub proof fn sessions_hold<F, D>(
    baseline: BaselineSession<F, D>,
    calibration: CalibrationSession<F>,
    flux: FluxSession<F>,
    observation: ObservationSession<F>,
)
    ensures
        baseline@.panel == baseline.panel@,
        baseline@.selected_files == baseline.selected_files@,
        baseline@.processed_data == baseline.processed_data@,
        baseline@.loaded == baseline.loaded,
        baseline@.can_save_mean == baseline.can_save_mean,
        calibration@.panel == calibration.panel@,
        calibration@.input_files == calibration.input_files@,
        calibration@.channels == calibration.accumulator@,
        calibration@.rows == calibration.rows@,
        calibration@.json_preview == calibration.json_preview@,
        flux@.panel == flux.panel@,
        flux@.selected_files == flux.selected_files@,
        flux@.packets == flux.accumulator@,
        flux@.rows == flux.rows@,
        flux@.json_preview == flux.json_preview@,
        flux@.data_count == flux.data_count,
        observation@.panel == observation.panel@,
        observation@.input_files == observation.input_files@,
        observation@.histograms == observation.histograms,
        observation@.events == observation.events@,
        observation@.loaded == observation.loaded,
{
}

/// The decoded lines of the modes, in order.
pub proof fn lines_in_order(
    flux: Seq<FluxLineResult>,
    calibration: Seq<CalibrationLineResult>,
    k: int,
)
    ensures
        crate::flux_mode::line_views(flux).len() == flux.len(),
        0 <= k < flux.len() ==> crate::flux_mode::line_views(flux)[k] == flux[k]@,
        crate::calibration_mode::line_views(calibration).len() == calibration.len(),
        0 <= k < calibration.len() ==> crate::calibration_mode::line_views(calibration)[k]
            == calibration[k]@,
{
}

/// The reports of a worker, in order.
pub proof fn notes_in_order(list: Seq<Note>, k: int)
    requires
        0 <= k < list.len(),
    ensures
        note_views(list).len() == list.len(),
        note_views(list)[k] == list[k]@,
        match list[k] {
            Note::Status(text, color) => list[k]@ == NoteView::Status(text@, color),
            Note::Busy(busy) => list[k]@ == NoteView::Busy(busy),
            Note::Progress(progress) => list[k]@ == NoteView::Progress(progress),
            Note::InputFilesInfo(text) => list[k]@ == NoteView::InputFilesInfo(text@),
            Note::OutputFileName(text) => list[k]@ == NoteView::OutputFileName(text@),
            Note::HeaderCheck(text) => list[k]@ == NoteView::HeaderCheck(text@),
            Note::HeaderInfo(text) => list[k]@ == NoteView::HeaderInfo(text@),
            Note::Timing { start, stop, duration } => list[k]@ == (NoteView::Timing {
                start: start@,
                stop: stop@,
                duration: duration@,
            }),
            Note::Error(text) => list[k]@ == NoteView::Error(text@),
        },
{
}

/// The steps of a run, in order, and how far it has come.
pub proof fn run_steps_in_order(list: Seq<RunStep>, k: int, state: RunState)
    requires
        0 <= k < list.len(),
    ensures
        step_views(list).len() == list.len(),
        step_views(list)[k] == (match list[k] {
            RunStep::Note(note) => RunStepView::Note(note@),
            RunStep::Loaded => RunStepView::Loaded,
            RunStep::Channel(index) => RunStepView::Channel(index as int),
        }),
        match state {
            RunState::NoFolder(e) => state@ == RunStateView::NoFolder(e@),
            RunState::NoWorkbook(path) => state@ == RunStateView::NoWorkbook(path@),
            RunState::Reading => state@ == RunStateView::Reading,
            RunState::Unreadable(e) => state@ == RunStateView::Unreadable(e@),
            RunState::Loaded(count) => state@ == RunStateView::Loaded(count as int),
            RunState::Processed { count, start, stop, millis } => state@
                == (RunStateView::Processed {
                count: count as int,
                start: start@,
                stop: stop@,
                millis: millis as int,
            }),
        },
{
}

/// The places of files, in order.
pub proof fn places_in_order(list: Seq<Vec<String>>, k: int)
    requires
        0 <= k < list.len(),
    ensures
        places(list).len() == list.len(),
        places(list)[k] == views(list[k]@),
{
}

/// The fields of the lines: their label and their first byte.
pub proof fn fields_hold(
    flux: FluxTailField,
    calibration: CalibrationTailField,
    block: CalibrationBlockField,
    baseline: BaselineTailField,
    line: LineTailField,
)
    ensures
        flux@ == (flux.label@, flux.byte_start as int),
        calibration@ == (calibration.label@, calibration.byte_start as int),
        block@ == (block.label@, block.byte_start as int),
        baseline@ == (baseline.label@, baseline.byte_start as int),
        line@.label == line.label@,
        line@.start == line.byte_start,
        line@.len == line.byte_len,
        line@.is_hex == line.is_hex,
{
}

/// The fields of the lines of observation mode, in order.
pub proof fn line_fields_in_order(list: Seq<LineTailField>, k: int)
    requires
        0 <= k < list.len(),
    ensures
        field_views(list).len() == list.len(),
        field_views(list)[k] == list[k]@,
{
}

} // verus!
