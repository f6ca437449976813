//! What stands in which column of the data tables, under which title, and under
//! which key of the rows' objects.

use crate::calibration::data_processor::calibration_tail_table;
use crate::calibration::laws::{calibration_fields_in_order, calibration_labels};
use crate::calibration_mode::{
    calibration_cells, calibration_nodes, calibration_tail_key, calibration_titles, step_nodes,
    CalibrationRowView,
};
use crate::clock::event_time;
use crate::columns::{byte_title, header_cells, header_titles, number_list};
use crate::flux::data_processor::flux_tail_table;
use crate::flux::laws::{flux_fields_in_order, flux_labels};
use crate::flux_mode::{flux_cells, flux_nodes, flux_tail_key, flux_titles, FluxRowView};
use crate::json_view::{header_nodes, number_or_text, JsonView};
use crate::line::HeaderView;
use crate::observation_mode::{adc_values, event_cells, event_titles, extra_title, EventView};
use crate::observation::tail_fields::{frame_tail, frame_text, line_tail_table, TailFieldView};
use crate::tail::TailView;
use crate::text::int_text;
use crate::wire::{wire_chars, wire_text, wire_text_is_byte_text, word};
use vstd::prelude::*;

verus! {

/// The six columns of a line's header.
pub proof fn header_columns(header: HeaderView, time: int)
    ensures
        header_titles() == seq![
            "Packet Sync Code (Byte 0-1)"@,
            "Package ID (Byte 2-3)"@,
            "Packet Seq (Byte 4-5)"@,
            "Packet Data Len (Byte 6-7)"@,
            "Time (Byte 8-13)"@,
            "Data Type (Byte 14-15)"@,
        ],
        header_cells(header, time).len() == 6,
        header_cells(header, time)[0] == header.packet_sync,
        header_cells(header, time)[1] == int_text(header.package_id),
        header_cells(header, time)[2] == int_text(header.packet_sequence),
        header_cells(header, time)[3] == int_text(header.packet_data_length),
        header_cells(header, time)[4] == event_time(time),
        header_cells(header, time)[5] == header.data_type,
{
}

/// The seven nodes of a line's header.
pub proof fn header_keys(header: HeaderView, time: int)
    ensures
        ({
            let nodes = header_nodes(header, time);
            &&& nodes.len() == 7
            &&& nodes[0] == (seq!["header"@], JsonView::Object)
            &&& nodes[1] == (
                seq!["header"@, "packet_sync_code"@],
                number_or_text(header.packet_sync),
            )
            &&& nodes[2] == (seq!["header"@, "packet_id"@], JsonView::Integer(header.package_id))
            &&& nodes[3] == (
                seq!["header"@, "pakcet_seq"@],
                JsonView::Integer(header.packet_sequence),
            )
            &&& nodes[4] == (
                seq!["header"@, "packet_data_len"@],
                JsonView::Integer(header.packet_data_length),
            )
            &&& nodes[5] == (seq!["header"@, "time"@], JsonView::Text(event_time(time)))
            &&& nodes[6] == (seq!["header"@, "data_type"@], JsonView::Text(header.data_type))
        }),
{
}

/// A title that ends in the first and the last byte that it stands for.
pub open spec fn with_bytes(label: Seq<char>, first: int, last: int) -> Seq<char> {
    label + " (Byte "@ + int_text(first) + "-"@ + int_text(last) + ")"@
}

/// The columns of a flux row: behind the header, the particle time, the counts
/// of the layers 1 to 7, the slots, the twelve readings, and the spans at the
/// end, each under the title that names it and its bytes.
#[verifier::spinoff_prover]
#[verifier::rlimit(60)]
pub proof fn flux_columns(row: FluxRowView, layer: int, k: int)
    requires
        row.particle_counts.len() == 7,
        row.tail.len() == 12,
        0 <= layer < 7,
        0 <= k < 12,
    ensures
        flux_cells(row).len() == 29,
        flux_titles().len() == 29,
        flux_cells(row).take(6) == header_cells(row.header, row.time),
        flux_titles().take(6) == header_titles(),
        flux_titles()[6] == "Particle Time (Byte 16-17)"@,
        flux_cells(row)[6] == int_text(row.particle_time),
        flux_titles()[7 + layer] == with_bytes(
            "Particle Counts L"@ + int_text(layer + 1),
            18 + 2 * layer,
            19 + 2 * layer,
        ),
        flux_cells(row)[7 + layer] == int_text(row.particle_counts[layer] as int),
        flux_titles()[14] == "Particle Info (Byte 32-2031)"@,
        flux_cells(row)[14] == number_list(row.particle_info),
        flux_titles()[15 + k] == with_bytes(flux_labels()[k], 2032 + 2 * k, 2033 + 2 * k),
        flux_cells(row)[15 + k] == row.tail[k],
        flux_titles()[27] == "Reserved (Byte 2056-2061)"@,
        flux_cells(row)[27] == row.reserved,
        flux_titles()[28] == "Checksum (Byte 2062-2063)"@,
        flux_cells(row)[28] == row.checksum,
{
    flux_fields_in_order();
    assert(flux_cells(row).take(6) =~= header_cells(row.header, row.time));
    assert(flux_titles().take(6) =~= header_titles());
    let title = |f: (Seq<char>, int)| byte_title(f.0, f.1, f.1 + 1);
    assert(flux_tail_table()[k] == (flux_labels()[k], 2032 + 2 * k));
    assert(flux_titles()[15 + k] == title(flux_tail_table()[k]));
}

/// The keys of the readings of a flux row, in the order of the fields.
pub open spec fn flux_keys() -> Seq<Seq<char>> {
    seq![
        "dssd_1_temperature"@,
        "fee1_current"@,
        "fee1_temperature"@,
        "dssd_7_temperature"@,
        "fee2_current"@,
        "fee2_temperature"@,
        "fee1_threshold"@,
        "fee2_threshold"@,
        "bgo1_bias_voltage"@,
        "bgo2_bias_voltage"@,
        "bgo3_bias_voltage"@,
        "bgo2_temperature"@,
    ]
}

/// The object of a flux row: behind the header, the particle time in it, the
/// counts of the layers 1 to 7, the slots, the twelve readings in an object of
/// their own, and the spans at the end.
#[verifier::spinoff_prover]
#[verifier::rlimit(60)]
pub proof fn flux_objects(row: FluxRowView, layer: int, k: int)
    requires
        row.particle_counts.len() == 7,
        row.tail.len() == 12,
        0 <= layer < 7,
        0 <= k < 12,
    ensures
        ({
            let nodes = flux_nodes(row);
            &&& nodes.len() == 31
            &&& nodes.take(7) == header_nodes(row.header, row.time)
            &&& nodes[7] == (
                seq!["header"@, "particle_time"@],
                JsonView::Integer(row.particle_time),
            )
            &&& nodes[8 + layer] == (
                seq!["particle_counts_l"@ + int_text(layer + 1)],
                JsonView::Integer(row.particle_counts[layer] as int),
            )
            &&& nodes[15] == (seq!["particle_info"@], JsonView::Integers(row.particle_info))
            &&& nodes[16] == (seq!["tail"@], JsonView::Object)
            &&& nodes[17 + k] == (seq!["tail"@, flux_keys()[k]], number_or_text(row.tail[k]))
            &&& nodes[29] == (seq!["reserved"@], JsonView::Text(row.reserved))
            &&& nodes[30] == (seq!["checksum"@], JsonView::Text(row.checksum))
        }),
{
    let nodes = flux_nodes(row);
    assert(nodes.take(7) =~= header_nodes(row.header, row.time));
    assert(flux_tail_key(k) == flux_keys()[k]);
}

/// The columns of a calibration row around its blocks: the header, the sample
/// index, and behind the blocks the ten readings and the spans at the end.
#[verifier::spinoff_prover]
#[verifier::rlimit(60)]
pub proof fn calibration_columns(row: CalibrationRowView, k: int)
    requires
        row.blocks.len() == 44,
        row.tail.len() == 10,
        0 <= k < 10,
    ensures
        calibration_cells(row).len() == 63,
        calibration_titles().len() == 63,
        calibration_cells(row).take(6) == header_cells(row.header, row.time),
        calibration_titles().take(6) == header_titles(),
        calibration_titles()[6] == "Sample Index (Byte 16-17)"@,
        calibration_cells(row)[6] == int_text(row.sample_index),
        calibration_titles()[51 + k] == with_bytes(
            calibration_labels()[k],
            1426 + 2 * k,
            1427 + 2 * k,
        ),
        calibration_cells(row)[51 + k] == row.tail[k],
        calibration_titles()[61] == "Reserved (Byte 1446-2061)"@,
        calibration_cells(row)[61] == row.reserved,
        calibration_titles()[62] == "Checksum (Byte 2062-2063)"@,
        calibration_cells(row)[62] == row.checksum,
{
    calibration_fields_in_order();
    assert(calibration_cells(row).take(6) =~= header_cells(row.header, row.time));
    assert(calibration_titles().take(6) =~= header_titles());
    let title = |f: (Seq<char>, int)| byte_title(f.0, f.1, f.1 + 1);
    assert(calibration_tail_table()[k] == (calibration_labels()[k], 1426 + 2 * k));
    assert(calibration_titles()[51 + k] == title(calibration_tail_table()[k]));
}

/// The keys of the readings of a calibration row, in the order of the fields.
pub open spec fn calibration_keys() -> Seq<Seq<char>> {
    seq![
        "dssd1_temperature"@,
        "fee1_current"@,
        "fee1_temperature"@,
        "dssd7_temperature"@,
        "fee2_current"@,
        "fee2_temperature"@,
        "fee1_threshold"@,
        "fee2_threshold"@,
        "dssd1_temperature_dup"@,
        "dssd4_temperature"@,
    ]
}

proof fn step_nodes_count(blocks: Seq<Seq<i32>>, n: nat)
    ensures
        step_nodes(blocks, n).len() == 5 * n,
    decreases n,
{
    if n > 0 {
        step_nodes_count(blocks, (n - 1) as nat);
    }
}

/// The object of a calibration row around its steps: the header with the sample
/// index, and behind the steps the ten readings and the spans at the end.
pub proof fn calibration_objects(row: CalibrationRowView, k: int)
    requires
        row.tail.len() == 10,
        0 <= k < 10,
    ensures
        ({
            let nodes = calibration_nodes(row);
            &&& nodes.len() == 77
            &&& nodes.take(7) == header_nodes(row.header, row.time)
            &&& nodes[7] == (
                seq!["header"@, "sample_index"@],
                JsonView::Integer(row.sample_index),
            )
            &&& nodes[64] == (seq!["tail"@], JsonView::Object)
            &&& nodes[65 + k] == (
                seq!["tail"@, calibration_keys()[k]],
                number_or_text(row.tail[k]),
            )
            &&& nodes[75] == (seq!["reserved"@], JsonView::Text(row.reserved))
            &&& nodes[76] == (seq!["checksum"@], JsonView::Text(row.checksum))
        }),
{
    step_nodes_count(row.blocks, 11);
    let nodes = calibration_nodes(row);
    assert(nodes.take(7) =~= header_nodes(row.header, row.time));
    assert(calibration_tail_key(k) == calibration_keys()[k]);
}

/// A strip layer in the titles of its columns, and the bytes of a particle that
/// they show.
pub open spec fn strip_columns(i: int) -> (Seq<char>, Seq<char>, Seq<char>, Seq<char>) {
    seq![
        ("L1"@, "2"@, "3-4"@, "5-6"@),
        ("L2"@, "7"@, "8-9"@, "10-11"@),
        ("L6"@, "24"@, "25-26"@, "27-28"@),
        ("L7"@, "29"@, "30-31"@, "32-33"@),
    ][i]
}

/// A scintillator layer in the titles of its columns, and the bytes of a
/// particle that they show.
pub open spec fn gain_columns(i: int) -> (Seq<char>, Seq<char>, Seq<char>) {
    seq![
        ("L3"@, "12-13"@, "14-15"@),
        ("L4"@, "16-17"@, "18-19"@),
        ("L5"@, "20-21"@, "22-23"@),
    ][i]
}

/// The note on the bytes of a particle in a title.
pub open spec fn of_particle(range: Seq<char>) -> Seq<char> {
    "(Particle Byte "@ + range + ")"@
}

/// The columns of an event with the strip layers: behind the header and the
/// particle time, of each layer the position, the X and the Y pulse height,
/// then the housekeeping values of the line.
#[verifier::spinoff_prover]
#[verifier::rlimit(60)]
pub proof fn strip_layer_columns(event: EventView, i: int, k: int)
    requires
        event.extra.len() == line_tail_table().len(),
        event.positions.len() == 4,
        event.dssd.len() == 4,
        0 <= i < 4,
        0 <= k < line_tail_table().len(),
    ensures
        ({
            let titles = event_titles(true);
            let cells = event_cells(event, true, adc_values(event.dssd));
            let (name, position, x, y) = strip_columns(i);
            &&& titles.len() == cells.len()
            &&& titles.take(6) == header_titles()
            &&& cells.take(6) == header_cells(event.header, event.time)
            &&& titles[6] == "Particle Time "@ + of_particle("0-1"@)
            &&& cells[6] == int_text(event.particle_time)
            &&& titles[7 + 3 * i] == name + " XY Position "@ + of_particle(position)
            &&& cells[7 + 3 * i] == int_text(event.positions[i] as int)
            &&& titles[8 + 3 * i] == name + " X Pulse Height "@ + of_particle(x)
            &&& cells[8 + 3 * i] == int_text(event.dssd[i].0 as int)
            &&& titles[9 + 3 * i] == name + " Y Pulse Height "@ + of_particle(y)
            &&& cells[9 + 3 * i] == int_text(event.dssd[i].1 as int)
            &&& titles[19 + k] == extra_title(line_tail_table()[k])
            &&& cells[19 + k] == event.extra[k]
        }),
{
    let titles = event_titles(true);
    let cells = event_cells(event, true, adc_values(event.dssd));
    assert(titles.take(6) =~= header_titles());
    assert(cells.take(6) =~= header_cells(event.header, event.time));
    assert((3 * i) % 3 == 0 && (3 * i) / 3 == i);
    assert((3 * i + 1) % 3 == 1 && (3 * i + 1) / 3 == i);
    assert((3 * i + 2) % 3 == 2 && (3 * i + 2) / 3 == i);
    assert((2 * i) % 2 == 0 && (2 * i) / 2 == i && (2 * i + 1) % 2 == 1 && (2 * i + 1) / 2 == i);
    assert(cells[8 + 3 * i] == adc_values(event.dssd)[2 * i]);
    assert(cells[9 + 3 * i] == adc_values(event.dssd)[2 * i + 1]);
    let title = |f: TailFieldView| extra_title(f);
    assert(titles[19 + k] == title(line_tail_table()[k]));
    assert(i == 0 || i == 1 || i == 2 || i == 3);
}

/// The columns of an event with the scintillator layers: behind the header and
/// the particle time, of each layer the high and the low gain, then the
/// housekeeping values of the line.
#[verifier::spinoff_prover]
#[verifier::rlimit(60)]
pub proof fn gain_layer_columns(event: EventView, values: Seq<Seq<char>>, i: int, k: int)
    requires
        event.extra.len() == line_tail_table().len(),
        event.bgo.len() == 3,
        0 <= i < 3,
        0 <= k < line_tail_table().len(),
    ensures
        ({
            let titles = event_titles(false);
            let cells = event_cells(event, false, values);
            let (name, high, low) = gain_columns(i);
            &&& titles.len() == cells.len()
            &&& titles.take(6) == header_titles()
            &&& cells.take(6) == header_cells(event.header, event.time)
            &&& titles[6] == "Particle Time "@ + of_particle("0-1"@)
            &&& cells[6] == int_text(event.particle_time)
            &&& titles[7 + 2 * i] == name + " High-Gain Pulse Height "@ + of_particle(high)
            &&& cells[7 + 2 * i] == int_text(event.bgo[i].0 as int)
            &&& titles[8 + 2 * i] == name + " Low-Gain Pulse Height "@ + of_particle(low)
            &&& cells[8 + 2 * i] == int_text(event.bgo[i].1 as int)
            &&& titles[13 + k] == extra_title(line_tail_table()[k])
            &&& cells[13 + k] == event.extra[k]
        }),
{
    let titles = event_titles(false);
    let cells = event_cells(event, false, values);
    assert(titles.take(6) =~= header_titles());
    assert(cells.take(6) =~= header_cells(event.header, event.time));
    assert((2 * i) % 2 == 0 && (2 * i) / 2 == i && (2 * i + 1) % 2 == 1 && (2 * i + 1) / 2 == i);
    let title = |f: TailFieldView| extra_title(f);
    assert(titles[13 + k] == title(line_tail_table()[k]));
    assert(i == 0 || i == 1 || i == 2);
}

/// The pulse heights of the strip layers, where they are shown otherwise than
/// in channels, stand in the same columns.
pub proof fn shown_values_keep_their_columns(event: EventView, values: Seq<Seq<char>>, i: int)
    requires
        values.len() == 8,
        0 <= i < 4,
    ensures
        event_cells(event, true, values)[8 + 3 * i] == values[2 * i],
        event_cells(event, true, values)[9 + 3 * i] == values[2 * i + 1],
{
    assert((3 * i + 1) % 3 == 1 && (3 * i + 1) / 3 == i);
    assert((3 * i + 2) % 3 == 2 && (3 * i + 2) / 3 == i);
}

/// The labels of the housekeeping fields of a frame, in their order.
pub open spec fn frame_labels() -> Seq<Seq<char>> {
    seq![
        "Galactic Electron Count"@,
        "Albedo Electron Count"@,
        "Galactic Ion Count"@,
        "Albedo Ion Count"@,
        "L1 Ion Threshold"@,
        "L1 Electron Threshold"@,
        "L2 Ion Particle"@,
        "L2 Electron Particle"@,
        "L3 Ion Particle"@,
        "L3 Electron Particle"@,
        "L4 Ion Particle"@,
        "L4 Electron Particle"@,
        "L5 Ion Particle"@,
        "L5 Electron Particle"@,
        "L6 Ion Particle"@,
        "L6 Electron Particle"@,
        "L7 Ion Particle"@,
        "L7 Electron Particle"@,
        "DSSD1 Temperature"@,
        "FEE1 Current"@,
        "FEE1 Temperature"@,
        "DSSD7 Temperature"@,
        "FEE2 Current"@,
        "FEE2 Temperature"@,
        "FEE1 Threshold"@,
        "FEE2 Threshold"@,
        "BGO1 Bias Voltage"@,
        "BGO2 Bias Voltage"@,
        "BGO3 Bias Voltage"@,
        "BGO2 Temperature"@,
        "Padding"@,
        "Checksum"@,
    ]
}

/// The housekeeping fields of a frame: four of one byte from byte 186 on, then
/// twenty-six of two bytes, then twelve bytes of padding and the checksum.
pub proof fn frame_fields_in_order(k: int)
    requires
        0 <= k < 32,
    ensures
        line_tail_table().len() == 32,
        line_tail_table()[k].label == frame_labels()[k],
        line_tail_table()[k].is_hex == (k >= 30),
        k < 4 ==> line_tail_table()[k].start == 186 + k && line_tail_table()[k].len == 1,
        4 <= k < 30 ==> line_tail_table()[k].start == 182 + 2 * k && line_tail_table()[k].len == 2,
        k == 30 ==> line_tail_table()[k].start == 242 && line_tail_table()[k].len == 12,
        k == 31 ==> line_tail_table()[k].start == 254 && line_tail_table()[k].len == 2,
{
    reveal(line_tail_table);
}

/// The titles of the housekeeping columns name the field and its bytes.
pub proof fn housekeeping_titles(k: int)
    requires
        0 <= k < 32,
    ensures
        extra_title(line_tail_table()[k]) == (if k < 4 {
            frame_labels()[k] + " (Byte "@ + int_text(186 + k) + ")"@
        } else if k < 30 {
            with_bytes(frame_labels()[k], 182 + 2 * k, 183 + 2 * k)
        } else if k == 30 {
            with_bytes("Padding"@, 242, 253)
        } else {
            with_bytes("Checksum"@, 254, 255)
        }),
{
    frame_fields_in_order(k);
    let f = line_tail_table()[k];
    assert(extra_title(f) =~= (if k < 4 {
        frame_labels()[k] + " (Byte "@ + int_text(186 + k) + ")"@
    } else {
        with_bytes(f.label, f.start, f.start + f.len - 1)
    }));
}

#[verifier::spinoff_prover]
#[verifier::rlimit(60)]
proof fn formula_labels(k: int)
    requires
        0 <= k < 30,
    ensures
        (frame_labels()[k] == "FEE2 Temperature"@) == (k == 23),
        k < 26 ==> frame_labels()[k] != "BGO1 Bias Voltage"@ && frame_labels()[k]
            != "BGO2 Bias Voltage"@ && frame_labels()[k] != "BGO3 Bias Voltage"@
            && frame_labels()[k] != "BGO2 Temperature"@,
{
    reveal_strlit("Galactic Electron Count");
    reveal_strlit("Albedo Electron Count");
    reveal_strlit("Galactic Ion Count");
    reveal_strlit("Albedo Ion Count");
    reveal_strlit("L1 Ion Threshold");
    reveal_strlit("L1 Electron Threshold");
    reveal_strlit("L2 Ion Particle");
    reveal_strlit("L2 Electron Particle");
    reveal_strlit("L3 Ion Particle");
    reveal_strlit("L3 Electron Particle");
    reveal_strlit("L4 Ion Particle");
    reveal_strlit("L4 Electron Particle");
    reveal_strlit("L5 Ion Particle");
    reveal_strlit("L5 Electron Particle");
    reveal_strlit("L6 Ion Particle");
    reveal_strlit("L6 Electron Particle");
    reveal_strlit("L7 Ion Particle");
    reveal_strlit("L7 Electron Particle");
    reveal_strlit("DSSD1 Temperature");
    reveal_strlit("FEE1 Current");
    reveal_strlit("FEE1 Temperature");
    reveal_strlit("DSSD7 Temperature");
    reveal_strlit("FEE2 Current");
    reveal_strlit("FEE2 Temperature");
    reveal_strlit("FEE1 Threshold");
    reveal_strlit("FEE2 Threshold");
    reveal_strlit("BGO1 Bias Voltage");
    reveal_strlit("BGO2 Bias Voltage");
    reveal_strlit("BGO3 Bias Voltage");
    reveal_strlit("BGO2 Temperature");
    let label = frame_labels()[k];
    let second = "FEE2 Temperature"@;
    assert(second[0] == 'F' && second[3] == '2' && second.len() == 16);
    assert("BGO1 Bias Voltage"@[0] == 'B' && "BGO2 Bias Voltage"@[0] == 'B'
        && "BGO3 Bias Voltage"@[0] == 'B' && "BGO2 Temperature"@[0] == 'B');
    if k < 26 {
        assert(label[0] != 'B');
    } else {
        assert(label[0] == 'B');
    }
    if k != 23 {
        assert(label[0] != 'F' || label[3] == '1' || label.len() != 16);
    }
}

/// The housekeeping values of a frame, from its bytes: the counts and words as
/// numbers, the temperature of the second board and the four readings of the
/// scintillators through the formula, and the padding and checksum as digits.
pub proof fn frame_tail_fields(frame: Seq<u8>, k: int)
    requires
        frame.len() == 256,
        0 <= k < 32,
    ensures
        frame_tail(frame).len() == 32,
        k < 4 ==> frame_tail(frame)[k] == TailView::Decimal(frame[186 + k] as int),
        4 <= k < 30 ==> frame_tail(frame)[k] == (if k == 23 {
            TailView::Formula(word(frame, 182 + 2 * k))
        } else if k >= 26 {
            TailView::FormulaHundredth(word(frame, 182 + 2 * k))
        } else {
            TailView::Decimal(word(frame, 182 + 2 * k))
        }),
        k == 30 ==> frame_tail(frame)[k] == TailView::Hex(wire_chars(frame.subrange(242, 254))),
        k == 31 ==> frame_tail(frame)[k] == TailView::Hex(wire_chars(frame.subrange(254, 256))),
{
    frame_fields_in_order(k);
    if k < 30 {
        formula_labels(k);
        assert(k >= 26 ==> frame_labels()[k] == "BGO1 Bias Voltage"@ || frame_labels()[k]
            == "BGO2 Bias Voltage"@ || frame_labels()[k] == "BGO3 Bias Voltage"@
            || frame_labels()[k] == "BGO2 Temperature"@);
    }
    frame_text_is_digits(frame, 242, 12);
    frame_text_is_digits(frame, 254, 2);
}

proof fn frame_text_is_digits(frame: Seq<u8>, start: int, len: nat)
    requires
        0 <= start,
        start + len <= frame.len(),
    ensures
        frame_text(frame, start, len) == wire_chars(frame.subrange(start, start + len)),
    decreases len,
{
    let part = frame.subrange(start, start + len);
    if len == 0 {
        assert(wire_chars(part) =~= Seq::<char>::empty());
    } else {
        frame_text_is_digits(frame, start, (len - 1) as nat);
        let shorter = frame.subrange(start, start + len - 1);
        let last = frame[start + len - 1];
        wire_text_is_byte_text(last);
        assert forall|j: int| 0 <= j < 2 * len implies #[trigger] wire_chars(part)[j] == (
        wire_chars(shorter) + wire_text(last))[j] by {
            if j < 2 * len - 2 {
                assert(part[j / 2] == shorter[j / 2]);
            } else {
                assert(j / 2 == len - 1);
            }
        }
        assert(wire_chars(part) =~= wire_chars(shorter) + wire_text(last));
    }
}

} // verus!
