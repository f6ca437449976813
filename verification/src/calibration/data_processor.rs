//! Lines of calibration mode, for the data table.

use crate::clock::Millis;
use crate::line::{
    block_of, block_values, dec_pair, get_date_time_from_hex_data, header_of, hex_span, pair_at,
    parse_line_header_fields, span_text, time_of, HeaderView,
};
use crate::series::{series_views, series_views_push};
use crate::tail::{calibrated, cell_views, cell_views_push, pair_cell, TailCell, TailView};
use crate::text::{decimal, int_text, views};
use vstd::prelude::*;
use vstd::string::StringExecFns;

verus! {

/// A housekeeping field of two bytes.
#[derive(Debug, Clone, Copy)]
pub struct CalibrationTailField {
    pub label: &'static str,
    pub byte_start: usize,
}

impl View for CalibrationTailField {
    type V = (Seq<char>, int);

    open spec fn view(&self) -> (Seq<char>, int) {
        (self.label@, self.byte_start as int)
    }
}

/// The housekeeping fields, bytes 1426 to 1445.
#[verifier::opaque]
pub open spec fn calibration_tail_table() -> Seq<(Seq<char>, int)> {
    seq![
        ("DSSD 1 Temperature"@, 1426),
        ("FEE1 Current"@, 1428),
        ("FEE1 Temperature"@, 1430),
        ("DSSD 7 Temperature"@, 1432),
        ("FEE2 Current"@, 1434),
        ("FEE2 Temperature"@, 1436),
        ("FEE1 Threshold"@, 1438),
        ("FEE2 Threshold"@, 1440),
        ("DSSD 1 Temperature (dup)"@, 1442),
        ("DSSD 4 Temperature"@, 1444),
    ]
}

fn tail(label: &'static str, byte_start: usize) -> (r: CalibrationTailField)
    ensures
        r@ == (label@, byte_start as int),
{
    CalibrationTailField { label, byte_start }
}

/// The housekeeping fields, bytes 1426 to 1445.
pub fn calibration_tail_fields() -> (r: Vec<CalibrationTailField>)
    ensures
        r@.map_values(|f: CalibrationTailField| f@) == calibration_tail_table(),
        r@.len() == 10,
        forall|k: int| 0 <= k < 10 ==> (#[trigger] r@[k]).byte_start < 2064,
{
    let fields = vec![
        tail("DSSD 1 Temperature", 1426),
        tail("FEE1 Current", 1428),
        tail("FEE1 Temperature", 1430),
        tail("DSSD 7 Temperature", 1432),
        tail("FEE2 Current", 1434),
        tail("FEE2 Temperature", 1436),
        tail("FEE1 Threshold", 1438),
        tail("FEE2 Threshold", 1440),
        tail("DSSD 1 Temperature (dup)", 1442),
        tail("DSSD 4 Temperature", 1444),
    ];
    proof {
        reveal(calibration_tail_table);
        assert(fields@.map_values(|f: CalibrationTailField| f@) =~= calibration_tail_table());
        assert forall|k: int| 0 <= k < 10 implies (#[trigger] fields@[k]).byte_start < 2064 by {
            assert(fields@[k]@ == calibration_tail_table()[k]);
        }
    }
    fields
}

/// Voltage steps in a line.
pub const VOLTAGE_STEPS: usize = 11;

/// Where the first step's blocks stand.
pub const BLOCK_START: usize = 18;

/// Bytes of one step: the blocks of four layers.
pub const STEP_STRIDE: usize = 128;

/// Bytes of one layer's block.
pub const BLOCK_LEN: usize = 32;

const RESERVED_START: usize = 1446;

const RESERVED_LEN: usize = 616;

const CHECKSUM_START: usize = 2062;

const CHECKSUM_LEN: usize = 2;

/// One block of 32 bytes: the sixteen channels of a layer at one voltage.
#[derive(Debug, Clone)]
pub struct CalibrationBlockField {
    pub label: String,
    pub byte_start: usize,
}

impl View for CalibrationBlockField {
    type V = (Seq<char>, int);

    open spec fn view(&self) -> (Seq<char>, int) {
        (self.label@, self.byte_start as int)
    }
}

/// The names of the layers in the order of their blocks within a step.
pub open spec fn block_layer(i: int) -> Seq<char> {
    if i == 0 {
        "L1"@
    } else if i == 1 {
        "L2"@
    } else if i == 2 {
        "L6"@
    } else {
        "L7"@
    }
}

/// The label of a block: the step's voltage in tenths of a volt, and the
/// layer.
pub open spec fn block_label(step: int, layer: int) -> Seq<char> {
    int_text(step / 10) + "."@ + int_text(step % 10) + "V "@ + block_layer(layer)
}

/// The blocks of a line: eleven steps of four layers each, one after the
/// other.
pub open spec fn block_table() -> Seq<(Seq<char>, int)> {
    Seq::new(44, |k: int| (block_label(k / 4, k % 4), 18 + 128 * (k / 4) + 32 * (k % 4)))
}

fn layer_label(i: usize) -> (r: &'static str)
    ensures
        r@ == block_layer(i as int),
{
    match i {
        0 => "L1",
        1 => "L2",
        2 => "L6",
        _ => "L7",
    }
}

/// The blocks of a line, bytes 18 to 1425.
pub fn calibration_block_fields() -> (r: Vec<CalibrationBlockField>)
    ensures
        r@.map_values(|f: CalibrationBlockField| f@) == block_table(),
        r@.len() == 44,
{
    let mut fields: Vec<CalibrationBlockField> = Vec::new();
    let ghost look = |f: CalibrationBlockField| f@;
    for k in 0..44usize
        invariant
            look == (|f: CalibrationBlockField| f@),
            fields@.map_values(look) == block_table().take(k as int),
            fields@.len() == k,
    {
        let step: usize = k / 4;
        let layer: usize = k % 4;
        let mut label = decimal((step / 10) as i64);
        label.append(".");
        label.append(decimal((step % 10) as i64).as_str());
        label.append("V ");
        label.append(layer_label(layer));
        let field = CalibrationBlockField {
            label,
            byte_start: BLOCK_START + STEP_STRIDE * step + BLOCK_LEN * layer,
        };
        proof {
            assert(field@ == block_table()[k as int]);
            assert(fields@.push(field).map_values(look) == fields@.map_values(look).push(field@));
            assert(block_table().take(k + 1) == block_table().take(k as int).push(field@));
        }
        fields.push(field);
    }
    assert(block_table().take(44) == block_table());
    fields
}

/// One decoded line.
#[derive(Debug, Clone, Default)]
pub struct CalibrationLineResult {
    pub packet_sync: String,
    pub package_id: i32,
    pub packet_sequence: i32,
    pub packet_data_length: i32,
    pub time: Millis,
    pub data_type: String,
    pub sample_index: i32,
    /// Sixteen channel values per block, in the order of the block fields.
    pub blocks: Vec<Vec<i32>>,
    /// The housekeeping values, in the order of the fields.
    pub tail: Vec<TailCell>,
    pub reserved_hex: String,
    pub checksum_hex: String,
}

/// What a line says.
pub struct CalibrationLineView {
    pub header: HeaderView,
    pub time: int,
    pub sample_index: int,
    pub blocks: Seq<Seq<i32>>,
    pub tail: Seq<TailView>,
    pub reserved: Seq<char>,
    pub checksum: Seq<char>,
}

impl View for CalibrationLineResult {
    type V = CalibrationLineView;

    open spec fn view(&self) -> CalibrationLineView {
        CalibrationLineView {
            header: HeaderView {
                packet_sync: self.packet_sync@,
                package_id: self.package_id as int,
                packet_sequence: self.packet_sequence as int,
                packet_data_length: self.packet_data_length as int,
                data_type: self.data_type@,
            },
            time: self.time as int,
            sample_index: self.sample_index as int,
            blocks: series_views(self.blocks@),
            tail: cell_views(self.tail@),
            reserved: self.reserved_hex@,
            checksum: self.checksum_hex@,
        }
    }
}

/// The blocks of a line, decoded.
pub open spec fn blocks_of(tokens: Seq<Seq<char>>) -> Seq<Seq<i32>> {
    block_table().map_values(|f: (Seq<char>, int)| block_of(tokens, f.1))
}

/// The housekeeping values of a line.
pub open spec fn calibration_tail(tokens: Seq<Seq<char>>) -> Seq<TailView> {
    calibration_tail_table().map_values(|f: (Seq<char>, int)| calibrated(f.0, pair_at(tokens, f.1)))
}

/// The decoded line, where it has its 2064 bytes, a readable header and a
/// readable timecode.
pub open spec fn calibration_line(tokens: Seq<Seq<char>>) -> Option<CalibrationLineView> {
    match (header_of(tokens), time_of(tokens)) {
        (Some(header), Ok(time)) => if tokens.len() >= 2064 {
            Some(
                CalibrationLineView {
                    header,
                    time,
                    sample_index: pair_at(tokens, 16),
                    blocks: blocks_of(tokens),
                    tail: calibration_tail(tokens),
                    reserved: span_text(tokens, 1446, 616),
                    checksum: span_text(tokens, 2062, 2),
                },
            )
        } else {
            None
        },
        _ => None,
    }
}

fn decode_blocks(hex_data: &[String]) -> (r: Vec<Vec<i32>>)
    ensures
        series_views(r@) == blocks_of(views(hex_data@)),
{
    let ghost whole = blocks_of(views(hex_data@));
    let mut blocks: Vec<Vec<i32>> = Vec::new();
    for k in 0..44usize
        invariant
            whole == blocks_of(views(hex_data@)),
            series_views(blocks@) == whole.take(k as int),
    {
        let block = block_values(hex_data, BLOCK_START + STEP_STRIDE * (k / 4) + BLOCK_LEN * (k % 4));
        proof {
            series_views_push(blocks@, block);
            assert(whole.take(k + 1) == whole.take(k as int).push(block@));
        }
        blocks.push(block);
    }
    assert(whole.take(44) == whole);
    blocks
}

fn tail_cells(hex_data: &[String]) -> (r: Vec<TailCell>)
    ensures
        cell_views(r@) == calibration_tail(views(hex_data@)),
{
    let fields = calibration_tail_fields();
    let ghost whole = calibration_tail(views(hex_data@));
    let mut cells: Vec<TailCell> = Vec::new();
    for k in 0..fields.len()
        invariant
            fields@.len() == 10,
            fields@.map_values(|f: CalibrationTailField| f@) == calibration_tail_table(),
            forall|j: int| 0 <= j < 10 ==> (#[trigger] fields@[j]).byte_start < 2064,
            whole == calibration_tail(views(hex_data@)),
            cell_views(cells@) == whole.take(k as int),
    {
        let cell = pair_cell(hex_data, fields[k].label, fields[k].byte_start);
        proof {
            assert(fields@[k as int]@ == calibration_tail_table()[k as int]);
            cell_views_push(cells@, cell);
            assert(whole.take(k + 1) == whole.take(k as int).push(cell@));
        }
        cells.push(cell);
    }
    assert(whole.take(10) == whole);
    cells
}

/// Decodes one line into a row of the data table.
pub fn parse_calibration_line(hex_data: &[String]) -> (r: Option<CalibrationLineResult>)
    ensures
        match r {
            Some(line) => calibration_line(views(hex_data@)) == Some(line@),
            None => calibration_line(views(hex_data@)) is None,
        },
{
    if hex_data.len() < CHECKSUM_START + CHECKSUM_LEN {
        return None;
    }
    let header = match parse_line_header_fields(hex_data) {
        Some(header) => header,
        None => {
            return None;
        },
    };
    let time: i64 = match get_date_time_from_hex_data(hex_data) {
        Ok(time) => time,
        Err(_) => {
            return None;
        },
    };
    Some(
        CalibrationLineResult {
            packet_sync: header.packet_sync,
            package_id: header.package_id,
            packet_sequence: header.packet_sequence,
            packet_data_length: header.packet_data_length,
            time,
            data_type: header.data_type,
            sample_index: dec_pair(hex_data, 16),
            blocks: decode_blocks(hex_data),
            tail: tail_cells(hex_data),
            reserved_hex: hex_span(hex_data, RESERVED_START, RESERVED_LEN),
            checksum_hex: hex_span(hex_data, CHECKSUM_START, CHECKSUM_LEN),
        },
    )
}

} // verus!
