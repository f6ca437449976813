//! Lines of baseline mode, for the data table.

use crate::clock::Millis;
use crate::line::{
    block_of, block_values, dec_pair, get_date_time_from_hex_data,
    header_of, hex_span, pair_at, parse_line_header_fields, span_text, time_of, HeaderView,
};
use crate::series::{series_views, series_views_push};
use crate::tail::{calibrated, cell_views, cell_views_push, pair_cell, TailCell, TailView};
use crate::text::views;
use vstd::prelude::*;

verus! {

/// A housekeeping field of two bytes.
#[derive(Debug, Clone, Copy)]
pub struct BaselineTailField {
    pub label: &'static str,
    pub byte_start: usize,
}

impl View for BaselineTailField {
    type V = (Seq<char>, int);

    open spec fn view(&self) -> (Seq<char>, int) {
        (self.label@, self.byte_start as int)
    }
}

/// The housekeeping fields, bytes 1938 to 1957.
#[verifier::opaque]
pub open spec fn baseline_tail_table() -> Seq<(Seq<char>, int)> {
    seq![
        ("DSSD 1 Temperature"@, 1938),
        ("FEE1 Current"@, 1940),
        ("FEE1 Temperature"@, 1942),
        ("DSSD 7 Temperature"@, 1944),
        ("FEE2 Current"@, 1946),
        ("FEE2 Temperature"@, 1948),
        ("FEE1 Threshold"@, 1950),
        ("FEE2 Threshold"@, 1952),
        ("DSSD 1 Temperature (dup)"@, 1954),
        ("DSSD 4 Temperature"@, 1956),
    ]
}

fn tail(label: &'static str, byte_start: usize) -> (r: BaselineTailField)
    ensures
        r@ == (label@, byte_start as int),
{
    BaselineTailField { label, byte_start }
}

/// The housekeeping fields, bytes 1938 to 1957.
pub fn baseline_tail_fields() -> (r: Vec<BaselineTailField>)
    ensures
        r@.map_values(|f: BaselineTailField| f@) == baseline_tail_table(),
        r@.len() == 10,
        forall|k: int| 0 <= k < 10 ==> (#[trigger] r@[k]).byte_start < 2064,
{
    let fields = vec![
        tail("DSSD 1 Temperature", 1938),
        tail("FEE1 Current", 1940),
        tail("FEE1 Temperature", 1942),
        tail("DSSD 7 Temperature", 1944),
        tail("FEE2 Current", 1946),
        tail("FEE2 Temperature", 1948),
        tail("FEE1 Threshold", 1950),
        tail("FEE2 Threshold", 1952),
        tail("DSSD 1 Temperature (dup)", 1954),
        tail("DSSD 4 Temperature", 1956),
    ];
    proof {
        reveal(baseline_tail_table);
        assert(fields@.map_values(|f: BaselineTailField| f@) =~= baseline_tail_table());
        assert forall|k: int| 0 <= k < 10 implies (#[trigger] fields@[k]).byte_start < 2064 by {
            assert(fields@[k]@ == baseline_tail_table()[k]);
        }
    }
    fields
}

/// Bytes of one layer's block within a sample: sixteen channels of two bytes.
pub const BLOCK_LEN: usize = 32;

/// Bytes from one sample to the next: the blocks of two layers.
pub const SAMPLE_STRIDE: usize = 64;

/// Samples of one layer in a line.
pub const BLOCKS_PER_LAYER: usize = 15;

/// Where each layer's first block stands.
pub const L1_OFFSET: usize = 18;

pub const L2_OFFSET: usize = 50;

pub const L6_OFFSET: usize = 978;

pub const L7_OFFSET: usize = 1010;

const RESERVED_START: usize = 1958;

const RESERVED_LEN: usize = 104;

const CHECKSUM_START: usize = 2062;

const CHECKSUM_LEN: usize = 2;

/// The byte at which sample `index` of a layer stands, given the layer's
/// first.
pub fn sample_block_offset(layer_base: usize, index: usize) -> (r: usize)
    requires
        layer_base + 64 * index <= usize::MAX,
    ensures
        r == layer_base + 64 * index,
{
    layer_base + SAMPLE_STRIDE * index
}

/// One decoded line.
#[derive(Debug, Clone, Default)]
pub struct BaselineLineResult {
    pub packet_sync: String,
    pub package_id: i32,
    pub packet_sequence: i32,
    pub packet_data_length: i32,
    pub time: Millis,
    pub data_type: String,
    pub sample_index: i32,
    /// Sixteen channel values per sample, fifteen samples per layer.
    pub l1_blocks: Vec<Vec<i32>>,
    pub l2_blocks: Vec<Vec<i32>>,
    pub l6_blocks: Vec<Vec<i32>>,
    pub l7_blocks: Vec<Vec<i32>>,
    /// The housekeeping values, in the order of the fields.
    pub tail: Vec<TailCell>,
    pub reserved_hex: String,
    pub checksum_hex: String,
}

/// What a line says.
pub struct BaselineLineView {
    pub header: HeaderView,
    pub time: int,
    pub sample_index: int,
    pub l1_blocks: Seq<Seq<i32>>,
    pub l2_blocks: Seq<Seq<i32>>,
    pub l6_blocks: Seq<Seq<i32>>,
    pub l7_blocks: Seq<Seq<i32>>,
    pub tail: Seq<TailView>,
    pub reserved: Seq<char>,
    pub checksum: Seq<char>,
}

impl View for BaselineLineResult {
    type V = BaselineLineView;

    open spec fn view(&self) -> BaselineLineView {
        BaselineLineView {
            header: HeaderView {
                packet_sync: self.packet_sync@,
                package_id: self.package_id as int,
                packet_sequence: self.packet_sequence as int,
                packet_data_length: self.packet_data_length as int,
                data_type: self.data_type@,
            },
            time: self.time as int,
            sample_index: self.sample_index as int,
            l1_blocks: series_views(self.l1_blocks@),
            l2_blocks: series_views(self.l2_blocks@),
            l6_blocks: series_views(self.l6_blocks@),
            l7_blocks: series_views(self.l7_blocks@),
            tail: cell_views(self.tail@),
            reserved: self.reserved_hex@,
            checksum: self.checksum_hex@,
        }
    }
}

/// The fifteen samples of a layer whose first stands at `base`.
pub open spec fn samples_of(tokens: Seq<Seq<char>>, base: int) -> Seq<Seq<i32>> {
    Seq::new(15, |k: int| block_of(tokens, base + 64 * k))
}

/// The housekeeping values of a line.
pub open spec fn baseline_tail(tokens: Seq<Seq<char>>) -> Seq<TailView> {
    baseline_tail_table().map_values(|f: (Seq<char>, int)| calibrated(f.0, pair_at(tokens, f.1)))
}

/// The decoded line, where it has its 2064 bytes, a readable header and a
/// readable timecode.
pub open spec fn baseline_line(tokens: Seq<Seq<char>>) -> Option<BaselineLineView> {
    match (header_of(tokens), time_of(tokens)) {
        (Some(header), Ok(time)) => if tokens.len() >= 2064 {
            Some(
                BaselineLineView {
                    header,
                    time,
                    sample_index: pair_at(tokens, 16),
                    l1_blocks: samples_of(tokens, 18),
                    l2_blocks: samples_of(tokens, 50),
                    l6_blocks: samples_of(tokens, 978),
                    l7_blocks: samples_of(tokens, 1010),
                    tail: baseline_tail(tokens),
                    reserved: span_text(tokens, 1958, 104),
                    checksum: span_text(tokens, 2062, 2),
                },
            )
        } else {
            None
        },
        _ => None,
    }
}

fn layer_blocks(hex_data: &[String], layer_base: usize) -> (r: Vec<Vec<i32>>)
    requires
        layer_base <= 2064,
    ensures
        series_views(r@) == samples_of(views(hex_data@), layer_base as int),
{
    let ghost samples = samples_of(views(hex_data@), layer_base as int);
    let mut blocks: Vec<Vec<i32>> = Vec::new();
    for index in 0..BLOCKS_PER_LAYER
        invariant
            layer_base <= 2064,
            samples == samples_of(views(hex_data@), layer_base as int),
            series_views(blocks@) == samples.take(index as int),
    {
        let block = block_values(hex_data, sample_block_offset(layer_base, index));
        proof {
            series_views_push(blocks@, block);
            assert(samples.take(index + 1) == samples.take(index as int).push(samples[index as int]));
        }
        blocks.push(block);
    }
    assert(samples.take(15) == samples);
    blocks
}

fn tail_cells(hex_data: &[String]) -> (r: Vec<TailCell>)
    ensures
        cell_views(r@) == baseline_tail(views(hex_data@)),
{
    let fields = baseline_tail_fields();
    let ghost whole = baseline_tail(views(hex_data@));
    let mut cells: Vec<TailCell> = Vec::new();
    for k in 0..fields.len()
        invariant
            fields@.len() == 10,
            fields@.map_values(|f: BaselineTailField| f@) == baseline_tail_table(),
            forall|j: int| 0 <= j < 10 ==> (#[trigger] fields@[j]).byte_start < 2064,
            whole == baseline_tail(views(hex_data@)),
            cell_views(cells@) == whole.take(k as int),
    {
        let cell = pair_cell(hex_data, fields[k].label, fields[k].byte_start);
        proof {
            assert(fields@[k as int]@ == baseline_tail_table()[k as int]);
            cell_views_push(cells@, cell);
            assert(whole.take(k + 1) == whole.take(k as int).push(cell@));
        }
        cells.push(cell);
    }
    assert(whole.take(10) == whole);
    cells
}

/// Decodes one line into a row of the data table.
pub fn parse_baseline_line(hex_data: &[String]) -> (r: Option<BaselineLineResult>)
    ensures
        match r {
            Some(line) => baseline_line(views(hex_data@)) == Some(line@),
            None => baseline_line(views(hex_data@)) is None,
        },
{
    if hex_data.len() < CHECKSUM_START + CHECKSUM_LEN {
        return None;
    }
    let header = match parse_line_header_fields(hex_data) {
        Some(header) => header,
        None => {
            return None;
        },
    };
    let time: i64 = match get_date_time_from_hex_data(hex_data) {
        Ok(time) => time,
        Err(_) => {
            return None;
        },
    };
    Some(
        BaselineLineResult {
            packet_sync: header.packet_sync,
            package_id: header.package_id,
            packet_sequence: header.packet_sequence,
            packet_data_length: header.packet_data_length,
            time,
            data_type: header.data_type,
            sample_index: dec_pair(hex_data, 16),
            l1_blocks: layer_blocks(hex_data, L1_OFFSET),
            l2_blocks: layer_blocks(hex_data, L2_OFFSET),
            l6_blocks: layer_blocks(hex_data, L6_OFFSET),
            l7_blocks: layer_blocks(hex_data, L7_OFFSET),
            tail: tail_cells(hex_data),
            reserved_hex: hex_span(hex_data, RESERVED_START, RESERVED_LEN),
            checksum_hex: hex_span(hex_data, CHECKSUM_START, CHECKSUM_LEN),
        },
    )
}

} // verus!
