//! Lines of flux mode, for the data table.

use crate::clock::Millis;
use crate::line::{
    dec_pair, get_date_time_from_hex_data, header_of, hex_span, pair_at,
    parse_line_header_fields, span_text, time_of, HeaderView,
};
use crate::tail::{calibrated, cell_views, cell_views_push, pair_cell, TailCell, TailView};
use crate::text::{decimal, int_text, views, views_push};
use vstd::prelude::*;

verus! {

/// A housekeeping field of two bytes.
#[derive(Debug, Clone, Copy)]
pub struct FluxTailField {
    pub label: &'static str,
    pub byte_start: usize,
}

impl View for FluxTailField {
    type V = (Seq<char>, int);

    open spec fn view(&self) -> (Seq<char>, int) {
        (self.label@, self.byte_start as int)
    }
}

/// The housekeeping fields, bytes 2032 to 2055.
#[verifier::opaque]
pub open spec fn flux_tail_table() -> Seq<(Seq<char>, int)> {
    seq![
        ("DSSD 1 Temperature"@, 2032),
        ("FEE1 Current"@, 2034),
        ("FEE1 Temperature"@, 2036),
        ("DSSD 7 Temperature"@, 2038),
        ("FEE2 Current"@, 2040),
        ("FEE2 Temperature"@, 2042),
        ("FEE1 Threshold"@, 2044),
        ("FEE2 Threshold"@, 2046),
        ("BGO1 Bias Voltage"@, 2048),
        ("BGO2 Bias Voltage"@, 2050),
        ("BGO3 Bias Voltage"@, 2052),
        ("BGO2 Temperature"@, 2054),
    ]
}

fn tail(label: &'static str, byte_start: usize) -> (r: FluxTailField)
    ensures
        r@ == (label@, byte_start as int),
{
    FluxTailField { label, byte_start }
}

/// The housekeeping fields, bytes 2032 to 2055.
pub fn flux_tail_fields() -> (r: Vec<FluxTailField>)
    ensures
        r@.map_values(|f: FluxTailField| f@) == flux_tail_table(),
        r@.len() == 12,
        forall|k: int| 0 <= k < 12 ==> (#[trigger] r@[k]).byte_start < 2064,
{
    let fields = vec![
        tail("DSSD 1 Temperature", 2032),
        tail("FEE1 Current", 2034),
        tail("FEE1 Temperature", 2036),
        tail("DSSD 7 Temperature", 2038),
        tail("FEE2 Current", 2040),
        tail("FEE2 Temperature", 2042),
        tail("FEE1 Threshold", 2044),
        tail("FEE2 Threshold", 2046),
        tail("BGO1 Bias Voltage", 2048),
        tail("BGO2 Bias Voltage", 2050),
        tail("BGO3 Bias Voltage", 2052),
        tail("BGO2 Temperature", 2054),
    ];
    proof {
        reveal(flux_tail_table);
        assert(fields@.map_values(|f: FluxTailField| f@) =~= flux_tail_table());
        assert forall|k: int| 0 <= k < 12 implies (#[trigger] fields@[k]).byte_start < 2064 by {
            assert(fields@[k]@ == flux_tail_table()[k]);
        }
    }
    fields
}

/// Where the particle counts stand, one per layer.
pub const PARTICLE_COUNTS_START: usize = 18;

/// Layers with a particle count.
pub const PARTICLE_COUNTS_LAYERS: usize = 7;

/// Where the particle slots stand.
pub const PARTICLE_INFO_START: usize = 32;

/// Particle slots in a line.
pub const PARTICLE_INFO_COUNT: usize = 1000;

const PARTICLE_TIME_START: usize = 16;

const RESERVED_START: usize = 2056;

const RESERVED_LEN: usize = 6;

const CHECKSUM_START: usize = 2062;

const CHECKSUM_LEN: usize = 2;

/// One decoded line.
#[derive(Debug, Clone, Default)]
pub struct FluxLineResult {
    pub packet_sync: String,
    pub package_id: i32,
    pub packet_sequence: i32,
    pub packet_data_length: i32,
    pub time: Millis,
    pub data_type: String,
    pub particle_time: i32,
    /// Particle counts of L1 to L7.
    pub particle_counts: Vec<i32>,
    /// The particle slots, each a decimal number.
    pub particle_info: Vec<String>,
    /// The housekeeping values, in the order of the fields.
    pub tail: Vec<TailCell>,
    pub reserved_hex: String,
    pub checksum_hex: String,
}

/// What a line says.
pub struct FluxLineView {
    pub header: HeaderView,
    pub time: int,
    pub particle_time: int,
    pub particle_counts: Seq<i32>,
    pub particle_info: Seq<Seq<char>>,
    pub tail: Seq<TailView>,
    pub reserved: Seq<char>,
    pub checksum: Seq<char>,
}

impl View for FluxLineResult {
    type V = FluxLineView;

    open spec fn view(&self) -> FluxLineView {
        FluxLineView {
            header: HeaderView {
                packet_sync: self.packet_sync@,
                package_id: self.package_id as int,
                packet_sequence: self.packet_sequence as int,
                packet_data_length: self.packet_data_length as int,
                data_type: self.data_type@,
            },
            time: self.time as int,
            particle_time: self.particle_time as int,
            particle_counts: self.particle_counts@,
            particle_info: views(self.particle_info@),
            tail: cell_views(self.tail@),
            reserved: self.reserved_hex@,
            checksum: self.checksum_hex@,
        }
    }
}

/// The particle counts of L1 to L7.
pub open spec fn counts_of(tokens: Seq<Seq<char>>) -> Seq<i32> {
    Seq::new(7, |i: int| pair_at(tokens, 18 + 2 * i) as i32)
}

/// The particle slots of a line, as decimal numbers.
pub open spec fn slots_of(tokens: Seq<Seq<char>>) -> Seq<Seq<char>> {
    Seq::new(1000, |i: int| int_text(pair_at(tokens, 32 + 2 * i)))
}

/// The housekeeping values of a line.
pub open spec fn flux_tail(tokens: Seq<Seq<char>>) -> Seq<TailView> {
    flux_tail_table().map_values(|f: (Seq<char>, int)| calibrated(f.0, pair_at(tokens, f.1)))
}

/// The decoded line, where it has its 2064 bytes, a readable header and a
/// readable timecode.
pub open spec fn flux_line(tokens: Seq<Seq<char>>) -> Option<FluxLineView> {
    match (header_of(tokens), time_of(tokens)) {
        (Some(header), Ok(time)) => if tokens.len() >= 2064 {
            Some(
                FluxLineView {
                    header,
                    time,
                    particle_time: pair_at(tokens, 16),
                    particle_counts: counts_of(tokens),
                    particle_info: slots_of(tokens),
                    tail: flux_tail(tokens),
                    reserved: span_text(tokens, 2056, 6),
                    checksum: span_text(tokens, 2062, 2),
                },
            )
        } else {
            None
        },
        _ => None,
    }
}

fn particle_counts(hex_data: &[String]) -> (r: Vec<i32>)
    ensures
        r@ == counts_of(views(hex_data@)),
{
    let ghost whole = counts_of(views(hex_data@));
    let mut counts: Vec<i32> = Vec::new();
    for i in 0..PARTICLE_COUNTS_LAYERS
        invariant
            whole == counts_of(views(hex_data@)),
            counts@ == whole.take(i as int),
    {
        counts.push(dec_pair(hex_data, PARTICLE_COUNTS_START + i * 2));
        assert(whole.take(i + 1) == whole.take(i as int).push(whole[i as int]));
    }
    assert(whole.take(7) == whole);
    counts
}

fn particle_info(hex_data: &[String]) -> (r: Vec<String>)
    ensures
        views(r@) == slots_of(views(hex_data@)),
{
    let ghost whole = slots_of(views(hex_data@));
    let mut slots: Vec<String> = Vec::new();
    for i in 0..PARTICLE_INFO_COUNT
        invariant
            whole == slots_of(views(hex_data@)),
            views(slots@) == whole.take(i as int),
    {
        let slot = decimal(dec_pair(hex_data, PARTICLE_INFO_START + i * 2) as i64);
        proof {
            views_push(slots@, slot);
            assert(whole.take(i + 1) == whole.take(i as int).push(slot@));
        }
        slots.push(slot);
    }
    assert(whole.take(1000) == whole);
    slots
}

fn tail_cells(hex_data: &[String]) -> (r: Vec<TailCell>)
    ensures
        cell_views(r@) == flux_tail(views(hex_data@)),
{
    let fields = flux_tail_fields();
    let ghost whole = flux_tail(views(hex_data@));
    let mut cells: Vec<TailCell> = Vec::new();
    for k in 0..fields.len()
        invariant
            fields@.len() == 12,
            fields@.map_values(|f: FluxTailField| f@) == flux_tail_table(),
            forall|j: int| 0 <= j < 12 ==> (#[trigger] fields@[j]).byte_start < 2064,
            whole == flux_tail(views(hex_data@)),
            cell_views(cells@) == whole.take(k as int),
    {
        let cell = pair_cell(hex_data, fields[k].label, fields[k].byte_start);
        proof {
            assert(fields@[k as int]@ == flux_tail_table()[k as int]);
            cell_views_push(cells@, cell);
            assert(whole.take(k + 1) == whole.take(k as int).push(cell@));
        }
        cells.push(cell);
    }
    assert(whole.take(12) == whole);
    cells
}

/// Decodes one line into a row of the data table.
pub fn parse_flux_line(hex_data: &[String]) -> (r: Option<FluxLineResult>)
    ensures
        match r {
            Some(line) => flux_line(views(hex_data@)) == Some(line@),
            None => flux_line(views(hex_data@)) is None,
        },
{
    if hex_data.len() < CHECKSUM_START + CHECKSUM_LEN {
        return None;
    }
    let header = match parse_line_header_fields(hex_data) {
        Some(header) => header,
        None => {
            return None;
        },
    };
    let time: i64 = match get_date_time_from_hex_data(hex_data) {
        Ok(time) => time,
        Err(_) => {
            return None;
        },
    };
    Some(
        FluxLineResult {
            packet_sync: header.packet_sync,
            package_id: header.package_id,
            packet_sequence: header.packet_sequence,
            packet_data_length: header.packet_data_length,
            time,
            data_type: header.data_type,
            particle_time: dec_pair(hex_data, PARTICLE_TIME_START),
            particle_counts: particle_counts(hex_data),
            particle_info: particle_info(hex_data),
            tail: tail_cells(hex_data),
            reserved_hex: hex_span(hex_data, RESERVED_START, RESERVED_LEN),
            checksum_hex: hex_span(hex_data, CHECKSUM_START, CHECKSUM_LEN),
        },
    )
}

} // verus!
