//! The housekeeping tail of an observation frame, bytes 186 to 255.

use crate::hex::{byte_text, push_byte_text};
use crate::line::{byte, byte_at, dec_pair, hex_span, pair_at, span_text};
use crate::tail::{calibrated, calibrated_value, cell_views, cell_views_push, TailCell, TailView};
use crate::text::views;
use vstd::prelude::*;

verus! {

/// One housekeeping field: where its bytes stand and how they are shown.
#[derive(Debug, Clone, Copy)]
pub struct LineTailField {
    pub label: &'static str,
    pub byte_start: usize,
    pub byte_len: usize,
    pub is_hex: bool,
}

/// What a housekeeping field is.
pub struct TailFieldView {
    pub label: Seq<char>,
    pub start: int,
    pub len: nat,
    pub is_hex: bool,
}

impl View for LineTailField {
    type V = TailFieldView;

    open spec fn view(&self) -> TailFieldView {
        TailFieldView {
            label: self.label@,
            start: self.byte_start as int,
            len: self.byte_len as nat,
            is_hex: self.is_hex,
        }
    }
}

/// What the fields of a table are.
pub open spec fn field_views(fields: Seq<LineTailField>) -> Seq<TailFieldView> {
    fields.map_values(|f: LineTailField| f@)
}

/// A field that is shown as a number.
pub open spec fn dec_field(label: &'static str, start: int, len: nat) -> TailFieldView {
    TailFieldView { label: label@, start, len, is_hex: false }
}

/// A field whose bytes are shown as they stand.
pub open spec fn hex_field(label: &'static str, start: int, len: nat) -> TailFieldView {
    TailFieldView { label: label@, start, len, is_hex: true }
}

/// The housekeeping fields of a frame, in order.
#[verifier::opaque]
pub open spec fn line_tail_table() -> Seq<TailFieldView> {
    seq![
        dec_field("Galactic Electron Count", 186, 1),
        dec_field("Albedo Electron Count", 187, 1),
        dec_field("Galactic Ion Count", 188, 1),
        dec_field("Albedo Ion Count", 189, 1),
        dec_field("L1 Ion Threshold", 190, 2),
        dec_field("L1 Electron Threshold", 192, 2),
        dec_field("L2 Ion Particle", 194, 2),
        dec_field("L2 Electron Particle", 196, 2),
        dec_field("L3 Ion Particle", 198, 2),
        dec_field("L3 Electron Particle", 200, 2),
        dec_field("L4 Ion Particle", 202, 2),
        dec_field("L4 Electron Particle", 204, 2),
        dec_field("L5 Ion Particle", 206, 2),
        dec_field("L5 Electron Particle", 208, 2),
        dec_field("L6 Ion Particle", 210, 2),
        dec_field("L6 Electron Particle", 212, 2),
        dec_field("L7 Ion Particle", 214, 2),
        dec_field("L7 Electron Particle", 216, 2),
        dec_field("DSSD1 Temperature", 218, 2),
        dec_field("FEE1 Current", 220, 2),
        dec_field("FEE1 Temperature", 222, 2),
        dec_field("DSSD7 Temperature", 224, 2),
        dec_field("FEE2 Current", 226, 2),
        dec_field("FEE2 Temperature", 228, 2),
        dec_field("FEE1 Threshold", 230, 2),
        dec_field("FEE2 Threshold", 232, 2),
        dec_field("BGO1 Bias Voltage", 234, 2),
        dec_field("BGO2 Bias Voltage", 236, 2),
        dec_field("BGO3 Bias Voltage", 238, 2),
        dec_field("BGO2 Temperature", 240, 2),
        hex_field("Padding", 242, 12),
        hex_field("Checksum", 254, 2),
    ]
}

fn dec(label: &'static str, byte_start: usize, byte_len: usize) -> (r: LineTailField)
    ensures
        r@ == dec_field(label, byte_start as int, byte_len as nat),
{
    LineTailField { label, byte_start, byte_len, is_hex: false }
}

fn hex(label: &'static str, byte_start: usize, byte_len: usize) -> (r: LineTailField)
    ensures
        r@ == hex_field(label, byte_start as int, byte_len as nat),
{
    LineTailField { label, byte_start, byte_len, is_hex: true }
}

/// The housekeeping fields of a frame, in order.
pub fn line_tail_fields() -> (r: Vec<LineTailField>)
    ensures
        field_views(r@) == line_tail_table(),
        r@.len() == 32,
        forall|k: int|
            0 <= k < 32 ==> (#[trigger] r@[k]).byte_start + r@[k].byte_len <= 256 && r@[k].byte_len
                >= 1,
{
    let fields = vec![
        dec("Galactic Electron Count", 186, 1),
        dec("Albedo Electron Count", 187, 1),
        dec("Galactic Ion Count", 188, 1),
        dec("Albedo Ion Count", 189, 1),
        dec("L1 Ion Threshold", 190, 2),
        dec("L1 Electron Threshold", 192, 2),
        dec("L2 Ion Particle", 194, 2),
        dec("L2 Electron Particle", 196, 2),
        dec("L3 Ion Particle", 198, 2),
        dec("L3 Electron Particle", 200, 2),
        dec("L4 Ion Particle", 202, 2),
        dec("L4 Electron Particle", 204, 2),
        dec("L5 Ion Particle", 206, 2),
        dec("L5 Electron Particle", 208, 2),
        dec("L6 Ion Particle", 210, 2),
        dec("L6 Electron Particle", 212, 2),
        dec("L7 Ion Particle", 214, 2),
        dec("L7 Electron Particle", 216, 2),
        dec("DSSD1 Temperature", 218, 2),
        dec("FEE1 Current", 220, 2),
        dec("FEE1 Temperature", 222, 2),
        dec("DSSD7 Temperature", 224, 2),
        dec("FEE2 Current", 226, 2),
        dec("FEE2 Temperature", 228, 2),
        dec("FEE1 Threshold", 230, 2),
        dec("FEE2 Threshold", 232, 2),
        dec("BGO1 Bias Voltage", 234, 2),
        dec("BGO2 Bias Voltage", 236, 2),
        dec("BGO3 Bias Voltage", 238, 2),
        dec("BGO2 Temperature", 240, 2),
        hex("Padding", 242, 12),
        hex("Checksum", 254, 2),
    ];
    proof {
        reveal(line_tail_table);
        assert(field_views(fields@) =~= line_tail_table());
        assert forall|k: int| 0 <= k < 32 implies (#[trigger] fields@[k]).byte_start
            + fields@[k].byte_len <= 256 && fields@[k].byte_len >= 1 by {
            assert(fields@[k]@ == line_tail_table()[k]);
        }
    }
    fields
}

/// The cell of one field of a line that is split into byte texts.
pub open spec fn token_cell(tokens: Seq<Seq<char>>, field: TailFieldView) -> TailView {
    if field.is_hex {
        TailView::Hex(span_text(tokens, field.start, field.len))
    } else if field.len == 1 {
        calibrated(field.label, byte_at(tokens, field.start))
    } else {
        calibrated(field.label, pair_at(tokens, field.start))
    }
}

/// The tail of a line that is split into byte texts.
pub open spec fn token_tail(tokens: Seq<Seq<char>>) -> Seq<TailView> {
    line_tail_table().map_values(|f: TailFieldView| token_cell(tokens, f))
}

/// Decodes the tail of a line that is split into byte texts. A missing byte
/// reads as 00.
pub fn parse_line_tail_fields(hex_data: &[String]) -> (r: Vec<TailCell>)
    ensures
        cell_views(r@) == token_tail(views(hex_data@)),
{
    let fields = line_tail_fields();
    let ghost tokens = views(hex_data@);
    let mut cells: Vec<TailCell> = Vec::new();
    for k in 0..fields.len()
        invariant
            fields@.len() == 32,
            tokens == views(hex_data@),
            field_views(fields@) == line_tail_table(),
            forall|j: int|
                0 <= j < 32 ==> (#[trigger] fields@[j]).byte_start + fields@[j].byte_len <= 256
                    && fields@[j].byte_len >= 1,
            cell_views(cells@) == token_tail(tokens).take(k as int),
    {
        let field = fields[k];
        assert(field@ == line_tail_table()[k as int]);
        let cell = if field.is_hex {
            TailCell::Hex(hex_span(hex_data, field.byte_start, field.byte_len))
        } else if field.byte_len == 1 {
            calibrated_value(field.label, byte(hex_data, field.byte_start))
        } else {
            calibrated_value(field.label, dec_pair(hex_data, field.byte_start))
        };
        proof {
            assert(cell@ == token_cell(tokens, line_tail_table()[k as int]));
            cell_views_push(cells@, cell);
            assert(token_tail(tokens).take(k + 1) == token_tail(tokens).take(k as int).push(cell@));
        }
        cells.push(cell);
    }
    assert(token_tail(tokens).take(32) == token_tail(tokens));
    cells
}

/// Byte `i` of a frame, 0 where the frame has no such byte.
pub open spec fn frame_byte(frame: Seq<u8>, i: int) -> u8 {
    if 0 <= i < frame.len() {
        frame[i]
    } else {
        0
    }
}

/// `len` bytes of a frame as text, two digits each.
pub open spec fn frame_text(frame: Seq<u8>, start: int, len: nat) -> Seq<char>
    decreases len,
{
    if len == 0 {
        Seq::empty()
    } else {
        frame_text(frame, start, (len - 1) as nat) + byte_text(frame_byte(frame, start + len - 1))
    }
}

/// The cell of one field of a frame.
pub open spec fn frame_cell(frame: Seq<u8>, field: TailFieldView) -> TailView {
    if field.is_hex {
        TailView::Hex(frame_text(frame, field.start, field.len))
    } else if field.len == 1 {
        calibrated(field.label, frame_byte(frame, field.start) as int)
    } else {
        calibrated(
            field.label,
            256 * frame_byte(frame, field.start) + frame_byte(frame, field.start + 1),
        )
    }
}

/// The tail of a frame.
pub open spec fn frame_tail(frame: Seq<u8>) -> Seq<TailView> {
    line_tail_table().map_values(|f: TailFieldView| frame_cell(frame, f))
}

fn get_frame_byte(frame: &[u8], i: usize) -> (r: u8)
    ensures
        r == frame_byte(frame@, i as int),
{
    if i < frame.len() {
        frame[i]
    } else {
        0
    }
}

fn frame_span(frame: &[u8], start: usize, len: usize) -> (r: String)
    requires
        start + len <= usize::MAX,
    ensures
        r@ == frame_text(frame@, start as int, len as nat),
{
    let mut out = String::new();
    for k in 0..len
        invariant
            start + len <= usize::MAX,
            out@ == frame_text(frame@, start as int, k as nat),
    {
        push_byte_text(&mut out, get_frame_byte(frame, start + k));
    }
    out
}

/// Decodes the tail of a frame. A missing byte reads as 00.
pub fn parse_line_tail_fields_from_bytes(frame: &[u8]) -> (r: Vec<TailCell>)
    ensures
        cell_views(r@) == frame_tail(frame@),
{
    let fields = line_tail_fields();
    let mut cells: Vec<TailCell> = Vec::new();
    for k in 0..fields.len()
        invariant
            fields@.len() == 32,
            field_views(fields@) == line_tail_table(),
            forall|j: int|
                0 <= j < 32 ==> (#[trigger] fields@[j]).byte_start + fields@[j].byte_len <= 256
                    && fields@[j].byte_len >= 1,
            cell_views(cells@) == frame_tail(frame@).take(k as int),
    {
        let field = fields[k];
        assert(field@ == line_tail_table()[k as int]);
        let cell = if field.is_hex {
            TailCell::Hex(frame_span(frame, field.byte_start, field.byte_len))
        } else if field.byte_len == 1 {
            calibrated_value(field.label, get_frame_byte(frame, field.byte_start) as i32)
        } else {
            let high: i32 = get_frame_byte(frame, field.byte_start) as i32;
            let low: i32 = get_frame_byte(frame, field.byte_start + 1) as i32;
            calibrated_value(field.label, high * 256 + low)
        };
        proof {
            assert(cell@ == frame_cell(frame@, line_tail_table()[k as int]));
            cell_views_push(cells@, cell);
            assert(frame_tail(frame@).take(k + 1) == frame_tail(frame@).take(k as int).push(cell@));
        }
        cells.push(cell);
    }
    assert(frame_tail(frame@).take(32) == frame_tail(frame@));
    cells
}

/// A frame and the line that writes its bytes have the same tail.
pub proof fn tails_agree(frame: Seq<u8>)
    ensures
        token_tail(frame.map_values(|b: u8| byte_text(b))) == frame_tail(frame),
{
    let tokens = frame.map_values(|b: u8| byte_text(b));
    assert(line_tail_table().len() == 32) by {
        reveal(line_tail_table);
    }
    assert forall|i: int| byte_at(tokens, i) == frame_byte(frame, i) by {
        if 0 <= i < frame.len() {
            crate::hex::byte_text_reads_back(frame[i]);
            crate::hex::byte_is_number(byte_text(frame[i]));
        }
    }
    assert forall|start: int, len: nat| span_text(tokens, start, len) == frame_text(frame, start, len) by {
        spans_agree(frame, start, len);
    }
    assert forall|k: int| 0 <= k < 32 implies token_tail(tokens)[k] == frame_tail(frame)[k] by {
        let field = line_tail_table()[k];
        assert(byte_at(tokens, field.start) == frame_byte(frame, field.start));
        assert(byte_at(tokens, field.start + 1) == frame_byte(frame, field.start + 1));
        assert(span_text(tokens, field.start, field.len) == frame_text(
            frame,
            field.start,
            field.len,
        ));
    }
}

proof fn spans_agree(frame: Seq<u8>, start: int, len: nat)
    ensures
        span_text(frame.map_values(|b: u8| byte_text(b)), start, len) == frame_text(
            frame,
            start,
            len,
        ),
    decreases len,
{
    reveal_strlit("00");
    assert("00"@ == byte_text(0));
    if len > 0 {
        spans_agree(frame, start, (len - 1) as nat);
    }
}

} // verus!
