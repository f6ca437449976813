//! The data table of calibration mode.

use crate::calibration::data_processor::{
    block_table, calibration_block_fields, calibration_line, calibration_tail_fields,
    calibration_tail_table, parse_calibration_line, CalibrationBlockField, CalibrationLineResult,
    CalibrationLineView, CalibrationTailField,
};
use crate::calibration::processing::{complete_steps, CalibrationAccumulator, CalibrationView};
use crate::clock::{padded, Millis, LAST_MILLIS};
use crate::columns::{
    byte_header, byte_title, header_cells, header_titles, join_i32_values, line_header_cells,
    line_header_titles, number_list, push_copies, push_text, MIN_COLUMN_WIDTH,
};
use crate::json_view::{
    deep, header_nodes, inner, line_header_nodes, node_views, num_or_str, number_or_text, push_deep,
    push_inner, push_top, top, JsonNode, JsonValue, JsonView,
};
use crate::line::{pairs_of, split_hex_data, synchronised, validate_header, HeaderView};
use crate::series::series_views;
use crate::text::{contains, decimal, has_part, int_text, starts_with, views};
use vstd::prelude::*;
use vstd::string::StringExecFns;

verus! {

/// One row of the data table.
#[derive(Debug, Clone)]
pub struct CalibrationRow {
    pub packet_sync: String,
    pub package_id: i32,
    pub packet_sequence: i32,
    pub packet_data_length: i32,
    pub time: Millis,
    pub data_type: String,
    pub sample_index: i32,
    pub blocks: Vec<Vec<i32>>,
    /// The housekeeping values as they are shown.
    pub tail: Vec<String>,
    pub reserved_hex: String,
    pub checksum_hex: String,
}

/// What a row says.
pub struct CalibrationRowView {
    pub header: HeaderView,
    pub time: int,
    pub sample_index: int,
    pub blocks: Seq<Seq<i32>>,
    pub tail: Seq<Seq<char>>,
    pub reserved: Seq<char>,
    pub checksum: Seq<char>,
}

impl View for CalibrationRow {
    type V = CalibrationRowView;

    open spec fn view(&self) -> CalibrationRowView {
        CalibrationRowView {
            header: HeaderView {
                packet_sync: self.packet_sync@,
                package_id: self.package_id as int,
                packet_sequence: self.packet_sequence as int,
                packet_data_length: self.packet_data_length as int,
                data_type: self.data_type@,
            },
            time: self.time as int,
            sample_index: self.sample_index as int,
            blocks: series_views(self.blocks@),
            tail: views(self.tail@),
            reserved: self.reserved_hex@,
            checksum: self.checksum_hex@,
        }
    }
}

impl CalibrationRow {
    /// The row of a decoded line whose housekeeping values are shown as `tail`.
    pub fn from_line(line: CalibrationLineResult, tail: Vec<String>) -> (r: CalibrationRow)
        ensures
            r@ == (CalibrationRowView {
                header: line@.header,
                time: line@.time,
                sample_index: line@.sample_index,
                blocks: line@.blocks,
                tail: views(tail@),
                reserved: line@.reserved,
                checksum: line@.checksum,
            }),
    {
        CalibrationRow {
            packet_sync: line.packet_sync,
            package_id: line.package_id,
            packet_sequence: line.packet_sequence,
            packet_data_length: line.packet_data_length,
            time: line.time,
            data_type: line.data_type,
            sample_index: line.sample_index,
            blocks: line.blocks,
            tail,
            reserved_hex: line.reserved_hex,
            checksum_hex: line.checksum_hex,
        }
    }
}

/// The titles of the data table.
pub open spec fn calibration_titles() -> Seq<Seq<char>> {
    header_titles().push("Sample Index (Byte 16-17)"@) + block_table().map_values(
        |f: (Seq<char>, int)| byte_title(f.0, f.1, f.1 + 31),
    ) + calibration_tail_table().map_values(
        |f: (Seq<char>, int)| byte_title(f.0, f.1, f.1 + 1),
    ) + seq!["Reserved (Byte 1446-2061)"@, "Checksum (Byte 2062-2063)"@]
}

fn push_block_titles(out: &mut Vec<String>)
    ensures
        views(final(out)@) == views(old(out)@) + block_table().map_values(
            |f: (Seq<char>, int)| byte_title(f.0, f.1, f.1 + 31),
        ),
{
    let fields = calibration_block_fields();
    let ghost start = views(out@);
    let ghost titles = block_table().map_values(
        |f: (Seq<char>, int)| byte_title(f.0, f.1, f.1 + 31),
    );
    assert(start + titles.take(0) =~= start);
    for k in 0..fields.len()
        invariant
            fields@.map_values(|f: CalibrationBlockField| f@) == block_table(),
            fields@.len() == 44,
            titles == block_table().map_values(
                |f: (Seq<char>, int)| byte_title(f.0, f.1, f.1 + 31),
            ),
            views(out@) == start + titles.take(k as int),
    {
        assert(fields@[k as int]@ == block_table()[k as int]);
        let title = byte_header(
            fields[k].label.as_str(),
            fields[k].byte_start,
            fields[k].byte_start + 31,
        );
        proof {
            assert(titles.take(k + 1) =~= titles.take(k as int).push(title@));
            assert(start + titles.take(k + 1) =~= (start + titles.take(k as int)).push(title@));
        }
        push_text(out, title);
    }
    assert(titles.take(44) =~= titles);
}

fn push_tail_titles(out: &mut Vec<String>)
    ensures
        views(final(out)@) == views(old(out)@) + calibration_tail_table().map_values(
            |f: (Seq<char>, int)| byte_title(f.0, f.1, f.1 + 1),
        ),
{
    let fields = calibration_tail_fields();
    let ghost start = views(out@);
    let ghost titles = calibration_tail_table().map_values(
        |f: (Seq<char>, int)| byte_title(f.0, f.1, f.1 + 1),
    );
    assert(start + titles.take(0) =~= start);
    for k in 0..fields.len()
        invariant
            fields@.map_values(|f: CalibrationTailField| f@) == calibration_tail_table(),
            fields@.len() == 10,
            forall|j: int| 0 <= j < 10 ==> (#[trigger] fields@[j]).byte_start < 2064,
            titles == calibration_tail_table().map_values(
                |f: (Seq<char>, int)| byte_title(f.0, f.1, f.1 + 1),
            ),
            views(out@) == start + titles.take(k as int),
    {
        assert(fields@[k as int]@ == calibration_tail_table()[k as int]);
        let title = byte_header(fields[k].label, fields[k].byte_start, fields[k].byte_start + 1);
        proof {
            assert(titles.take(k + 1) =~= titles.take(k as int).push(title@));
            assert(start + titles.take(k + 1) =~= (start + titles.take(k as int)).push(title@));
        }
        push_text(out, title);
    }
    assert(titles.take(10) =~= titles);
}

/// The titles of the data table, in the order of its columns.
pub fn calibration_table_headers() -> (r: Vec<String>)
    ensures
        views(r@) == calibration_titles(),
{
    let mut headers = line_header_titles();
    push_text(&mut headers, String::from_str("Sample Index (Byte 16-17)"));
    push_block_titles(&mut headers);
    push_tail_titles(&mut headers);
    push_text(&mut headers, String::from_str("Reserved (Byte 1446-2061)"));
    push_text(&mut headers, String::from_str("Checksum (Byte 2062-2063)"));
    assert(views(headers@) =~= calibration_titles());
    headers
}

/// The cells of a row, in the order of the columns.
pub open spec fn calibration_cells(row: CalibrationRowView) -> Seq<Seq<char>> {
    header_cells(row.header, row.time).push(int_text(row.sample_index)) + row.blocks.map_values(
        |b: Seq<i32>| number_list(b),
    ) + row.tail + seq![row.reserved, row.checksum]
}

fn push_blocks(out: &mut Vec<String>, blocks: &Vec<Vec<i32>>)
    ensures
        views(final(out)@) == views(old(out)@) + series_views(blocks@).map_values(
            |b: Seq<i32>| number_list(b),
        ),
{
    let ghost start = views(out@);
    let ghost texts = series_views(blocks@).map_values(|b: Seq<i32>| number_list(b));
    assert(start + texts.take(0) =~= start);
    for k in 0..blocks.len()
        invariant
            texts == series_views(blocks@).map_values(|b: Seq<i32>| number_list(b)),
            views(out@) == start + texts.take(k as int),
    {
        let text = join_i32_values(blocks[k].as_slice());
        proof {
            assert(series_views(blocks@)[k as int] == blocks@[k as int]@);
            assert(texts.take(k + 1) =~= texts.take(k as int).push(text@));
            assert(start + texts.take(k + 1) =~= (start + texts.take(k as int)).push(text@));
        }
        push_text(out, text);
    }
    assert(texts.take(texts.len() as int) =~= texts);
}

/// The cells of a row, in the order of the columns.
pub fn calibration_row_cells(row: &CalibrationRow) -> (r: Vec<String>)
    requires
        0 <= row.time <= LAST_MILLIS,
    ensures
        views(r@) == calibration_cells(row@),
{
    let mut cells = line_header_cells(
        &row.packet_sync,
        row.package_id,
        row.packet_sequence,
        row.packet_data_length,
        row.time,
        &row.data_type,
    );
    push_text(&mut cells, decimal(row.sample_index as i64));
    push_blocks(&mut cells, &row.blocks);
    push_copies(&mut cells, &row.tail);
    push_text(&mut cells, row.reserved_hex.clone());
    push_text(&mut cells, row.checksum_hex.clone());
    assert(views(cells@) =~= calibration_cells(row@));
    cells
}

/// A row of a decoded line has one cell under each title.
pub proof fn cells_match_titles(line: CalibrationLineView, tail: Seq<Seq<char>>, tokens: Seq<Seq<char>>)
    requires
        calibration_line(tokens) == Some(line),
        tail.len() == line.tail.len(),
    ensures
        calibration_cells(
            CalibrationRowView {
                header: line.header,
                time: line.time,
                sample_index: line.sample_index,
                blocks: line.blocks,
                tail,
                reserved: line.reserved,
                checksum: line.checksum,
            },
        ).len() == calibration_titles().len(),
        calibration_titles().len() == 63,
{
    reveal(calibration_tail_table);
}

/// The key of a voltage step: its number in two digits, and a "v".
pub open spec fn step_key(step: int) -> Seq<char> {
    padded(step as nat, 2) + "v"@
}

/// A block of a row, empty where the row has no such block.
pub open spec fn block_or_empty(blocks: Seq<Seq<i32>>, i: int) -> Seq<i32> {
    if 0 <= i < blocks.len() {
        blocks[i]
    } else {
        Seq::empty()
    }
}

/// The nodes of a voltage step: an object with the lists of its four layers.
pub open spec fn one_step(blocks: Seq<Seq<i32>>, step: int) -> Seq<(Seq<Seq<char>>, JsonView)> {
    let outer = "calibration_voltage_step"@;
    let key = step_key(step);
    seq![
        inner(outer, key, JsonView::Object),
        deep(outer, key, "l1"@, JsonView::Integers(block_or_empty(blocks, 4 * step))),
        deep(outer, key, "l2"@, JsonView::Integers(block_or_empty(blocks, 4 * step + 1))),
        deep(outer, key, "l6"@, JsonView::Integers(block_or_empty(blocks, 4 * step + 2))),
        deep(outer, key, "l7"@, JsonView::Integers(block_or_empty(blocks, 4 * step + 3))),
    ]
}

/// The nodes of the first `n` voltage steps.
pub open spec fn step_nodes(blocks: Seq<Seq<i32>>, n: nat) -> Seq<(Seq<Seq<char>>, JsonView)>
    decreases n,
{
    if n == 0 {
        Seq::empty()
    } else {
        step_nodes(blocks, (n - 1) as nat) + one_step(blocks, n - 1)
    }
}

/// The keys of the housekeeping values.
pub open spec fn calibration_tail_key(k: int) -> Seq<char> {
    if k == 0 { "dssd1_temperature"@ } else if k == 1 { "fee1_current"@ }
    else if k == 2 { "fee1_temperature"@ } else if k == 3 { "dssd7_temperature"@ }
    else if k == 4 { "fee2_current"@ } else if k == 5 { "fee2_temperature"@ }
    else if k == 6 { "fee1_threshold"@ } else if k == 7 { "fee2_threshold"@ }
    else if k == 8 { "dssd1_temperature_dup"@ } else { "dssd4_temperature"@ }
}

/// The nodes of the housekeeping values, ten at most.
pub open spec fn calibration_tail_nodes(tail: Seq<Seq<char>>) -> Seq<(Seq<Seq<char>>, JsonView)> {
    Seq::new(
        if tail.len() < 10 { tail.len() } else { 10 },
        |k: int| inner("tail"@, calibration_tail_key(k), number_or_text(tail[k])),
    )
}

/// The nodes of a row.
pub open spec fn calibration_nodes(row: CalibrationRowView) -> Seq<(Seq<Seq<char>>, JsonView)> {
    header_nodes(row.header, row.time) + seq![
        inner("header"@, "sample_index"@, JsonView::Integer(row.sample_index)),
        top("calibration_voltage_step"@, JsonView::Object),
    ] + step_nodes(row.blocks, 11) + seq![top("tail"@, JsonView::Object)] + calibration_tail_nodes(
        row.tail,
    ) + seq![
        top("reserved"@, JsonView::Text(row.reserved)),
        top("checksum"@, JsonView::Text(row.checksum)),
    ]
}

fn step_key_text(step: usize) -> (r: String)
    requires
        step < 11,
    ensures
        r@ == step_key(step as int),
{
    let digits = decimal(step as i64);
    let mut out = String::new();
    proof {
        reveal_with_fuel(crate::text::nat_text, 3);
    }
    if step < 10 {
        out.push('0');
    }
    out.append(digits.as_str());
    assert(out@ =~= padded(step as nat, 2));
    out.append("v");
    out
}

fn copied_block(blocks: &Vec<Vec<i32>>, i: usize) -> (r: Vec<i32>)
    ensures
        r@ == block_or_empty(series_views(blocks@), i as int),
{
    let mut copy: Vec<i32> = Vec::new();
    if i < blocks.len() {
        let block = &blocks[i];
        for k in 0..block.len()
            invariant
                copy@ == block@.take(k as int),
        {
            copy.push(block[k]);
        }
        assert(block@.take(block@.len() as int) =~= block@);
    }
    copy
}

fn push_step_nodes(nodes: &mut Vec<JsonNode>, blocks: &Vec<Vec<i32>>, step: usize)
    requires
        step < 11,
    ensures
        node_views(final(nodes)@) == node_views(old(nodes)@) + one_step(
            series_views(blocks@),
            step as int,
        ),
{
    let ghost start = node_views(nodes@);
    let key = step_key_text(step);
    push_inner(nodes, "calibration_voltage_step", key.as_str(), JsonValue::Object);
    push_deep(
        nodes,
        "calibration_voltage_step",
        key.as_str(),
        "l1",
        JsonValue::Integers(copied_block(blocks, 4 * step)),
    );
    push_deep(
        nodes,
        "calibration_voltage_step",
        key.as_str(),
        "l2",
        JsonValue::Integers(copied_block(blocks, 4 * step + 1)),
    );
    push_deep(
        nodes,
        "calibration_voltage_step",
        key.as_str(),
        "l6",
        JsonValue::Integers(copied_block(blocks, 4 * step + 2)),
    );
    push_deep(
        nodes,
        "calibration_voltage_step",
        key.as_str(),
        "l7",
        JsonValue::Integers(copied_block(blocks, 4 * step + 3)),
    );
    assert(node_views(nodes@) =~= start + one_step(series_views(blocks@), step as int));
}

fn tail_key_text(k: usize) -> (r: &'static str)
    ensures
        r@ == calibration_tail_key(k as int),
{
    match k {
        0 => "dssd1_temperature",
        1 => "fee1_current",
        2 => "fee1_temperature",
        3 => "dssd7_temperature",
        4 => "fee2_current",
        5 => "fee2_temperature",
        6 => "fee1_threshold",
        7 => "fee2_threshold",
        8 => "dssd1_temperature_dup",
        _ => "dssd4_temperature",
    }
}

/// The nodes of a row's JSON object, in the order in which they are written.
pub fn calibration_row_json(row: &CalibrationRow) -> (r: Vec<JsonNode>)
    requires
        0 <= row.time <= LAST_MILLIS,
    ensures
        node_views(r@) == calibration_nodes(row@),
{
    let mut nodes = line_header_nodes(
        &row.packet_sync,
        row.package_id,
        row.packet_sequence,
        row.packet_data_length,
        row.time,
        &row.data_type,
    );
    push_inner(&mut nodes, "header", "sample_index", JsonValue::Integer(row.sample_index as i64));
    push_top(&mut nodes, "calibration_voltage_step", JsonValue::Object);
    let ghost head = node_views(nodes@);
    let ghost blocks = series_views(row.blocks@);
    assert(head + step_nodes(blocks, 0) =~= head);
    for step in 0..11usize
        invariant
            blocks == series_views(row.blocks@),
            node_views(nodes@) == head + step_nodes(blocks, step as nat),
    {
        push_step_nodes(&mut nodes, &row.blocks, step);
        assert(node_views(nodes@) =~= head + step_nodes(blocks, (step + 1) as nat));
    }
    push_top(&mut nodes, "tail", JsonValue::Object);
    let ghost before_tail = node_views(nodes@);
    let ghost tail_nodes = calibration_tail_nodes(views(row.tail@));
    let count: usize = if row.tail.len() < 10 { row.tail.len() } else { 10 };
    assert(before_tail + tail_nodes.take(0) =~= before_tail);
    for k in 0..count
        invariant
            count == tail_nodes.len(),
            count <= row.tail@.len(),
            tail_nodes == calibration_tail_nodes(views(row.tail@)),
            node_views(nodes@) == before_tail + tail_nodes.take(k as int),
    {
        push_inner(&mut nodes, "tail", tail_key_text(k), num_or_str(row.tail[k].as_str()));
        proof {
            assert(tail_nodes.take(k + 1) =~= tail_nodes.take(k as int).push(tail_nodes[k as int]));
            assert(before_tail + tail_nodes.take(k + 1) =~= (before_tail + tail_nodes.take(
                k as int,
            )).push(tail_nodes[k as int]));
        }
    }
    assert(tail_nodes.take(count as int) =~= tail_nodes);
    push_top(&mut nodes, "reserved", JsonValue::Text(row.reserved_hex.clone()));
    push_top(&mut nodes, "checksum", JsonValue::Text(row.checksum_hex.clone()));
    assert(node_views(nodes@) =~= calibration_nodes(row@));
    nodes
}

/// What reading the segments of the input files gives.
#[derive(Debug, Clone)]
pub struct CalibrationReading {
    /// A segment has been read.
    pub started: bool,
    /// The first segment begins with the synchronisation code.
    pub first_valid: bool,
    pub accumulator: CalibrationAccumulator,
    /// The lines that could be decoded, in order.
    pub lines: Vec<CalibrationLineResult>,
}

/// The channel values that segments add up to.
pub open spec fn accumulated(segments: Seq<Seq<char>>) -> CalibrationView
    decreases segments.len(),
{
    if segments.len() == 0 {
        CalibrationView::empty()
    } else {
        accumulated(segments.drop_last()).add_steps(
            pairs_of(segments.last()),
            complete_steps(pairs_of(segments.last()).len() as int),
        )
    }
}

/// The lines among segments that can be decoded.
pub open spec fn decoded_lines(segments: Seq<Seq<char>>) -> Seq<CalibrationLineView>
    decreases segments.len(),
{
    if segments.len() == 0 {
        Seq::empty()
    } else {
        match calibration_line(pairs_of(segments.last())) {
            Some(line) => decoded_lines(segments.drop_last()).push(line),
            None => decoded_lines(segments.drop_last()),
        }
    }
}

/// What decoded lines say.
pub open spec fn line_views(lines: Seq<CalibrationLineResult>) -> Seq<CalibrationLineView> {
    lines.map_values(|l: CalibrationLineResult| l@)
}

impl CalibrationReading {
    /// Nothing read yet, with room for `total` segments.
    pub fn start(total: usize) -> (r: CalibrationReading)
        ensures
            !r.started,
            !r.first_valid,
            r.accumulator@ == CalibrationView::empty(),
            r.accumulator@.wf(),
            r.lines@.len() == 0,
    {
        let mut accumulator = CalibrationAccumulator::default();
        if total > 0 && total <= 0x100_0000 {
            accumulator.reset(total);
        }
        CalibrationReading { started: false, first_valid: false, accumulator, lines: Vec::new() }
    }

    /// Reads the next segment.
    pub fn read(&mut self, segment: &str)
        requires
            old(self).accumulator@.wf(),
        ensures
            final(self).started,
            final(self).first_valid == (if old(self).started {
                old(self).first_valid
            } else {
                synchronised(pairs_of(segment@))
            }),
            final(self).accumulator@ == old(self).accumulator@.add_steps(
                pairs_of(segment@),
                complete_steps(pairs_of(segment@).len() as int),
            ),
            final(self).accumulator@.wf(),
            line_views(final(self).lines@) == (match calibration_line(pairs_of(segment@)) {
                Some(line) => line_views(old(self).lines@).push(line),
                None => line_views(old(self).lines@),
            }),
    {
        let hex_data = split_hex_data(segment);
        assert(pairs_of(segment@).len() == hex_data@.len()) by {
            assert(views(hex_data@).len() == hex_data@.len());
        }
        if !self.started {
            self.first_valid = validate_header(hex_data.as_slice());
            self.started = true;
        }
        self.accumulator.process_calibration(hex_data.as_slice());
        match parse_calibration_line(hex_data.as_slice()) {
            Some(line) => {
                assert(line_views(self.lines@.push(line)) =~= line_views(self.lines@).push(line@));
                self.lines.push(line);
            },
            None => {},
        }
    }
}

/// Reads the segments of the input files.
pub fn read_segments(segments: &[String]) -> (r: CalibrationReading)
    ensures
        r.first_valid == (segments@.len() > 0 && synchronised(pairs_of(segments@[0]@))),
        r.accumulator@ == accumulated(views(segments@)),
        r.accumulator@.wf(),
        line_views(r.lines@) == decoded_lines(views(segments@)),
{
    let ghost all = views(segments@);
    let mut reading = CalibrationReading::start(segments.len());
    assert(all.take(0) =~= Seq::<Seq<char>>::empty());
    assert(line_views(reading.lines@) =~= Seq::<CalibrationLineView>::empty());
    for i in 0..segments.len()
        invariant
            all == views(segments@),
            reading.started == (i > 0),
            reading.accumulator@.wf(),
            reading.accumulator@ == accumulated(all.take(i as int)),
            line_views(reading.lines@) == decoded_lines(all.take(i as int)),
            reading.first_valid == (i > 0 && synchronised(pairs_of(segments@[0]@))),
    {
        proof {
            assert(all.take(i + 1).drop_last() =~= all.take(i as int));
            assert(all.take(i + 1).last() == segments@[i as int]@);
        }
        reading.read(segments[i].as_str());
    }
    assert(all.take(all.len() as int) =~= all);
    reading
}

/// The outcome of the header check of the first segment.
pub fn first_segment_text(valid: bool) -> (r: &'static str)
    ensures
        r@ == (if valid {
            "Checksum OK"@
        } else {
            "Checksum Mismatch"@
        }),
{
    if valid {
        "Checksum OK"
    } else {
        "Checksum Mismatch"
    }
}

/// The least width of a column of the data table, in points: more for the lists
/// of channel values and for the reserved bytes.
pub fn min_column_width(title: &str) -> (r: u32)
    ensures
        r == (if has_part(title@, "V L"@) {
            260u32
        } else if "Reserved"@.is_prefix_of(title@) {
            900u32
        } else {
            60u32
        }),
{
    if contains(title, "V L") {
        260
    } else if starts_with(title, "Reserved") {
        900
    } else {
        MIN_COLUMN_WIDTH
    }
}

} // verus!
