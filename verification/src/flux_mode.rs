//! The data table and the reading of flux mode.

use crate::clock::{padded, Millis, LAST_MILLIS};
use crate::columns::{
    byte_header, byte_title, header_cells, header_titles, line_header_cells, line_header_titles,
    number_list, join_i32_values, push_copies, push_text, MIN_COLUMN_WIDTH,
};
use crate::decimal::{decimal_number, parse_decimal};
use crate::flux::data_processor::{
    flux_line, flux_tail_fields, flux_tail_table, parse_flux_line, slots_of, FluxLineResult,
    FluxLineView, FluxTailField,
};
use crate::flux::processing::{
    flux_packet, get_date_time_from_hex, packet_report, process_header_internal, text_time,
    FluxAccumulator, HeaderParseResult, HeaderParseView,
};
use crate::json_view::{
    header_nodes, inner, line_header_nodes, node_views, num_or_str, number_or_text, push_inner,
    push_top, top, JsonNode, JsonValue, JsonView,
};
use crate::line::{pair_at, pairs_of, split_hex_data, HeaderView};
use crate::models::flux::FluxView;
use crate::text::{chars_of, decimal, int_text, natural, starts_with, views};
use vstd::prelude::*;
use vstd::string::StringExecFns;
use vstd::utf8::encode_utf8;

verus! {

/// Layers with a plot.
pub const LAYER_COUNT: usize = 7;

/// One row of the data table.
#[derive(Debug, Clone)]
pub struct FluxRow {
    pub packet_sync: String,
    pub package_id: i32,
    pub packet_sequence: i32,
    pub packet_data_length: i32,
    pub time: Millis,
    pub data_type: String,
    pub particle_time: i32,
    /// Particle counts of L1 to L7.
    pub particle_counts: Vec<i32>,
    /// The particle slots.
    pub particle_info: Vec<i32>,
    /// The housekeeping values as they are shown.
    pub tail: Vec<String>,
    pub reserved_hex: String,
    pub checksum_hex: String,
}

/// What a row says.
pub struct FluxRowView {
    pub header: HeaderView,
    pub time: int,
    pub particle_time: int,
    pub particle_counts: Seq<i32>,
    pub particle_info: Seq<i32>,
    pub tail: Seq<Seq<char>>,
    pub reserved: Seq<char>,
    pub checksum: Seq<char>,
}

impl View for FluxRow {
    type V = FluxRowView;

    open spec fn view(&self) -> FluxRowView {
        FluxRowView {
            header: HeaderView {
                packet_sync: self.packet_sync@,
                package_id: self.package_id as int,
                packet_sequence: self.packet_sequence as int,
                packet_data_length: self.packet_data_length as int,
                data_type: self.data_type@,
            },
            time: self.time as int,
            particle_time: self.particle_time as int,
            particle_counts: self.particle_counts@,
            particle_info: self.particle_info@,
            tail: views(self.tail@),
            reserved: self.reserved_hex@,
            checksum: self.checksum_hex@,
        }
    }
}

/// The number that a slot's text writes, 0 where it writes none that fits.
pub open spec fn slot_number(text: Seq<char>) -> i32 {
    match decimal_number(text) {
        Some(n) => if i32::MIN <= n <= i32::MAX {
            n as i32
        } else {
            0
        },
        None => 0,
    }
}

/// The numbers of the slots.
pub open spec fn slot_numbers(texts: Seq<Seq<char>>) -> Seq<i32> {
    texts.map_values(|t: Seq<char>| slot_number(t))
}

fn read_slots(texts: &Vec<String>) -> (r: Vec<i32>)
    ensures
        r@ == slot_numbers(views(texts@)),
{
    let ghost all = slot_numbers(views(texts@));
    let mut numbers: Vec<i32> = Vec::new();
    for i in 0..texts.len()
        invariant
            all == slot_numbers(views(texts@)),
            numbers@ == all.take(i as int),
    {
        let number: i32 = match parse_decimal(chars_of(texts[i].as_str()).as_slice()) {
            Some(n) => if -0x8000_0000 <= n && n <= 0x7FFF_FFFF {
                n as i32
            } else {
                0
            },
            None => 0,
        };
        proof {
            assert(views(texts@)[i as int] == texts@[i as int]@);
            assert(all.take(i + 1) =~= all.take(i as int).push(number));
        }
        numbers.push(number);
    }
    assert(all.take(all.len() as int) =~= all);
    numbers
}

/// The slots of a decoded line are the numbers of its bytes.
pub proof fn slots_read_back(tokens: Seq<Seq<char>>)
    ensures
        slot_numbers(slots_of(tokens)) == Seq::new(
            1000,
            |i: int| pair_at(tokens, 32 + 2 * i) as i32,
        ),
{
    assert forall|i: int| 0 <= i < 1000 implies #[trigger] slot_numbers(slots_of(tokens))[i]
        == pair_at(tokens, 32 + 2 * i) as i32 by {
        crate::decimal::decimal_reads_back(pair_at(tokens, 32 + 2 * i));
    }
    assert(slot_numbers(slots_of(tokens)) =~= Seq::new(
        1000,
        |i: int| pair_at(tokens, 32 + 2 * i) as i32,
    ));
}

impl FluxRow {
    /// The row of a decoded line whose housekeeping values are shown as `tail`.
    pub fn from_line(line: FluxLineResult, tail: Vec<String>) -> (r: FluxRow)
        ensures
            r@ == (FluxRowView {
                header: line@.header,
                time: line@.time,
                particle_time: line@.particle_time,
                particle_counts: line@.particle_counts,
                particle_info: slot_numbers(line@.particle_info),
                tail: views(tail@),
                reserved: line@.reserved,
                checksum: line@.checksum,
            }),
    {
        let particle_info = read_slots(&line.particle_info);
        FluxRow {
            packet_sync: line.packet_sync,
            package_id: line.package_id,
            packet_sequence: line.packet_sequence,
            packet_data_length: line.packet_data_length,
            time: line.time,
            data_type: line.data_type,
            particle_time: line.particle_time,
            particle_counts: line.particle_counts,
            particle_info,
            tail,
            reserved_hex: line.reserved_hex,
            checksum_hex: line.checksum_hex,
        }
    }
}

/// The titles of the columns with the particle counts.
pub open spec fn count_titles() -> Seq<Seq<char>> {
    Seq::new(
        7,
        |i: int| byte_title("Particle Counts L"@ + int_text(i + 1), 18 + 2 * i, 19 + 2 * i),
    )
}

/// The titles of the data table.
pub open spec fn flux_titles() -> Seq<Seq<char>> {
    header_titles().push("Particle Time (Byte 16-17)"@) + count_titles() + seq![
        "Particle Info (Byte 32-2031)"@,
    ] + flux_tail_table().map_values(|f: (Seq<char>, int)| byte_title(f.0, f.1, f.1 + 1)) + seq![
        "Reserved (Byte 2056-2061)"@,
        "Checksum (Byte 2062-2063)"@,
    ]
}

fn push_count_titles(out: &mut Vec<String>)
    ensures
        views(final(out)@) == views(old(out)@) + count_titles(),
{
    let ghost start = views(out@);
    assert(start + count_titles().take(0) =~= start);
    for i in 0..7usize
        invariant
            views(out@) == start + count_titles().take(i as int),
    {
        let mut label = String::from_str("Particle Counts L");
        label.append(decimal(i as i64 + 1).as_str());
        let title = byte_header(label.as_str(), 18 + 2 * i, 19 + 2 * i);
        proof {
            assert(title@ == count_titles()[i as int]);
            assert(start + count_titles().take(i + 1) =~= (start + count_titles().take(
                i as int,
            )).push(title@));
        }
        push_text(out, title);
    }
    assert(count_titles().take(7) =~= count_titles());
}

fn push_tail_titles(out: &mut Vec<String>)
    ensures
        views(final(out)@) == views(old(out)@) + flux_tail_table().map_values(
            |f: (Seq<char>, int)| byte_title(f.0, f.1, f.1 + 1),
        ),
{
    let fields = flux_tail_fields();
    let ghost start = views(out@);
    let ghost titles = flux_tail_table().map_values(
        |f: (Seq<char>, int)| byte_title(f.0, f.1, f.1 + 1),
    );
    assert(start + titles.take(0) =~= start);
    for k in 0..fields.len()
        invariant
            fields@.map_values(|f: FluxTailField| f@) == flux_tail_table(),
            fields@.len() == 12,
            forall|j: int| 0 <= j < 12 ==> (#[trigger] fields@[j]).byte_start < 2064,
            titles == flux_tail_table().map_values(
                |f: (Seq<char>, int)| byte_title(f.0, f.1, f.1 + 1),
            ),
            views(out@) == start + titles.take(k as int),
    {
        assert(fields@[k as int]@ == flux_tail_table()[k as int]);
        let title = byte_header(fields[k].label, fields[k].byte_start, fields[k].byte_start + 1);
        proof {
            assert(titles.take(k + 1) =~= titles.take(k as int).push(title@));
            assert(start + titles.take(k + 1) =~= (start + titles.take(k as int)).push(title@));
        }
        push_text(out, title);
    }
    assert(titles.take(12) =~= titles);
}

/// The titles of the data table, in the order of its columns.
pub fn flux_table_headers() -> (r: Vec<String>)
    ensures
        views(r@) == flux_titles(),
{
    let mut headers = line_header_titles();
    push_text(&mut headers, String::from_str("Particle Time (Byte 16-17)"));
    push_count_titles(&mut headers);
    push_text(&mut headers, String::from_str("Particle Info (Byte 32-2031)"));
    push_tail_titles(&mut headers);
    push_text(&mut headers, String::from_str("Reserved (Byte 2056-2061)"));
    push_text(&mut headers, String::from_str("Checksum (Byte 2062-2063)"));
    assert(views(headers@) =~= flux_titles());
    headers
}

/// The cells of a row, in the order of the columns.
pub open spec fn flux_cells(row: FluxRowView) -> Seq<Seq<char>> {
    header_cells(row.header, row.time).push(int_text(row.particle_time))
        + row.particle_counts.map_values(|c: i32| int_text(c as int)) + seq![
        number_list(row.particle_info),
    ] + row.tail + seq![row.reserved, row.checksum]
}

fn push_numbers(out: &mut Vec<String>, values: &Vec<i32>)
    ensures
        views(final(out)@) == views(old(out)@) + values@.map_values(|c: i32| int_text(c as int)),
{
    let ghost start = views(out@);
    let ghost texts = values@.map_values(|c: i32| int_text(c as int));
    assert(start + texts.take(0) =~= start);
    for i in 0..values.len()
        invariant
            texts == values@.map_values(|c: i32| int_text(c as int)),
            views(out@) == start + texts.take(i as int),
    {
        let text = decimal(values[i] as i64);
        proof {
            assert(start + texts.take(i + 1) =~= (start + texts.take(i as int)).push(text@));
        }
        push_text(out, text);
    }
    assert(texts.take(texts.len() as int) =~= texts);
}

/// The cells of a row, in the order of the columns.
pub fn flux_row_cells(row: &FluxRow) -> (r: Vec<String>)
    requires
        0 <= row.time <= LAST_MILLIS,
    ensures
        views(r@) == flux_cells(row@),
{
    let mut cells = line_header_cells(
        &row.packet_sync,
        row.package_id,
        row.packet_sequence,
        row.packet_data_length,
        row.time,
        &row.data_type,
    );
    push_text(&mut cells, decimal(row.particle_time as i64));
    push_numbers(&mut cells, &row.particle_counts);
    push_text(&mut cells, join_i32_values(row.particle_info.as_slice()));
    push_copies(&mut cells, &row.tail);
    push_text(&mut cells, row.reserved_hex.clone());
    push_text(&mut cells, row.checksum_hex.clone());
    assert(views(cells@) =~= flux_cells(row@));
    cells
}

/// A row of a decoded line has one cell under each title.
pub proof fn cells_match_titles(line: FluxLineView, tail: Seq<Seq<char>>, tokens: Seq<Seq<char>>)
    requires
        flux_line(tokens) == Some(line),
        tail.len() == line.tail.len(),
    ensures
        flux_cells(
            FluxRowView {
                header: line.header,
                time: line.time,
                particle_time: line.particle_time,
                particle_counts: line.particle_counts,
                particle_info: slot_numbers(line.particle_info),
                tail,
                reserved: line.reserved,
                checksum: line.checksum,
            },
        ).len() == flux_titles().len(),
        flux_titles().len() == 29,
{
    reveal(flux_tail_table);
}

/// The keys of the housekeeping values.
pub open spec fn flux_tail_key(k: int) -> Seq<char> {
    if k == 0 { "dssd_1_temperature"@ } else if k == 1 { "fee1_current"@ }
    else if k == 2 { "fee1_temperature"@ } else if k == 3 { "dssd_7_temperature"@ }
    else if k == 4 { "fee2_current"@ } else if k == 5 { "fee2_temperature"@ }
    else if k == 6 { "fee1_threshold"@ } else if k == 7 { "fee2_threshold"@ }
    else if k == 8 { "bgo1_bias_voltage"@ } else if k == 9 { "bgo2_bias_voltage"@ }
    else if k == 10 { "bgo3_bias_voltage"@ } else { "bgo2_temperature"@ }
}

fn tail_key_text(k: usize) -> (r: &'static str)
    ensures
        r@ == flux_tail_key(k as int),
{
    match k {
        0 => "dssd_1_temperature",
        1 => "fee1_current",
        2 => "fee1_temperature",
        3 => "dssd_7_temperature",
        4 => "fee2_current",
        5 => "fee2_temperature",
        6 => "fee1_threshold",
        7 => "fee2_threshold",
        8 => "bgo1_bias_voltage",
        9 => "bgo2_bias_voltage",
        10 => "bgo3_bias_voltage",
        _ => "bgo2_temperature",
    }
}

/// The nodes of the particle counts.
pub open spec fn count_nodes(counts: Seq<i32>) -> Seq<(Seq<Seq<char>>, JsonView)> {
    Seq::new(
        counts.len(),
        |i: int| top("particle_counts_l"@ + int_text(i + 1), JsonView::Integer(counts[i] as int)),
    )
}

/// The nodes of the housekeeping values, twelve at most.
pub open spec fn flux_tail_nodes(tail: Seq<Seq<char>>) -> Seq<(Seq<Seq<char>>, JsonView)> {
    Seq::new(
        if tail.len() < 12 { tail.len() } else { 12 },
        |k: int| inner("tail"@, flux_tail_key(k), number_or_text(tail[k])),
    )
}

/// The nodes of a row.
pub open spec fn flux_nodes(row: FluxRowView) -> Seq<(Seq<Seq<char>>, JsonView)> {
    header_nodes(row.header, row.time) + seq![
        inner("header"@, "particle_time"@, JsonView::Integer(row.particle_time)),
    ] + count_nodes(row.particle_counts) + seq![
        top("particle_info"@, JsonView::Integers(row.particle_info)),
        top("tail"@, JsonView::Object),
    ] + flux_tail_nodes(row.tail) + seq![
        top("reserved"@, JsonView::Text(row.reserved)),
        top("checksum"@, JsonView::Text(row.checksum)),
    ]
}

fn copied(values: &Vec<i32>) -> (r: Vec<i32>)
    ensures
        r@ == values@,
{
    let mut copy: Vec<i32> = Vec::new();
    for k in 0..values.len()
        invariant
            copy@ == values@.take(k as int),
    {
        copy.push(values[k]);
    }
    assert(values@.take(values@.len() as int) =~= values@);
    copy
}

fn push_count_nodes(nodes: &mut Vec<JsonNode>, counts: &Vec<i32>)
    ensures
        node_views(final(nodes)@) == node_views(old(nodes)@) + count_nodes(counts@),
{
    let ghost start = node_views(nodes@);
    let ghost whole = count_nodes(counts@);
    assert(start + whole.take(0) =~= start);
    for i in 0..counts.len()
        invariant
            whole == count_nodes(counts@),
            node_views(nodes@) == start + whole.take(i as int),
    {
        let mut key = String::from_str("particle_counts_l");
        key.append(natural(i as u64 + 1).as_str());
        push_top(nodes, key.as_str(), JsonValue::Integer(counts[i] as i64));
        proof {
            assert(start + whole.take(i + 1) =~= (start + whole.take(i as int)).push(
                whole[i as int],
            ));
        }
    }
    assert(whole.take(whole.len() as int) =~= whole);
}

fn push_tail_nodes(nodes: &mut Vec<JsonNode>, tail: &Vec<String>)
    ensures
        node_views(final(nodes)@) == node_views(old(nodes)@) + flux_tail_nodes(views(tail@)),
{
    let ghost start = node_views(nodes@);
    let ghost whole = flux_tail_nodes(views(tail@));
    let count: usize = if tail.len() < 12 { tail.len() } else { 12 };
    assert(start + whole.take(0) =~= start);
    for k in 0..count
        invariant
            count == whole.len(),
            count <= tail@.len(),
            whole == flux_tail_nodes(views(tail@)),
            node_views(nodes@) == start + whole.take(k as int),
    {
        push_inner(nodes, "tail", tail_key_text(k), num_or_str(tail[k].as_str()));
        proof {
            assert(start + whole.take(k + 1) =~= (start + whole.take(k as int)).push(
                whole[k as int],
            ));
        }
    }
    assert(whole.take(count as int) =~= whole);
}

/// The nodes of a row's JSON object, in the order in which they are written.
pub fn flux_row_json(row: &FluxRow) -> (r: Vec<JsonNode>)
    requires
        0 <= row.time <= LAST_MILLIS,
    ensures
        node_views(r@) == flux_nodes(row@),
{
    let mut nodes = line_header_nodes(
        &row.packet_sync,
        row.package_id,
        row.packet_sequence,
        row.packet_data_length,
        row.time,
        &row.data_type,
    );
    push_inner(&mut nodes, "header", "particle_time", JsonValue::Integer(row.particle_time as i64));
    push_count_nodes(&mut nodes, &row.particle_counts);
    push_top(&mut nodes, "particle_info", JsonValue::Integers(copied(&row.particle_info)));
    push_top(&mut nodes, "tail", JsonValue::Object);
    push_tail_nodes(&mut nodes, &row.tail);
    push_top(&mut nodes, "reserved", JsonValue::Text(row.reserved_hex.clone()));
    push_top(&mut nodes, "checksum", JsonValue::Text(row.checksum_hex.clone()));
    assert(node_views(nodes@) =~= flux_nodes(row@));
    nodes
}

/// The report on a packet header, with the test condition.
pub open spec fn header_info(h: HeaderParseView, delay_time: int, threshold: int) -> Seq<char> {
    h.packet_sync + "\n"@ + h.package_id + "\n"@ + h.packet_seq + "\n"@ + h.packet_data_len + "\n"@
        + h.timestamp + "\n"@ + h.data_type + "\n"@ + h.check_sum_hex + "\n"@ + (
    if h.checksum_matches {
        "Checksum matches!"@
    } else {
        "Checksum does not match."@
    }) + "\nTest condition:\nDelay Time: "@ + int_text(delay_time) + "\nThreshold: "@ + int_text(
        threshold,
    )
}

/// The report on a packet header, with the test condition.
pub fn header_info_text(h: &HeaderParseResult, delay_time: i32, threshold: i32) -> (r: String)
    ensures
        r@ == header_info(h@, delay_time as int, threshold as int),
{
    let mut out = h.packet_sync.clone();
    out.append("\n");
    out.append(h.package_id.as_str());
    out.append("\n");
    out.append(h.packet_seq.as_str());
    out.append("\n");
    out.append(h.packet_data_len.as_str());
    out.append("\n");
    out.append(h.timestamp.as_str());
    out.append("\n");
    out.append(h.data_type.as_str());
    out.append("\n");
    out.append(h.check_sum_hex.as_str());
    out.append("\n");
    out.append(
        if h.checksum_matches {
            "Checksum matches!"
        } else {
            "Checksum does not match."
        },
    );
    out.append("\nTest condition:\nDelay Time: ");
    out.append(decimal(delay_time as i64).as_str());
    out.append("\nThreshold: ");
    out.append(decimal(threshold as i64).as_str());
    out
}

/// The time from one instant to another, in seconds with three decimals.
pub open spec fn duration(start: int, stop: int) -> Seq<char> {
    let millis = if stop < start { start - stop } else { stop - start };
    (if stop < start { "-"@ } else { ""@ }) + int_text(millis / 1000) + "."@ + padded(
        (millis % 1000) as nat,
        3,
    ) + " seconds"@
}

fn three_digits(n: i64) -> (r: String)
    requires
        0 <= n < 1000,
    ensures
        r@ == padded(n as nat, 3),
{
    proof {
        reveal_with_fuel(crate::text::nat_text, 4);
    }
    let mut out = String::new();
    if n < 100 {
        out.push('0');
    }
    if n < 10 {
        out.push('0');
    }
    out.append(decimal(n).as_str());
    assert(out@ =~= padded(n as nat, 3));
    out
}

/// The time from one instant to another, in seconds with three decimals.
pub fn duration_text(start: Millis, stop: Millis) -> (r: String)
    requires
        0 <= start <= LAST_MILLIS,
        0 <= stop <= LAST_MILLIS,
    ensures
        r@ == duration(start as int, stop as int),
{
    let millis: i64 = if stop < start { start - stop } else { stop - start };
    let mut out = String::from_str(if stop < start { "-" } else { "" });
    out.append(decimal(millis / 1000).as_str());
    out.append(".");
    out.append(three_digits(millis % 1000).as_str());
    out.append(" seconds");
    out
}

/// What reading the segments of the input files gives.
#[derive(Debug, Clone)]
pub struct FluxReading {
    pub accumulator: FluxAccumulator,
    /// The lines that could be decoded, in order.
    pub lines: Vec<FluxLineResult>,
    /// The instants of the first and of the last segment.
    pub start: Option<Millis>,
    pub stop: Option<Millis>,
    /// The report on the header of the last segment.
    pub header: Option<HeaderParseResult>,
}

/// The packets among segments.
pub open spec fn packets_of(segments: Seq<Seq<char>>) -> Seq<FluxView>
    decreases segments.len(),
{
    if segments.len() == 0 {
        Seq::empty()
    } else {
        match flux_packet(encode_utf8(segments.last())) {
            Some(packet) => packets_of(segments.drop_last()).push(packet),
            None => packets_of(segments.drop_last()),
        }
    }
}

/// The lines among segments that can be decoded.
pub open spec fn decoded_lines(segments: Seq<Seq<char>>) -> Seq<FluxLineView>
    decreases segments.len(),
{
    if segments.len() == 0 {
        Seq::empty()
    } else {
        match flux_line(pairs_of(segments.last())) {
            Some(line) => decoded_lines(segments.drop_last()).push(line),
            None => decoded_lines(segments.drop_last()),
        }
    }
}

/// What decoded lines say.
pub open spec fn line_views(lines: Seq<FluxLineResult>) -> Seq<FluxLineView> {
    lines.map_values(|l: FluxLineResult| l@)
}

impl FluxReading {
    /// Nothing read yet.
    pub fn start() -> (r: FluxReading)
        ensures
            r.accumulator.wf(),
            r.accumulator@ == Seq::<FluxView>::empty(),
            r.lines@.len() == 0,
            r.start is None && r.stop is None && r.header is None,
    {
        FluxReading {
            accumulator: FluxAccumulator::default(),
            lines: Vec::new(),
            start: None,
            stop: None,
            header: None,
        }
    }

    /// Reads the next segment. The instant of the first segment stays, those of
    /// the last one and the report on its header follow.
    pub fn read(&mut self, segment: &str)
        requires
            old(self).accumulator.wf(),
        ensures
            final(self).accumulator.wf(),
            final(self).accumulator@ == (match flux_packet(encode_utf8(segment@)) {
                Some(packet) => old(self).accumulator@.push(packet),
                None => old(self).accumulator@,
            }),
            line_views(final(self).lines@) == (match flux_line(pairs_of(segment@)) {
                Some(line) => line_views(old(self).lines@).push(line),
                None => line_views(old(self).lines@),
            }),
            final(self).start == (match old(self).start {
                Some(start) => Some(start),
                None => Some(text_time(encode_utf8(segment@)) as i64),
            }),
            final(self).stop == Some(text_time(encode_utf8(segment@)) as i64),
            match final(self).header {
                Some(h) => packet_report(pairs_of(segment@)) == Some(h@),
                None => packet_report(pairs_of(segment@)) is None,
            },
    {
        let time: i64 = get_date_time_from_hex(segment);
        match self.start {
            Some(_) => {},
            None => {
                self.start = Some(time);
            },
        }
        self.stop = Some(time);
        let _added = self.accumulator.process_flux_observation(segment);
        let hex_data = split_hex_data(segment);
        match parse_flux_line(hex_data.as_slice()) {
            Some(line) => {
                assert(line_views(self.lines@.push(line)) =~= line_views(self.lines@).push(line@));
                self.lines.push(line);
            },
            None => {},
        }
        self.header = process_header_internal(hex_data.as_slice());
    }
}

/// Reads the segments of the input files.
#[verifier::spinoff_prover]
#[verifier::rlimit(60)]
pub fn read_segments(segments: &[String]) -> (r: FluxReading)
    ensures
        r.accumulator.wf(),
        r.accumulator@ == packets_of(views(segments@)),
        line_views(r.lines@) == decoded_lines(views(segments@)),
        segments@.len() == 0 ==> r.start is None && r.stop is None && r.header is None,
        segments@.len() > 0 ==> {
            &&& r.start == Some(text_time(encode_utf8(segments@[0]@)) as i64)
            &&& r.stop == Some(text_time(encode_utf8(segments@.last()@)) as i64)
            &&& match r.header {
                Some(h) => packet_report(pairs_of(segments@.last()@)) == Some(h@),
                None => packet_report(pairs_of(segments@.last()@)) is None,
            }
        },
{
    let ghost all = views(segments@);
    let mut reading = FluxReading::start();
    assert(all.take(0) =~= Seq::<Seq<char>>::empty());
    assert(line_views(reading.lines@) =~= Seq::<FluxLineView>::empty());
    for i in 0..segments.len()
        invariant
            all == views(segments@),
            reading.accumulator.wf(),
            reading.accumulator@ == packets_of(all.take(i as int)),
            line_views(reading.lines@) == decoded_lines(all.take(i as int)),
            i == 0 ==> reading.start is None && reading.stop is None && reading.header is None,
            i > 0 ==> {
                &&& reading.start == Some(text_time(encode_utf8(segments@[0]@)) as i64)
                &&& reading.stop == Some(text_time(encode_utf8(segments@[i - 1]@)) as i64)
                &&& match reading.header {
                    Some(h) => packet_report(pairs_of(segments@[i - 1]@)) == Some(h@),
                    None => packet_report(pairs_of(segments@[i - 1]@)) is None,
                }
            },
    {
        proof {
            assert(all.take(i + 1).drop_last() =~= all.take(i as int));
            assert(all.take(i + 1).last() == segments@[i as int]@);
        }
        reading.read(segments[i].as_str());
    }
    assert(all.take(all.len() as int) =~= all);
    reading
}

/// The least width of a column of the data table, in points: more for the
/// particle slots and for the reserved bytes.
pub fn min_column_width(title: &str) -> (r: u32)
    ensures
        r == (if "Particle Info"@.is_prefix_of(title@) {
            900u32
        } else if "Reserved"@.is_prefix_of(title@) {
            220u32
        } else {
            60u32
        }),
{
    if starts_with(title, "Particle Info") {
        900
    } else if starts_with(title, "Reserved") {
        220
    } else {
        MIN_COLUMN_WIDTH
    }
}

} // verus!
