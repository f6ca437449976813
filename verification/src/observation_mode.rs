//! The data table and the fit windows of observation mode.

use crate::clock::{Millis, LAST_MILLIS};
use crate::columns::{header_cells, header_titles, line_header_cells, line_header_titles, push_copies, push_text};
use crate::line::HeaderView;
use crate::models::observation::{BgoLayer, DetectorLayer};
use crate::observation::histogram::{bgo_layer_name, bgo_layer_text, layer_name, layer_text};
use crate::observation::particle::ParticleResult;
use crate::observation::tail_fields::{
    field_views, line_tail_fields, line_tail_table, LineTailField, TailFieldView,
};
use crate::text::{decimal, int_text, join, joined, natural, views};
use vstd::prelude::*;
use vstd::string::StringExecFns;

verus! {

/// What the window shows.
#[derive(Debug, Clone, Copy, PartialEq, Eq, Structural)]
pub enum ObservationViewMode {
    DssdPulseHeight,
    XStrip,
    YStrip,
    Bgo,
}

/// The unit of the strip layers' pulse heights.
#[derive(Debug, Clone, Copy, PartialEq, Eq, Structural)]
pub enum DssdDataUnit {
    Adc,
    Voltage,
}

/// Whether the data table shows the strip layers; it shows the scintillator
/// layers otherwise.
pub fn data_table_shows_dssd(view_mode: ObservationViewMode) -> (r: bool)
    ensures
        r == (view_mode != ObservationViewMode::Bgo),
{
    view_mode != ObservationViewMode::Bgo
}

/// The bytes of a particle that hold a strip layer's position, X and Y pulse
/// height.
pub open spec fn dssd_ranges(layer: DetectorLayer) -> (Seq<char>, Seq<char>, Seq<char>) {
    match layer {
        DetectorLayer::L1 => ("2"@, "3-4"@, "5-6"@),
        DetectorLayer::L2 => ("7"@, "8-9"@, "10-11"@),
        DetectorLayer::L6 => ("24"@, "25-26"@, "27-28"@),
        DetectorLayer::L7 => ("29"@, "30-31"@, "32-33"@),
    }
}

/// The bytes of a particle that hold a strip layer's position, X and Y pulse
/// height.
pub fn dssd_byte_ranges(layer: DetectorLayer) -> (r: (&'static str, &'static str, &'static str))
    ensures
        (r.0@, r.1@, r.2@) == dssd_ranges(layer),
{
    match layer {
        DetectorLayer::L1 => ("2", "3-4", "5-6"),
        DetectorLayer::L2 => ("7", "8-9", "10-11"),
        DetectorLayer::L6 => ("24", "25-26", "27-28"),
        DetectorLayer::L7 => ("29", "30-31", "32-33"),
    }
}

/// The bytes of a particle that hold a scintillator layer's high and low gain
/// pulse height.
pub open spec fn bgo_ranges(layer: BgoLayer) -> (Seq<char>, Seq<char>) {
    match layer {
        BgoLayer::L3 => ("12-13"@, "14-15"@),
        BgoLayer::L4 => ("16-17"@, "18-19"@),
        BgoLayer::L5 => ("20-21"@, "22-23"@),
    }
}

/// The bytes of a particle that hold a scintillator layer's high and low gain
/// pulse height.
pub fn bgo_byte_ranges(layer: BgoLayer) -> (r: (&'static str, &'static str))
    ensures
        (r.0@, r.1@) == bgo_ranges(layer),
{
    match layer {
        BgoLayer::L3 => ("12-13", "14-15"),
        BgoLayer::L4 => ("16-17", "18-19"),
        BgoLayer::L5 => ("20-21", "22-23"),
    }
}

/// The note on the bytes of a particle in a title.
pub open spec fn particle_label(range: Seq<char>) -> Seq<char> {
    "(Particle Byte "@ + range + ")"@
}

/// The note on the bytes of a particle in a title. They count from the
/// particle's first byte, not from the line's.
pub fn particle_byte_label(range: &str) -> (r: String)
    ensures
        r@ == particle_label(range@),
{
    let mut out = String::from_str("(Particle Byte ");
    out.append(range);
    out.append(")");
    out
}

/// The title of a housekeeping field.
pub open spec fn extra_title(field: TailFieldView) -> Seq<char> {
    field.label + " (Byte "@ + (if field.len == 1 {
        int_text(field.start)
    } else {
        int_text(field.start) + "-"@ + int_text(field.start + field.len - 1)
    }) + ")"@
}

/// The title of a housekeeping field: its label and its bytes in the line.
pub fn line_extra_header(field: &LineTailField) -> (r: String)
    requires
        field.byte_len >= 1,
        field.byte_start + field.byte_len <= usize::MAX,
    ensures
        r@ == extra_title(field@),
{
    let mut out = String::from_str(field.label);
    out.append(" (Byte ");
    let ghost before = out@;
    out.append(natural(field.byte_start as u64).as_str());
    if field.byte_len != 1 {
        out.append("-");
        out.append(natural((field.byte_start + field.byte_len - 1) as u64).as_str());
    }
    assert(out@ =~= before + (if field.byte_len == 1 {
        int_text(field@.start)
    } else {
        int_text(field@.start) + "-"@ + int_text(field@.start + field@.len - 1)
    }));
    out.append(")");
    out
}

/// One particle in the data table.
#[derive(Debug, Clone)]
pub struct EventRow {
    pub packet_sync: String,
    pub package_id: i32,
    pub packet_sequence: i32,
    pub packet_data_length: i32,
    pub time: Millis,
    pub data_type: String,
    pub particle_time_raw: i32,
    pub dssd_position: [i32; 4],
    pub dssd: [(i32, i32); 4],
    pub bgo: [(i32, i32); 3],
    /// The housekeeping values as they are shown.
    pub line_extra: Vec<String>,
}

/// What a row says.
pub struct EventView {
    pub header: HeaderView,
    pub time: int,
    pub particle_time: int,
    pub positions: Seq<i32>,
    pub dssd: Seq<(i32, i32)>,
    pub bgo: Seq<(i32, i32)>,
    pub extra: Seq<Seq<char>>,
}

impl View for EventRow {
    type V = EventView;

    open spec fn view(&self) -> EventView {
        EventView {
            header: HeaderView {
                packet_sync: self.packet_sync@,
                package_id: self.package_id as int,
                packet_sequence: self.packet_sequence as int,
                packet_data_length: self.packet_data_length as int,
                data_type: self.data_type@,
            },
            time: self.time as int,
            particle_time: self.particle_time_raw as int,
            positions: self.dssd_position@,
            dssd: self.dssd@,
            bgo: self.bgo@,
            extra: views(self.line_extra@),
        }
    }
}

impl EventRow {
    /// The row of a particle whose line's housekeeping values are shown as
    /// `line_extra`.
    pub fn from_particle(particle: &ParticleResult, line_extra: Vec<String>) -> (r: EventRow)
        ensures
            r@ == (EventView {
                header: particle@.header,
                time: particle@.time,
                particle_time: particle@.time_raw,
                positions: particle@.dssd_positions,
                dssd: particle@.dssd_pulses,
                bgo: particle@.bgo_pulses,
                extra: views(line_extra@),
            }),
    {
        EventRow {
            packet_sync: particle.packet_sync.clone(),
            package_id: particle.package_id,
            packet_sequence: particle.packet_sequence,
            packet_data_length: particle.packet_data_length,
            time: particle.time,
            data_type: particle.data_type.clone(),
            particle_time_raw: particle.particle_time_raw,
            dssd_position: particle.dssd_positions,
            dssd: particle.dssd_pulses,
            bgo: particle.bgo_pulses,
            line_extra,
        }
    }
}

/// The titles of a strip layer's three columns.
pub open spec fn dssd_titles(layer: DetectorLayer) -> Seq<Seq<char>> {
    let ranges = dssd_ranges(layer);
    seq![
        layer_text(layer) + " XY Position "@ + particle_label(ranges.0),
        layer_text(layer) + " X Pulse Height "@ + particle_label(ranges.1),
        layer_text(layer) + " Y Pulse Height "@ + particle_label(ranges.2),
    ]
}

/// The titles of a scintillator layer's two columns.
pub open spec fn bgo_titles(layer: BgoLayer) -> Seq<Seq<char>> {
    let ranges = bgo_ranges(layer);
    seq![
        bgo_layer_text(layer) + " High-Gain Pulse Height "@ + particle_label(ranges.0),
        bgo_layer_text(layer) + " Low-Gain Pulse Height "@ + particle_label(ranges.1),
    ]
}

/// The titles of the columns with the pulse heights.
pub open spec fn pulse_titles(show_dssd: bool) -> Seq<Seq<char>> {
    if show_dssd {
        dssd_titles(DetectorLayer::L1) + dssd_titles(DetectorLayer::L2) + dssd_titles(
            DetectorLayer::L6,
        ) + dssd_titles(DetectorLayer::L7)
    } else {
        bgo_titles(BgoLayer::L3) + bgo_titles(BgoLayer::L4) + bgo_titles(BgoLayer::L5)
    }
}

/// The titles of the data table.
pub open spec fn event_titles(show_dssd: bool) -> Seq<Seq<char>> {
    header_titles().push("Particle Time "@ + particle_label("0-1"@)) + pulse_titles(show_dssd)
        + line_tail_table().map_values(|f: TailFieldView| extra_title(f))
}

fn titled(layer: &str, what: &str, range: &str) -> (r: String)
    ensures
        r@ == layer@ + what@ + particle_label(range@),
{
    let mut out = String::from_str(layer);
    out.append(what);
    out.append(particle_byte_label(range).as_str());
    out
}

fn push_dssd_titles(out: &mut Vec<String>, layer: DetectorLayer)
    ensures
        views(final(out)@) == views(old(out)@) + dssd_titles(layer),
{
    let ghost start = views(out@);
    let ranges = dssd_byte_ranges(layer);
    push_text(out, titled(layer_name(layer), " XY Position ", ranges.0));
    push_text(out, titled(layer_name(layer), " X Pulse Height ", ranges.1));
    push_text(out, titled(layer_name(layer), " Y Pulse Height ", ranges.2));
    assert(views(out@) =~= start + dssd_titles(layer));
}

fn push_bgo_titles(out: &mut Vec<String>, layer: BgoLayer)
    ensures
        views(final(out)@) == views(old(out)@) + bgo_titles(layer),
{
    let ghost start = views(out@);
    let ranges = bgo_byte_ranges(layer);
    push_text(out, titled(bgo_layer_name(layer), " High-Gain Pulse Height ", ranges.0));
    push_text(out, titled(bgo_layer_name(layer), " Low-Gain Pulse Height ", ranges.1));
    assert(views(out@) =~= start + bgo_titles(layer));
}

fn push_extra_titles(out: &mut Vec<String>)
    ensures
        views(final(out)@) == views(old(out)@) + line_tail_table().map_values(
            |f: TailFieldView| extra_title(f),
        ),
{
    let fields = line_tail_fields();
    let ghost start = views(out@);
    let ghost titles = line_tail_table().map_values(|f: TailFieldView| extra_title(f));
    assert(start + titles.take(0) =~= start);
    for k in 0..fields.len()
        invariant
            field_views(fields@) == line_tail_table(),
            fields@.len() == 32,
            forall|j: int|
                0 <= j < 32 ==> (#[trigger] fields@[j]).byte_start + fields@[j].byte_len <= 256
                    && fields@[j].byte_len >= 1,
            titles == line_tail_table().map_values(|f: TailFieldView| extra_title(f)),
            views(out@) == start + titles.take(k as int),
    {
        assert(fields@[k as int]@ == line_tail_table()[k as int]);
        let title = line_extra_header(&fields[k]);
        proof {
            assert(start + titles.take(k + 1) =~= (start + titles.take(k as int)).push(title@));
        }
        push_text(out, title);
    }
    assert(titles.take(32) =~= titles);
}

/// The titles of the data table, in the order of its columns.
pub fn event_table_headers(show_dssd: bool) -> (r: Vec<String>)
    ensures
        views(r@) == event_titles(show_dssd),
{
    let mut headers = line_header_titles();
    let mut time_title = String::from_str("Particle Time ");
    time_title.append(particle_byte_label("0-1").as_str());
    push_text(&mut headers, time_title);
    let ghost start = views(headers@);
    if show_dssd {
        push_dssd_titles(&mut headers, DetectorLayer::L1);
        push_dssd_titles(&mut headers, DetectorLayer::L2);
        push_dssd_titles(&mut headers, DetectorLayer::L6);
        push_dssd_titles(&mut headers, DetectorLayer::L7);
    } else {
        push_bgo_titles(&mut headers, BgoLayer::L3);
        push_bgo_titles(&mut headers, BgoLayer::L4);
        push_bgo_titles(&mut headers, BgoLayer::L5);
    }
    assert(views(headers@) =~= start + pulse_titles(show_dssd));
    push_extra_titles(&mut headers);
    headers
}

/// The pulse heights of the strip layers in channels: X and Y of each layer.
pub open spec fn adc_values(dssd: Seq<(i32, i32)>) -> Seq<Seq<char>> {
    Seq::new(
        8,
        |k: int|
            if k % 2 == 0 {
                int_text(dssd[k / 2].0 as int)
            } else {
                int_text(dssd[k / 2].1 as int)
            },
    )
}

/// The pulse heights of the strip layers in channels: X and Y of each layer.
pub fn adc_texts(event: &EventRow) -> (r: Vec<String>)
    ensures
        views(r@) == adc_values(event@.dssd),
        r@.len() == 8,
{
    let mut out: Vec<String> = Vec::new();
    for k in 0..8usize
        invariant
            views(out@) == adc_values(event@.dssd).take(k as int),
            out@.len() == k,
    {
        let text = if k % 2 == 0 {
            decimal(event.dssd[k / 2].0 as i64)
        } else {
            decimal(event.dssd[k / 2].1 as i64)
        };
        proof {
            assert(text@ == adc_values(event@.dssd)[k as int]);
            assert(adc_values(event@.dssd).take(k + 1) =~= adc_values(event@.dssd).take(
                k as int,
            ).push(text@));
        }
        push_text(&mut out, text);
    }
    assert(adc_values(event@.dssd).take(8) =~= adc_values(event@.dssd));
    out
}

/// The cells of the strip layers: position, X and Y of each, the pulse heights
/// shown as `values`.
pub open spec fn dssd_cells(positions: Seq<i32>, values: Seq<Seq<char>>) -> Seq<Seq<char>> {
    Seq::new(
        12,
        |c: int|
            if c % 3 == 0 {
                int_text(positions[c / 3] as int)
            } else {
                values[2 * (c / 3) + c % 3 - 1]
            },
    )
}

/// The cells of the scintillator layers: high and low gain of each.
pub open spec fn bgo_cells(bgo: Seq<(i32, i32)>) -> Seq<Seq<char>> {
    Seq::new(
        6,
        |c: int|
            if c % 2 == 0 {
                int_text(bgo[c / 2].0 as int)
            } else {
                int_text(bgo[c / 2].1 as int)
            },
    )
}

/// The cells of a row, in the order of the columns.
pub open spec fn event_cells(event: EventView, show_dssd: bool, values: Seq<Seq<char>>) -> Seq<
    Seq<char>,
> {
    header_cells(event.header, event.time).push(int_text(event.particle_time)) + (if show_dssd {
        dssd_cells(event.positions, values)
    } else {
        bgo_cells(event.bgo)
    }) + event.extra
}

fn push_dssd_cells(out: &mut Vec<String>, event: &EventRow, values: &Vec<String>)
    requires
        values@.len() == 8,
    ensures
        views(final(out)@) == views(old(out)@) + dssd_cells(event@.positions, views(values@)),
{
    let ghost start = views(out@);
    let ghost whole = dssd_cells(event@.positions, views(values@));
    assert(start + whole.take(0) =~= start);
    for c in 0..12usize
        invariant
            values@.len() == 8,
            whole == dssd_cells(event@.positions, views(values@)),
            views(out@) == start + whole.take(c as int),
    {
        let text = if c % 3 == 0 {
            decimal(event.dssd_position[c / 3] as i64)
        } else {
            values[2 * (c / 3) + c % 3 - 1].clone()
        };
        proof {
            assert(text@ == whole[c as int]);
            assert(start + whole.take(c + 1) =~= (start + whole.take(c as int)).push(text@));
        }
        push_text(out, text);
    }
    assert(whole.take(12) =~= whole);
}

fn push_bgo_cells(out: &mut Vec<String>, event: &EventRow)
    ensures
        views(final(out)@) == views(old(out)@) + bgo_cells(event@.bgo),
{
    let ghost start = views(out@);
    let ghost whole = bgo_cells(event@.bgo);
    assert(start + whole.take(0) =~= start);
    for c in 0..6usize
        invariant
            whole == bgo_cells(event@.bgo),
            views(out@) == start + whole.take(c as int),
    {
        let text = if c % 2 == 0 {
            decimal(event.bgo[c / 2].0 as i64)
        } else {
            decimal(event.bgo[c / 2].1 as i64)
        };
        proof {
            assert(text@ == whole[c as int]);
            assert(start + whole.take(c + 1) =~= (start + whole.take(c as int)).push(text@));
        }
        push_text(out, text);
    }
    assert(whole.take(6) =~= whole);
}

/// The cells of a row, in the order of the columns. `values` are the pulse
/// heights of the strip layers as they are shown, X and Y of each layer.
pub fn event_row_cells(event: &EventRow, show_dssd: bool, values: &Vec<String>) -> (r: Vec<String>)
    requires
        0 <= event.time <= LAST_MILLIS,
        values@.len() == 8,
    ensures
        views(r@) == event_cells(event@, show_dssd, views(values@)),
{
    let mut cells = line_header_cells(
        &event.packet_sync,
        event.package_id,
        event.packet_sequence,
        event.packet_data_length,
        event.time,
        &event.data_type,
    );
    push_text(&mut cells, decimal(event.particle_time_raw as i64));
    if show_dssd {
        push_dssd_cells(&mut cells, event, values);
    } else {
        push_bgo_cells(&mut cells, event);
    }
    push_copies(&mut cells, &event.line_extra);
    cells
}

/// A row with all housekeeping values has one cell under each title.
pub proof fn cells_match_titles(event: EventView, show_dssd: bool, values: Seq<Seq<char>>)
    requires
        event.extra.len() == line_tail_table().len(),
    ensures
        event_cells(event, show_dssd, values).len() == event_titles(show_dssd).len(),
{
}

/// Lines of cells with commas between them, each with a line feed at its end.
pub open spec fn plain_lines(rows: Seq<Seq<Seq<char>>>) -> Seq<char>
    decreases rows.len(),
{
    if rows.len() == 0 {
        Seq::empty()
    } else {
        plain_lines(rows.drop_last()) + joined(rows.last(), ","@) + "\n"@
    }
}

/// The data table as text: the line of its titles, then one line per row.
pub fn event_csv(headers: &[String], rows: &[Vec<String>]) -> (r: String)
    ensures
        r@ == joined(views(headers@), ","@) + "\n"@ + plain_lines(
            crate::table::row_views(rows@),
        ),
{
    let ghost all = crate::table::row_views(rows@);
    let mut out = join(headers, ",");
    out.append("\n");
    let ghost start = out@;
    assert(all.take(0) =~= Seq::<Seq<Seq<char>>>::empty());
    assert(start + plain_lines(all.take(0)) =~= start);
    for i in 0..rows.len()
        invariant
            all == crate::table::row_views(rows@),
            out@ == start + plain_lines(all.take(i as int)),
    {
        out.append(join(rows[i].as_slice(), ",").as_str());
        out.append("\n");
        proof {
            assert(all.take(i + 1).drop_last() =~= all.take(i as int));
            assert(all[i as int] == views(rows@[i as int]@));
            assert(out@ =~= start + plain_lines(all.take(i + 1)));
        }
    }
    assert(all.take(all.len() as int) =~= all);
    out
}

/// The channels that a range of values selects from `len` channels: from the
/// first value to the last, both included.
pub open spec fn selected(len: int, range: Option<(usize, usize)>) -> (int, int) {
    match range {
        Some((low, high)) => (
            if low < len { low as int } else { len },
            if high + 1 < len { high + 1 } else { len },
        ),
        None => (0, len),
    }
}

/// The channels that a range of values selects from `len` channels.
pub fn histogram_range(len: usize, range: Option<(usize, usize)>) -> (r: (usize, usize))
    ensures
        (r.0 as int, r.1 as int) == selected(len as int, range),
        r.0 <= len,
        r.1 <= len,
{
    match range {
        Some((low, high)) => (
            if low < len { low } else { len },
            if high < len && high + 1 < len { high + 1 } else { len },
        ),
        None => (0, len),
    }
}

/// The sum of counts.
pub open spec fn total(counts: Seq<i32>) -> int
    decreases counts.len(),
{
    if counts.len() == 0 {
        0
    } else {
        total(counts.drop_last()) + counts.last()
    }
}

/// The sum of the counts from `start` to before `end`.
pub fn histogram_counts(hist: &[i32], start: usize, end: usize) -> (r: i64)
    requires
        start <= end <= hist@.len(),
        hist@.len() <= 0x8000_0000,
    ensures
        r == total(hist@.subrange(start as int, end as int)),
{
    let ghost part = hist@.subrange(start as int, end as int);
    let mut sum: i64 = 0;
    let mut i: usize = start;
    while i < end
        invariant
            start <= i <= end <= hist@.len() <= 0x8000_0000,
            part == hist@.subrange(start as int, end as int),
            sum == total(part.take(i - start)),
            -0x8000_0000 * (i - start) <= sum <= 0x8000_0000 * (i - start),
        decreases end - i,
    {
        proof {
            assert(part.take(i + 1 - start).drop_last() =~= part.take(i - start));
            assert(part.take(i + 1 - start).last() == hist@[i as int]);
        }
        sum = sum + hist[i] as i64;
        i = i + 1;
    }
    assert(part.take(end - start) =~= part);
    sum
}

/// The channels that the statistics of a histogram take in, and their counts
/// together; nothing where there is nothing to count.
pub fn stats_domain(hist: &[i32], range: Option<(usize, usize)>) -> (r: Option<(usize, usize, i64)>)
    requires
        hist@.len() <= 0x8000_0000,
    ensures
        ({
            let (start, end) = selected(hist@.len() as int, range);
            let counts = total(hist@.subrange(start, end));
            match r {
                Some(domain) => start < end && counts != 0 && (
                    domain.0 as int,
                    domain.1 as int,
                    domain.2 as int,
                ) == (start, end, counts),
                None => end <= start || counts == 0,
            }
        }),
{
    let (start, end) = histogram_range(hist.len(), range);
    if end <= start {
        return None;
    }
    let counts: i64 = histogram_counts(hist, start, end);
    if counts == 0 {
        None
    } else {
        Some((start, end, counts))
    }
}

/// What is shown in place of the statistics of an empty histogram.
pub const EMPTY_HISTOGRAM_STATS: &'static str =
    "Peak: -   Counts: 0   Mean: -   RMS: -   FWHM: -   Res: -";

/// The line with the statistics of a histogram, from its parts.
pub open spec fn stats_line(
    peak: Seq<char>,
    counts: int,
    mean: Seq<char>,
    rms: Seq<char>,
    fwhm: Seq<char>,
    resolution: Seq<char>,
) -> Seq<char> {
    "Peak: "@ + peak + "   Counts: "@ + int_text(counts) + "   Mean: "@ + mean + "   RMS: "@ + rms
        + "   FWHM: "@ + fwhm + "   Res: "@ + resolution
}

/// The line with the statistics of a histogram, from its parts.
pub fn format_histogram_stats(
    peak: &str,
    counts: i64,
    mean: &str,
    rms: &str,
    fwhm: &str,
    resolution: &str,
) -> (r: String)
    ensures
        r@ == stats_line(peak@, counts as int, mean@, rms@, fwhm@, resolution@),
{
    let mut out = String::from_str("Peak: ");
    out.append(peak);
    out.append("   Counts: ");
    out.append(decimal(counts).as_str());
    out.append("   Mean: ");
    out.append(mean);
    out.append("   RMS: ");
    out.append(rms);
    out.append("   FWHM: ");
    out.append(fwhm);
    out.append("   Res: ");
    out.append(resolution);
    out
}

} // verus!
