//! Titles and cells that the data tables of all modes share.

use crate::clock::{event_time, format_event_time, Millis, LAST_MILLIS};
use crate::line::HeaderView;
use crate::text::{decimal, int_text, join, joined, natural, views, views_push};
use vstd::prelude::*;
use vstd::string::StringExecFns;

verus! {

/// A title with the bytes of the line that its column shows.
pub open spec fn byte_title(label: Seq<char>, first: int, last: int) -> Seq<char> {
    label + " (Byte "@ + int_text(first) + "-"@ + int_text(last) + ")"@
}

/// A title with the bytes of the line that its column shows.
pub fn byte_header(label: &str, first: usize, last: usize) -> (r: String)
    ensures
        r@ == byte_title(label@, first as int, last as int),
{
    let mut out = String::from_str(label);
    out.append(" (Byte ");
    out.append(natural(first as u64).as_str());
    out.append("-");
    out.append(natural(last as u64).as_str());
    out.append(")");
    out
}

/// The titles of the columns with the line header.
pub open spec fn header_titles() -> Seq<Seq<char>> {
    seq![
        "Packet Sync Code (Byte 0-1)"@,
        "Package ID (Byte 2-3)"@,
        "Packet Seq (Byte 4-5)"@,
        "Packet Data Len (Byte 6-7)"@,
        "Time (Byte 8-13)"@,
        "Data Type (Byte 14-15)"@,
    ]
}

/// The titles of the columns with the line header.
pub fn line_header_titles() -> (r: Vec<String>)
    ensures
        views(r@) == header_titles(),
{
    let titles = vec![
        String::from_str("Packet Sync Code (Byte 0-1)"),
        String::from_str("Package ID (Byte 2-3)"),
        String::from_str("Packet Seq (Byte 4-5)"),
        String::from_str("Packet Data Len (Byte 6-7)"),
        String::from_str("Time (Byte 8-13)"),
        String::from_str("Data Type (Byte 14-15)"),
    ];
    assert(views(titles@) =~= header_titles());
    titles
}

/// The cells of the columns with the line header.
pub open spec fn header_cells(header: HeaderView, time: int) -> Seq<Seq<char>> {
    seq![
        header.packet_sync,
        int_text(header.package_id),
        int_text(header.packet_sequence),
        int_text(header.packet_data_length),
        event_time(time),
        header.data_type,
    ]
}

/// The cells of the columns with the line header.
pub fn line_header_cells(
    packet_sync: &String,
    package_id: i32,
    packet_sequence: i32,
    packet_data_length: i32,
    time: Millis,
    data_type: &String,
) -> (r: Vec<String>)
    requires
        0 <= time <= LAST_MILLIS,
    ensures
        views(r@) == header_cells(
            HeaderView {
                packet_sync: packet_sync@,
                package_id: package_id as int,
                packet_sequence: packet_sequence as int,
                packet_data_length: packet_data_length as int,
                data_type: data_type@,
            },
            time as int,
        ),
{
    let cells = vec![
        packet_sync.clone(),
        decimal(package_id as i64),
        decimal(packet_sequence as i64),
        decimal(packet_data_length as i64),
        format_event_time(time),
        data_type.clone(),
    ];
    assert(views(cells@) =~= header_cells(
        HeaderView {
            packet_sync: packet_sync@,
            package_id: package_id as int,
            packet_sequence: packet_sequence as int,
            packet_data_length: packet_data_length as int,
            data_type: data_type@,
        },
        time as int,
    ));
    cells
}

/// Numbers in decimal, with commas between them.
pub open spec fn number_list(values: Seq<i32>) -> Seq<char> {
    joined(values.map_values(|v: i32| int_text(v as int)), ", "@)
}

/// Numbers in decimal, with commas between them.
pub fn join_i32_values(values: &[i32]) -> (r: String)
    ensures
        r@ == number_list(values@),
{
    let ghost all = values@.map_values(|v: i32| int_text(v as int));
    let mut texts: Vec<String> = Vec::new();
    for i in 0..values.len()
        invariant
            all == values@.map_values(|v: i32| int_text(v as int)),
            views(texts@) == all.take(i as int),
    {
        let text = decimal(values[i] as i64);
        proof {
            views_push(texts@, text);
            assert(all.take(i + 1) =~= all.take(i as int).push(text@));
        }
        texts.push(text);
    }
    assert(all.take(all.len() as int) =~= all);
    join(texts.as_slice(), ", ")
}

/// Appends copies of texts.
pub fn push_copies(out: &mut Vec<String>, texts: &Vec<String>)
    ensures
        views(final(out)@) == views(old(out)@) + views(texts@),
{
    let ghost start = views(out@);
    assert(start + views(texts@).take(0) =~= start);
    for i in 0..texts.len()
        invariant
            views(out@) == start + views(texts@).take(i as int),
    {
        let text = texts[i].clone();
        proof {
            views_push(out@, text);
            assert(views(texts@).take(i + 1) =~= views(texts@).take(i as int).push(text@));
            assert(start + views(texts@).take(i + 1) =~= (start + views(texts@).take(i as int)).push(
                text@,
            ));
        }
        out.push(text);
    }
    assert(views(texts@).take(texts@.len() as int) =~= views(texts@));
}

/// Appends a text.
pub fn push_text(out: &mut Vec<String>, text: String)
    ensures
        views(final(out)@) == views(old(out)@).push(text@),
{
    proof {
        views_push(out@, text);
    }
    out.push(text);
}

/// Where the rows of a workbook are checked for the synchronisation code, the
/// first that lacks it.
pub open spec fn first_bad_row(rows: Seq<Seq<char>>) -> Option<int>
    decreases rows.len(),
{
    if rows.len() == 0 {
        None
    } else {
        match first_bad_row(rows.drop_last()) {
            Some(i) => Some(i),
            None => if "E225"@.is_prefix_of(rows.last()) {
                None
            } else {
                Some(rows.len() - 1)
            },
        }
    }
}

/// The outcome of the check of a workbook.
pub open spec fn header_check_text(rows: Seq<Seq<char>>) -> Seq<char> {
    match first_bad_row(rows) {
        Some(i) => "Header is INCORRECT! at data row no. "@ + int_text(i + 1),
        None => "Header is correct!"@,
    }
}

proof fn bad_row_stays(rows: Seq<Seq<char>>, k: int)
    requires
        0 <= k <= rows.len(),
        first_bad_row(rows.take(k)) is Some,
    ensures
        first_bad_row(rows) == first_bad_row(rows.take(k)),
    decreases rows.len(),
{
    if k == rows.len() {
        assert(rows.take(k) =~= rows);
    } else {
        assert(rows.drop_last().take(k) =~= rows.take(k));
        bad_row_stays(rows.drop_last(), k);
    }
}

/// Checks that every row of a workbook begins with the synchronisation code.
pub fn header_check(rows: &[String]) -> (r: String)
    ensures
        r@ == header_check_text(views(rows@)),
{
    let ghost all = views(rows@);
    assert(all.take(0) =~= Seq::<Seq<char>>::empty());
    for i in 0..rows.len()
        invariant
            all == views(rows@),
            first_bad_row(all.take(i as int)) is None,
    {
        proof {
            assert(all.take(i + 1).drop_last() =~= all.take(i as int));
            assert(all.take(i + 1).last() == rows@[i as int]@);
        }
        if !crate::text::starts_with(
            rows[i].as_str(),
            crate::models::shared::AppConstants::HEADER_START,
        ) {
            proof {
                bad_row_stays(all, i + 1);
            }
            let mut out = String::from_str("Header is INCORRECT! at data row no. ");
            out.append(natural(i as u64 + 1).as_str());
            return out;
        }
    }
    assert(all.take(all.len() as int) =~= all);
    String::from_str("Header is correct!")
}

/// Least width of a column of the data table, in points.
pub const MIN_COLUMN_WIDTH: u32 = 60;

/// Whether a column holds times, which are wider than its title.
pub fn is_time_title(title: &str) -> (r: bool)
    ensures
        r == "Time "@.is_prefix_of(title@),
{
    crate::text::starts_with(title, "Time ")
}

} // verus!
