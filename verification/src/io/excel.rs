//! The layout of the baseline worksheet: a row of titles, then one row per
//! sample with its two numbers and the channels of the four layers.

use crate::text::{decimal, int_text, views, views_push};
use vstd::prelude::*;
use vstd::string::StringExecFns;

verus! {

/// Channels of one layer.
pub const CHANNELS_PER_LAYER: usize = 16;

/// Columns of the worksheet.
pub const BASELINE_COLUMNS: usize = 66;

/// The name of the worksheet.
pub const SHEET_NAME: &'static str = "Processed Data";

/// The name of layer `i` of the worksheet.
pub open spec fn sheet_layer(i: int) -> Seq<char> {
    if i == 0 {
        "L1"@
    } else if i == 1 {
        "L2"@
    } else if i == 2 {
        "L6"@
    } else {
        "L7"@
    }
}

/// The titles of the columns.
pub open spec fn baseline_titles() -> Seq<Seq<char>> {
    Seq::new(
        66,
        |c: int|
            if c == 0 {
                "Sampling Packet No."@
            } else if c == 1 {
                "Sampling No."@
            } else {
                sheet_layer((c - 2) / 16) + " CH"@ + int_text((c - 2) % 16 + 1)
            },
    )
}

fn sheet_layer_name(i: usize) -> (r: &'static str)
    ensures
        r@ == sheet_layer(i as int),
{
    match i {
        0 => "L1",
        1 => "L2",
        2 => "L6",
        _ => "L7",
    }
}

/// The titles of the columns.
pub fn baseline_headers() -> (r: Vec<String>)
    ensures
        views(r@) == baseline_titles(),
{
    let mut titles: Vec<String> = Vec::new();
    for c in 0..BASELINE_COLUMNS
        invariant
            views(titles@) == baseline_titles().take(c as int),
    {
        let title = if c == 0 {
            String::from_str("Sampling Packet No.")
        } else if c == 1 {
            String::from_str("Sampling No.")
        } else {
            let mut title = String::from_str(sheet_layer_name((c - 2) / CHANNELS_PER_LAYER));
            title.append(" CH");
            title.append(decimal(((c - 2) % CHANNELS_PER_LAYER) as i64 + 1).as_str());
            title
        };
        proof {
            views_push(titles@, title);
            assert(title@ == baseline_titles()[c as int]);
            assert(baseline_titles().take(c + 1) =~= baseline_titles().take(c as int).push(title@));
        }
        titles.push(title);
    }
    assert(baseline_titles().take(66) =~= baseline_titles());
    titles
}

/// The cells of one sample.
#[derive(Debug, Clone, Copy, PartialEq)]
pub struct BaselineCells<T> {
    pub packet: T,
    pub number: T,
    pub l1: [T; 16],
    pub l2: [T; 16],
    pub l6: [T; 16],
    pub l7: [T; 16],
}

/// The row of a sample.
pub open spec fn row_of<T>(cells: BaselineCells<T>) -> Seq<T> {
    seq![cells.packet, cells.number] + cells.l1@ + cells.l2@ + cells.l6@ + cells.l7@
}

/// The cell in column `c` of a row, `missing` where the row is too short.
pub open spec fn cell_at<T>(row: Seq<T>, c: int, missing: T) -> T {
    if 0 <= c < row.len() {
        row[c]
    } else {
        missing
    }
}

/// The cells hold what the row holds, `missing` in place of what it lacks.
pub open spec fn cells_match<T>(cells: BaselineCells<T>, row: Seq<T>, missing: T) -> bool {
    &&& cells.packet == cell_at(row, 0, missing)
    &&& cells.number == cell_at(row, 1, missing)
    &&& forall|j: int| 0 <= j < 16 ==> #[trigger] cells.l1@[j] == cell_at(row, 2 + j, missing)
    &&& forall|j: int| 0 <= j < 16 ==> #[trigger] cells.l2@[j] == cell_at(row, 18 + j, missing)
    &&& forall|j: int| 0 <= j < 16 ==> #[trigger] cells.l6@[j] == cell_at(row, 34 + j, missing)
    &&& forall|j: int| 0 <= j < 16 ==> #[trigger] cells.l7@[j] == cell_at(row, 50 + j, missing)
}

fn push_layer<T: Copy>(row: &mut Vec<T>, layer: &[T; 16])
    ensures
        final(row)@ == old(row)@ + layer@,
{
    let ghost start = row@;
    assert(start + layer@.take(0) =~= start);
    for j in 0..16usize
        invariant
            row@ == start + layer@.take(j as int),
    {
        row.push(layer[j]);
        assert(layer@.take(j + 1) =~= layer@.take(j as int).push(layer@[j as int]));
    }
    assert(layer@.take(16) =~= layer@);
}

fn get_cell<T: Copy>(row: &[T], c: usize, missing: T) -> (r: T)
    ensures
        r == cell_at(row@, c as int, missing),
{
    if c < row.len() {
        row[c]
    } else {
        missing
    }
}

fn read_layer<T: Copy>(row: &[T], start: usize, missing: T) -> (r: [T; 16])
    requires
        start <= 50,
    ensures
        forall|j: int| 0 <= j < 16 ==> #[trigger] r@[j] == cell_at(row@, start + j, missing),
{
    let mut layer: [T; 16] = [missing; 16];
    for j in 0..16usize
        invariant
            start <= 50,
            forall|k: int| 0 <= k < j ==> #[trigger] layer@[k] == cell_at(row@, start + k, missing),
    {
        layer[j] = get_cell(row, start + j, missing);
    }
    layer
}

/// The row of a sample.
pub fn baseline_row<T: Copy>(cells: &BaselineCells<T>) -> (r: Vec<T>)
    ensures
        r@ == row_of(*cells),
        r@.len() == 66,
{
    let mut row: Vec<T> = Vec::new();
    row.push(cells.packet);
    row.push(cells.number);
    assert(row@ =~= seq![cells.packet, cells.number]);
    push_layer(&mut row, &cells.l1);
    push_layer(&mut row, &cells.l2);
    push_layer(&mut row, &cells.l6);
    push_layer(&mut row, &cells.l7);
    row
}

/// The sample in a row; `missing` stands in for the cells that the row lacks.
pub fn baseline_from_row<T: Copy>(row: &[T], missing: T) -> (r: BaselineCells<T>)
    ensures
        cells_match(r, row@, missing),
{
    BaselineCells {
        packet: get_cell(row, 0, missing),
        number: get_cell(row, 1, missing),
        l1: read_layer(row, 2, missing),
        l2: read_layer(row, 18, missing),
        l6: read_layer(row, 34, missing),
        l7: read_layer(row, 50, missing),
    }
}

/// A sample reads back from its own row unchanged.
pub proof fn row_reads_back<T>(cells: BaselineCells<T>, back: BaselineCells<T>, missing: T)
    requires
        cells_match(back, row_of(cells), missing),
    ensures
        back.packet == cells.packet,
        back.number == cells.number,
        back.l1@ == cells.l1@,
        back.l2@ == cells.l2@,
        back.l6@ == cells.l6@,
        back.l7@ == cells.l7@,
{
    let row = row_of(cells);
    assert(row.len() == 66);
    assert(back.l1@ =~= cells.l1@);
    assert(back.l2@ =~= cells.l2@);
    assert(back.l6@ =~= cells.l6@);
    assert(back.l7@ =~= cells.l7@);
}

} // verus!
