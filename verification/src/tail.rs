//! Housekeeping values at the end of a line.

use crate::line::{dec_pair, pair_at};
use crate::text::{decimal, int_text, same_text, views};
use vstd::prelude::*;

verus! {

/// One housekeeping value of a line.
///
/// The sensors of the second front-end board and of the scintillator bias are
/// read through a calibration formula. Their cells keep the raw reading; the
/// formula is applied where the value is displayed.
#[derive(Debug, Clone)]
pub enum TailCell {
    /// A plain number.
    Decimal(i32),
    /// The bytes of the field, as they stand in the line.
    Hex(String),
    /// A raw reading to which the formula applies.
    Formula(i32),
    /// A raw reading to which the formula applies, in hundredths.
    FormulaHundredth(i32),
}

/// What a housekeeping cell holds.
pub enum TailView {
    Decimal(int),
    Hex(Seq<char>),
    Formula(int),
    FormulaHundredth(int),
}

impl View for TailCell {
    type V = TailView;

    open spec fn view(&self) -> TailView {
        match *self {
            TailCell::Decimal(n) => TailView::Decimal(n as int),
            TailCell::Hex(s) => TailView::Hex(s@),
            TailCell::Formula(n) => TailView::Formula(n as int),
            TailCell::FormulaHundredth(n) => TailView::FormulaHundredth(n as int),
        }
    }
}

/// What the cells of a tail hold.
pub open spec fn cell_views(cells: Seq<TailCell>) -> Seq<TailView> {
    cells.map_values(|c: TailCell| c@)
}

/// A cell at the end of a tail adds what it holds at the end.
pub proof fn cell_views_push(cells: Seq<TailCell>, last: TailCell)
    ensures
        cell_views(cells.push(last)) == cell_views(cells).push(last@),
{
}

/// The cell for the reading `raw` of the field `label`.
pub open spec fn calibrated(label: Seq<char>, raw: int) -> TailView {
    if label == "FEE2 Temperature"@ {
        TailView::Formula(raw)
    } else if label == "BGO1 Bias Voltage"@ || label == "BGO2 Bias Voltage"@ || label
        == "BGO3 Bias Voltage"@ || label == "BGO2 Temperature"@ {
        TailView::FormulaHundredth(raw)
    } else {
        TailView::Decimal(raw)
    }
}

/// The cell for the reading `raw` of the field `label`: the second front-end
/// board's temperature goes through the formula, the scintillator bias
/// voltages and temperature through the formula in hundredths.
pub fn calibrated_value(label: &str, raw: i32) -> (r: TailCell)
    ensures
        r@ == calibrated(label@, raw as int),
{
    if same_text(label, "FEE2 Temperature") {
        TailCell::Formula(raw)
    } else if same_text(label, "BGO1 Bias Voltage") || same_text(label, "BGO2 Bias Voltage")
        || same_text(label, "BGO3 Bias Voltage") || same_text(label, "BGO2 Temperature") {
        TailCell::FormulaHundredth(raw)
    } else {
        TailCell::Decimal(raw)
    }
}

/// The cell of the two-byte field `label` at byte `byte_start` of a line.
pub fn pair_cell(hex_data: &[String], label: &str, byte_start: usize) -> (r: TailCell)
    requires
        byte_start < usize::MAX,
    ensures
        r@ == calibrated(label@, pair_at(views(hex_data@), byte_start as int)),
{
    calibrated_value(label, dec_pair(hex_data, byte_start))
}

impl TailCell {
    /// The cell's text where no formula applies to it.
    pub fn text(&self) -> (r: Option<String>)
        ensures
            match self@ {
                TailView::Decimal(n) => r is Some && r->0@ == int_text(n),
                TailView::Hex(s) => r is Some && r->0@ == s,
                _ => r is None,
            },
    {
        match self {
            TailCell::Decimal(n) => Some(decimal(*n as i64)),
            TailCell::Hex(s) => Some(s.clone()),
            _ => None,
        }
    }

    /// The raw reading where the formula applies to the cell, and whether it is
    /// in hundredths.
    pub fn reading(&self) -> (r: Option<(i32, bool)>)
        ensures
            match self@ {
                TailView::Formula(n) => r matches Some(p) && p.0 == n && !p.1,
                TailView::FormulaHundredth(n) => r matches Some(p) && p.0 == n && p.1,
                _ => r is None,
            },
    {
        match self {
            TailCell::Formula(n) => Some((*n, false)),
            TailCell::FormulaHundredth(n) => Some((*n, true)),
            _ => None,
        }
    }
}

} // verus!
