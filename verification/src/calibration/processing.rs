//! The channel values that calibration lines add up to.

use crate::line::{dec_pair, pair_at};
use crate::series::{empty_series, no_values, push_value, reserved_series, series_views};
use crate::text::views;
use vstd::prelude::*;

verus! {

/// The values of every channel of the four strip layers: one per voltage step
/// of each line.
#[derive(Debug, Clone)]
pub struct CalibrationAccumulator {
    pub l1_columns: Vec<Vec<i32>>,
    pub l2_columns: Vec<Vec<i32>>,
    pub l6_columns: Vec<Vec<i32>>,
    pub l7_columns: Vec<Vec<i32>>,
}

/// The values of every channel, layer by layer.
pub struct CalibrationView {
    pub l1: Seq<Seq<i32>>,
    pub l2: Seq<Seq<i32>>,
    pub l6: Seq<Seq<i32>>,
    pub l7: Seq<Seq<i32>>,
}

impl View for CalibrationAccumulator {
    type V = CalibrationView;

    open spec fn view(&self) -> CalibrationView {
        CalibrationView {
            l1: series_views(self.l1_columns@),
            l2: series_views(self.l2_columns@),
            l6: series_views(self.l6_columns@),
            l7: series_views(self.l7_columns@),
        }
    }
}

/// The number of complete voltage steps in a line of `len` bytes.
pub open spec fn complete_steps(len: int) -> nat {
    if len < 146 {
        0
    } else if len >= 1426 {
        11
    } else {
        ((len - 18) / 128) as nat
    }
}

/// The values of channel `channel` in the first `steps` steps of a line, for
/// the layer whose block is number `layer` of each step.
pub open spec fn step_values(tokens: Seq<Seq<char>>, layer: int, channel: int, steps: nat) -> Seq<
    i32,
> {
    Seq::new(steps, |i: int| pair_at(tokens, 18 + 128 * i + 32 * layer + 2 * channel) as i32)
}

/// The columns of a layer with the values of the first `steps` steps of a line
/// added.
pub open spec fn with_steps(
    columns: Seq<Seq<i32>>,
    tokens: Seq<Seq<char>>,
    layer: int,
    steps: nat,
) -> Seq<Seq<i32>> {
    Seq::new(16, |j: int| columns[j] + step_values(tokens, layer, j, steps))
}

impl CalibrationView {
    /// Every layer has its sixteen channels.
    pub open spec fn wf(self) -> bool {
        self.l1.len() == 16 && self.l2.len() == 16 && self.l6.len() == 16 && self.l7.len() == 16
    }

    /// No values.
    pub open spec fn empty() -> CalibrationView {
        CalibrationView {
            l1: no_values(16),
            l2: no_values(16),
            l6: no_values(16),
            l7: no_values(16),
        }
    }

    /// With the first `steps` steps of a line.
    pub open spec fn add_steps(self, tokens: Seq<Seq<char>>, steps: nat) -> CalibrationView {
        CalibrationView {
            l1: with_steps(self.l1, tokens, 0, steps),
            l2: with_steps(self.l2, tokens, 1, steps),
            l6: with_steps(self.l6, tokens, 2, steps),
            l7: with_steps(self.l7, tokens, 3, steps),
        }
    }
}

impl Default for CalibrationAccumulator {
    fn default() -> (r: CalibrationAccumulator)
        ensures
            r@ == CalibrationView::empty(),
    {
        CalibrationAccumulator {
            l1_columns: empty_series(16),
            l2_columns: empty_series(16),
            l6_columns: empty_series(16),
            l7_columns: empty_series(16),
        }
    }
}

proof fn next_step(columns: Seq<Seq<i32>>, tokens: Seq<Seq<char>>, layer: int, steps: nat, j: int)
    requires
        0 <= j < 16,
        columns.len() == 16,
    ensures
        with_steps(columns, tokens, layer, steps + 1)[j] == with_steps(columns, tokens, layer, steps)[j].push(
            pair_at(tokens, 18 + 128 * steps as int + 32 * layer + 2 * j) as i32,
        ),
{
    assert(step_values(tokens, layer, j, steps + 1) == step_values(tokens, layer, j, steps).push(
        pair_at(tokens, 18 + 128 * steps as int + 32 * layer + 2 * j) as i32,
    ));
    assert(with_steps(columns, tokens, layer, steps + 1)[j] =~= with_steps(
        columns,
        tokens,
        layer,
        steps,
    )[j].push(pair_at(tokens, 18 + 128 * steps as int + 32 * layer + 2 * j) as i32));
}

/// Adds the values of step `step` of a line to the columns of one layer.
fn push_step(columns: &mut Vec<Vec<i32>>, hex_data: &[String], layer: usize, step: usize, Ghost(start): Ghost<Seq<Seq<i32>>>)
    requires
        layer < 4,
        step < 11,
        start.len() == 16,
        series_views(old(columns)@) == with_steps(start, views(hex_data@), layer as int, step as nat),
    ensures
        series_views(final(columns)@) == with_steps(
            start,
            views(hex_data@),
            layer as int,
            (step + 1) as nat,
        ),
{
    let ghost tokens = views(hex_data@);
    let ghost before = with_steps(start, tokens, layer as int, step as nat);
    let ghost after = with_steps(start, tokens, layer as int, (step + 1) as nat);
    for j in 0..16usize
        invariant
            layer < 4,
            step < 11,
            start.len() == 16,
            tokens == views(hex_data@),
            before == with_steps(start, tokens, layer as int, step as nat),
            after == with_steps(start, tokens, layer as int, (step + 1) as nat),
            series_views(columns@).len() == 16,
            forall|k: int| 0 <= k < j ==> #[trigger] series_views(columns@)[k] == after[k],
            forall|k: int| j <= k < 16 ==> #[trigger] series_views(columns@)[k] == before[k],
    {
        proof {
            next_step(start, tokens, layer as int, step as nat, j as int);
        }
        let value: i32 = dec_pair(hex_data, 18 + 128 * step + 32 * layer + 2 * j);
        push_value(columns, j, value);
    }
    assert(series_views(columns@) =~= after);
}

impl CalibrationAccumulator {
    /// Forgets all values and makes room for `capacity` of each channel.
    pub fn reset(&mut self, capacity: usize)
        requires
            4 * capacity <= isize::MAX,
        ensures
            final(self)@ == CalibrationView::empty(),
    {
        self.l1_columns = reserved_series(16, capacity);
        self.l2_columns = reserved_series(16, capacity);
        self.l6_columns = reserved_series(16, capacity);
        self.l7_columns = reserved_series(16, capacity);
    }

    /// Adds the complete voltage steps of a line.
    pub fn process_calibration(&mut self, hex_data: &[String])
        requires
            old(self)@.wf(),
        ensures
            final(self)@ == old(self)@.add_steps(
                views(hex_data@),
                complete_steps(hex_data@.len() as int),
            ),
            final(self)@.wf(),
    {
        let ghost tokens = views(hex_data@);
        let ghost start = self@;
        proof {
            no_steps(start.l1, tokens, 0);
            no_steps(start.l2, tokens, 1);
            no_steps(start.l6, tokens, 2);
            no_steps(start.l7, tokens, 3);
        }
        if hex_data.len() < 18 {
            return;
        }
        for i in 0..11usize
            invariant
                tokens == views(hex_data@),
                start.wf(),
                self@ == start.add_steps(
                    tokens,
                    if i <= complete_steps(hex_data@.len() as int) {
                        i as nat
                    } else {
                        complete_steps(hex_data@.len() as int)
                    },
                ),
        {
            let offset: usize = 18 + 128 * i;
            if offset + 128 <= hex_data.len() {
                push_step(&mut self.l1_columns, hex_data, 0, i, Ghost(start.l1));
                push_step(&mut self.l2_columns, hex_data, 1, i, Ghost(start.l2));
                push_step(&mut self.l6_columns, hex_data, 2, i, Ghost(start.l6));
                push_step(&mut self.l7_columns, hex_data, 3, i, Ghost(start.l7));
            }
        }
    }

    /// The columns of a layer: 0 to 3 for L1, L2, L6 and L7, L1 for any other
    /// number.
    pub fn columns(&self, layer_index: usize) -> (r: &Vec<Vec<i32>>)
        ensures
            series_views(r@) == (if layer_index == 1 {
                self@.l2
            } else if layer_index == 2 {
                self@.l6
            } else if layer_index == 3 {
                self@.l7
            } else {
                self@.l1
            }),
    {
        match layer_index {
            0 => &self.l1_columns,
            1 => &self.l2_columns,
            2 => &self.l6_columns,
            3 => &self.l7_columns,
            _ => &self.l1_columns,
        }
    }
}

proof fn no_steps(columns: Seq<Seq<i32>>, tokens: Seq<Seq<char>>, layer: int)
    requires
        columns.len() == 16,
    ensures
        with_steps(columns, tokens, layer, 0) == columns,
{
    assert forall|j: int| 0 <= j < 16 implies #[trigger] with_steps(columns, tokens, layer, 0)[j]
        == columns[j] by {
        assert(columns[j] + step_values(tokens, layer, j, 0) =~= columns[j]);
    }
    assert(with_steps(columns, tokens, layer, 0) =~= columns);
}

} // verus!
