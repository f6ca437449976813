//! What calibration lines say, in terms of the bytes that they write.

use crate::calibration::data_processor::{
    block_label, block_table, calibration_line, calibration_tail_table,
};
use crate::calibration::processing::{complete_steps, with_steps, CalibrationView};
use crate::calibration_mode::{
    calibration_cells, calibration_nodes, calibration_titles, one_step, step_key, step_nodes,
    CalibrationRowView,
};
use crate::clock::padded;
use crate::columns::{byte_title, number_list};
use crate::json_view::JsonView;
use crate::tail::TailView;
use crate::text::{int_text, nat_text};
use crate::wire::{
    block_reads_back, header_reads_back, span_reads_back, time_reads_back, wire_chars, wire_line,
    wire_text, word, word_reads_back,
};
use vstd::prelude::*;

verus! {

/// The steps of a line are complete as far as its bytes reach: 128 per step
/// behind the first eighteen, and eleven steps at most.
pub proof fn steps_that_fit(len: int)
    requires
        0 <= len,
    ensures
        complete_steps(len) <= 11,
        complete_steps(len) > 0 ==> 18 + 128 * complete_steps(len) <= len,
        complete_steps(len) < 11 ==> len < 18 + 128 * (complete_steps(len) + 1),
{
}

/// A layer's columns with the steps of a line added: what was there stays, and
/// behind it stand the words of the channel, step by step.
pub open spec fn columns_extended(
    before: Seq<Seq<i32>>,
    after: Seq<Seq<i32>>,
    bytes: Seq<u8>,
    start: int,
    steps: int,
) -> bool {
    &&& after.len() == 16
    &&& forall|channel: int|
        0 <= channel < 16 ==> (#[trigger] after[channel]).len() == before[channel].len() + steps
    &&& forall|channel: int, i: int|
        0 <= channel < 16 && 0 <= i < before[channel].len() ==> #[trigger] after[channel][i]
            == before[channel][i]
    &&& forall|channel: int, step: int|
        0 <= channel < 16 && 0 <= step < steps ==> #[trigger] after[channel][before[channel].len()
            + step] == word(bytes, start + 128 * step + 2 * channel)
}

/// The steps of a line: those of L1 begin at byte 18, of L2 at byte 50, of L6
/// at byte 82 and of L7 at byte 114, each step 128 bytes behind the one before.
pub proof fn columns_hold_words(view: CalibrationView, bytes: Seq<u8>, steps: nat)
    requires
        view.wf(),
        steps <= complete_steps(bytes.len() as int),
    ensures
        ({
            let after = view.add_steps(wire_line(bytes), steps);
            &&& columns_extended(view.l1, after.l1, bytes, 18, steps as int)
            &&& columns_extended(view.l2, after.l2, bytes, 50, steps as int)
            &&& columns_extended(view.l6, after.l6, bytes, 82, steps as int)
            &&& columns_extended(view.l7, after.l7, bytes, 114, steps as int)
        }),
{
    layer_columns(view.l1, bytes, 0, steps);
    layer_columns(view.l2, bytes, 1, steps);
    layer_columns(view.l6, bytes, 2, steps);
    layer_columns(view.l7, bytes, 3, steps);
}

proof fn layer_columns(before: Seq<Seq<i32>>, bytes: Seq<u8>, layer: int, steps: nat)
    requires
        before.len() == 16,
        0 <= layer < 4,
        steps <= complete_steps(bytes.len() as int),
    ensures
        columns_extended(
            before,
            with_steps(before, wire_line(bytes), layer, steps),
            bytes,
            18 + 32 * layer,
            steps as int,
        ),
{
    steps_that_fit(bytes.len() as int);
    let after = with_steps(before, wire_line(bytes), layer, steps);
    assert forall|channel: int, step: int|
        0 <= channel < 16 && 0 <= step < steps implies #[trigger] after[channel][before[channel].len()
        + step] == word(bytes, 18 + 32 * layer + 128 * step + 2 * channel) by {
        word_reads_back(bytes, 18 + 128 * step + 32 * layer + 2 * channel);
    }
}

/// Nothing has been added at first.
pub proof fn no_columns_at_first(channel: int)
    requires
        0 <= channel < 16,
    ensures
        CalibrationView::empty().wf(),
        CalibrationView::empty().l1[channel].len() == 0,
        CalibrationView::empty().l2[channel].len() == 0,
        CalibrationView::empty().l6[channel].len() == 0,
        CalibrationView::empty().l7[channel].len() == 0,
{
}

/// A strip layer as the labels, the keys and the blocks of a step name it, and
/// where its block stands within a step.
pub open spec fn layer_names() -> Seq<(Seq<char>, Seq<char>, int)> {
    seq![("L1"@, "l1"@, 0), ("L2"@, "l2"@, 32), ("L6"@, "l6"@, 64), ("L7"@, "l7"@, 96)]
}

/// The label of a block: the voltage of its step, and its layer.
pub open spec fn voltage_label(step: int, layer: int) -> Seq<char> {
    seq![
        "0123456789"@[step / 10],
        '.',
        "0123456789"@[step % 10],
        'V',
        ' ',
    ] + layer_names()[layer].0
}

/// The key of a step: its number in two digits.
pub open spec fn voltage_key(step: int) -> Seq<char> {
    seq!["0123456789"@[step / 10], "0123456789"@[step % 10], 'v']
}

proof fn small_number(n: int)
    requires
        0 <= n < 10,
    ensures
        int_text(n) == seq!["0123456789"@[n]],
{
    reveal_strlit("0123456789");
    assert(int_text(n) =~= seq!["0123456789"@[n]]);
}

/// The block of a step and a layer bears their label, and stands 128 bytes
/// behind the block of the step before and 32 behind that of the layer before.
pub proof fn blocks_bear_labels(step: int, layer: int)
    requires
        0 <= step < 11,
        0 <= layer < 4,
    ensures
        block_table().len() == 44,
        block_table()[4 * step + layer] == (
            voltage_label(step, layer),
            18 + 128 * step + layer_names()[layer].2,
        ),
{
    assert((4 * step + layer) / 4 == step && (4 * step + layer) % 4 == layer);
    small_number(step / 10);
    small_number(step % 10);
    reveal_strlit(".");
    reveal_strlit("V ");
    assert(block_label(step, layer) =~= voltage_label(step, layer));
}

proof fn keys_of_steps(step: int)
    requires
        0 <= step < 11,
    ensures
        step_key(step) == voltage_key(step),
{
    small_number(step / 10);
    small_number(step % 10);
    reveal_strlit("v");
    reveal_strlit("0123456789");
    reveal_with_fuel(nat_text, 3);
    if step < 10 {
        assert(nat_text(step as nat) =~= seq!["0123456789"@[step]]);
    } else {
        assert(nat_text(10nat) =~= seq!['1', '0']);
    }
    assert(padded(step as nat, 2) =~= seq!["0123456789"@[step / 10], "0123456789"@[step % 10]]);
    assert(step_key(step) =~= voltage_key(step));
}

/// The labels of the housekeeping fields of a line, in their order.
pub open spec fn calibration_labels() -> Seq<Seq<char>> {
    seq![
        "DSSD 1 Temperature"@,
        "FEE1 Current"@,
        "FEE1 Temperature"@,
        "DSSD 7 Temperature"@,
        "FEE2 Current"@,
        "FEE2 Temperature"@,
        "FEE1 Threshold"@,
        "FEE2 Threshold"@,
        "DSSD 1 Temperature (dup)"@,
        "DSSD 4 Temperature"@,
    ]
}

/// The housekeeping fields stand one behind the other from byte 1426 on.
pub proof fn calibration_fields_in_order()
    ensures
        calibration_tail_table().len() == 10,
        forall|k: int|
            0 <= k < 10 ==> #[trigger] calibration_tail_table()[k] == (
                calibration_labels()[k],
                1426 + 2 * k,
            ),
{
    reveal(calibration_tail_table);
}

#[verifier::spinoff_prover]
#[verifier::rlimit(60)]
proof fn formula_labels(k: int)
    requires
        0 <= k < 10,
    ensures
        (calibration_labels()[k] == "FEE2 Temperature"@) == (k == 5),
        calibration_labels()[k] != "BGO1 Bias Voltage"@,
        calibration_labels()[k] != "BGO2 Bias Voltage"@,
        calibration_labels()[k] != "BGO3 Bias Voltage"@,
        calibration_labels()[k] != "BGO2 Temperature"@,
{
    reveal_strlit("DSSD 1 Temperature");
    reveal_strlit("FEE1 Current");
    reveal_strlit("FEE1 Temperature");
    reveal_strlit("DSSD 7 Temperature");
    reveal_strlit("FEE2 Current");
    reveal_strlit("FEE2 Temperature");
    reveal_strlit("FEE1 Threshold");
    reveal_strlit("FEE2 Threshold");
    reveal_strlit("DSSD 1 Temperature (dup)");
    reveal_strlit("DSSD 4 Temperature");
    reveal_strlit("BGO1 Bias Voltage");
    reveal_strlit("BGO2 Bias Voltage");
    reveal_strlit("BGO3 Bias Voltage");
    reveal_strlit("BGO2 Temperature");
    let label = calibration_labels()[k];
    assert(label[0] == 'D' || label[0] == 'F');
    assert("FEE2 Temperature"@[3] == '2' && "FEE2 Temperature"@.len() == 16);
    if k != 5 {
        assert(label[0] == 'D' || label[3] == '1' || label.len() != 16);
    }
}

/// A whole line: the header and time, the sample index in bytes 16 and 17, the
/// sixteen words of each layer at each step, ten readings from byte 1426 on,
/// and the spans behind them.
#[verifier::spinoff_prover]
#[verifier::rlimit(60)]
pub proof fn calibration_line_fields(bytes: Seq<u8>)
    requires
        bytes.len() >= 2064,
    ensures
        ({
            let line = calibration_line(wire_line(bytes))->0;
            &&& calibration_line(wire_line(bytes)) is Some
            &&& line.header.packet_sync == wire_text(bytes[0]) + wire_text(bytes[1])
            &&& line.header.package_id == word(bytes, 2)
            &&& line.header.packet_sequence == word(bytes, 4)
            &&& line.header.packet_data_length == word(bytes, 6)
            &&& line.header.data_type == wire_text(bytes[14]) + wire_text(bytes[15])
            &&& line.time == 1_727_740_800_000 + 1000 * (65536 * word(bytes, 8) + word(bytes, 10))
            &&& line.sample_index == word(bytes, 16)
            &&& line.blocks.len() == 44
            &&& line.reserved == wire_chars(bytes.subrange(1446, 2062))
            &&& line.checksum == wire_chars(bytes.subrange(2062, 2064))
            &&& line.tail.len() == 10
            &&& forall|k: int|
                0 <= k < 10 ==> #[trigger] line.tail[k] == (if k == 5 {
                    TailView::Formula(word(bytes, 1426 + 2 * k))
                } else {
                    TailView::Decimal(word(bytes, 1426 + 2 * k))
                })
        }),
{
    header_reads_back(bytes);
    time_reads_back(bytes);
    word_reads_back(bytes, 16);
    let line = calibration_line(wire_line(bytes))->0;
    span_reads_back(bytes, 1446, 616);
    span_reads_back(bytes, 2062, 2);
    calibration_fields_in_order();
    assert forall|k: int| 0 <= k < 10 implies #[trigger] line.tail[k] == (if k == 5 {
        TailView::Formula(word(bytes, 1426 + 2 * k))
    } else {
        TailView::Decimal(word(bytes, 1426 + 2 * k))
    }) by {
        assert(calibration_tail_table()[k] == (calibration_labels()[k], 1426 + 2 * k));
        word_reads_back(bytes, 1426 + 2 * k);
        formula_labels(k);
    }
}

/// The block under the label of a step and a layer holds the sixteen words
/// from byte 18 plus 128 per step and 32 per layer on.
#[verifier::spinoff_prover]
#[verifier::rlimit(60)]
pub proof fn blocks_hold_words(bytes: Seq<u8>, step: int, layer: int)
    requires
        bytes.len() >= 2064,
        0 <= step < 11,
        0 <= layer < 4,
    ensures
        ({
            let block = calibration_line(wire_line(bytes))->0.blocks[4 * step + layer];
            &&& block.len() == 16
            &&& forall|channel: int|
                0 <= channel < 16 ==> #[trigger] block[channel] == word(
                    bytes,
                    18 + 128 * step + 32 * layer + 2 * channel,
                )
        }),
{
    calibration_line_fields(bytes);
    blocks_bear_labels(step, layer);
    let start = 18 + 128 * step + 32 * layer;
    assert(block_table()[4 * step + layer].1 == start);
    let block = calibration_line(wire_line(bytes))->0.blocks[4 * step + layer];
    block_reads_back(bytes, start, 0);
    assert forall|channel: int| 0 <= channel < 16 implies #[trigger] block[channel] == word(
        bytes,
        18 + 128 * step + 32 * layer + 2 * channel,
    ) by {
        block_reads_back(bytes, start, channel);
    }
}

/// A line that is too short is no line.
pub proof fn short_calibration_lines_are_refused(tokens: Seq<Seq<char>>)
    requires
        tokens.len() < 2064,
    ensures
        calibration_line(tokens) is None,
{
}

proof fn nodes_of_steps(blocks: Seq<Seq<i32>>, n: nat, step: int, j: int)
    requires
        0 <= step < n,
        0 <= j < 5,
    ensures
        step_nodes(blocks, n).len() == 5 * n,
        step_nodes(blocks, n)[5 * step + j] == one_step(blocks, step)[j],
    decreases n,
{
    if n > 1 {
        nodes_of_steps(blocks, (n - 1) as nat, if step < n - 1 { step } else { 0 }, j);
    } else {
        assert(step_nodes(blocks, 0).len() == 0);
    }
}

/// The values of a step, in the object of its voltage, under the key of a
/// layer, are the block that the data table shows under the label of that step
/// and that layer.
#[verifier::spinoff_prover]
#[verifier::rlimit(60)]
pub proof fn steps_show_their_blocks(row: CalibrationRowView, step: int, layer: int)
    requires
        row.blocks.len() == 44,
        0 <= step < 11,
        0 <= layer < 4,
    ensures
        ({
            let nodes = calibration_nodes(row);
            let at = 9 + 5 * step;
            let outer = "calibration_voltage_step"@;
            let (name, key, start) = layer_names()[layer];
            let block = row.blocks[4 * step + layer];
            &&& nodes.len() >= 64
            &&& nodes[8] == (seq![outer], JsonView::Object)
            &&& nodes[at] == (seq![outer, voltage_key(step)], JsonView::Object)
            &&& nodes[at + 1 + layer] == (
                seq![outer, voltage_key(step), key],
                JsonView::Integers(block),
            )
            &&& calibration_cells(row)[7 + 4 * step + layer] == number_list(block)
            &&& calibration_titles()[7 + 4 * step + layer] == voltage_label(step, layer)
                + " (Byte "@ + int_text(18 + 128 * step + start) + "-"@ + int_text(
                18 + 128 * step + start + 31,
            ) + ")"@
        }),
{
    nodes_of_steps(row.blocks, 11, step, 0);
    nodes_of_steps(row.blocks, 11, step, 1 + layer);
    keys_of_steps(step);
    blocks_bear_labels(step, layer);
    let steps = step_nodes(row.blocks, 11);
    let nodes = calibration_nodes(row);
    assert(nodes[9 + 5 * step] == steps[5 * step]);
    assert(nodes[9 + 5 * step + 1 + layer] == steps[5 * step + 1 + layer]);
    calibration_fields_in_order();
    let title = |f: (Seq<char>, int)| byte_title(f.0, f.1, f.1 + 31);
    assert(calibration_titles()[7 + 4 * step + layer] == title(block_table()[4 * step + layer]));
}

/// A node of a line's row holds, under the voltage of a step and the key of a
/// layer, the words of the line at that step and layer.
#[verifier::spinoff_prover]
#[verifier::rlimit(60)]
pub proof fn steps_show_their_words(
    bytes: Seq<u8>,
    row: CalibrationRowView,
    step: int,
    layer: int,
)
    requires
        bytes.len() >= 2064,
        row.blocks == calibration_line(wire_line(bytes))->0.blocks,
        0 <= step < 11,
        0 <= layer < 4,
    ensures
        ({
            let node = calibration_nodes(row)[9 + 5 * step + 1 + layer];
            &&& node.0 == seq![
                "calibration_voltage_step"@,
                voltage_key(step),
                layer_names()[layer].1,
            ]
            &&& node.1 is Integers
            &&& node.1->Integers_0.len() == 16
            &&& forall|channel: int|
                0 <= channel < 16 ==> #[trigger] node.1->Integers_0[channel] == word(
                    bytes,
                    18 + 128 * step + layer_names()[layer].2 + 2 * channel,
                )
        }),
{
    calibration_line_fields(bytes);
    steps_show_their_blocks(row, step, layer);
    blocks_hold_words(bytes, step, layer);
    assert(layer_names()[layer].2 == 32 * layer);
}

/// A row without some of its blocks shows an empty list for each of them.
pub proof fn missing_blocks_are_empty(row: CalibrationRowView, step: int, layer: int)
    requires
        0 <= step < 11,
        0 <= layer < 4,
        row.blocks.len() <= 4 * step + layer,
    ensures
        calibration_nodes(row)[9 + 5 * step + 1 + layer] == (
            seq![
                "calibration_voltage_step"@,
                voltage_key(step),
                layer_names()[layer].1,
            ],
            JsonView::Integers(Seq::<i32>::empty()),
        ),
{
    nodes_of_steps(row.blocks, 11, step, 1 + layer);
    keys_of_steps(step);
    let steps = step_nodes(row.blocks, 11);
    assert(calibration_nodes(row)[9 + 5 * step + 1 + layer] == steps[5 * step + 1 + layer]);
}

} // verus!
