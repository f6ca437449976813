//! What the analyses of baseline samples compute, sample by sample.

use crate::baseline_data_table::{baseline_line, baseline_tail_table, samples_of};
use crate::baseline_processing::{
    channel_sum, coincidences, mean_file, strongest, strongest_is_first_greatest,
};
use crate::tail::TailView;
use crate::text::int_text;
use crate::wire::{
    block_reads_back, header_reads_back, span_reads_back, time_reads_back, wire_chars, wire_line,
    wire_text, word, word_reads_back,
};
use vstd::prelude::*;

verus! {

/// No samples add up to nothing, one sample to its own values, and a further
/// sample raises the sum of every channel by its value in that channel.
pub proof fn sums_grow_by_samples(samples: Seq<[i32; 16]>, sample: [i32; 16], channel: int)
    requires
        0 <= channel < 16,
    ensures
        channel_sum(Seq::empty(), channel) == 0,
        channel_sum(seq![sample], channel) == sample@[channel],
        channel_sum(samples.push(sample), channel) == channel_sum(samples, channel)
            + sample@[channel],
{
    reveal_with_fuel(channel_sum, 2);
    assert(seq![sample].drop_last() =~= Seq::<[i32; 16]>::empty());
    assert(samples.push(sample).drop_last() =~= samples);
}

/// Where every sample holds the same value in a channel, the channel's sum is
/// that value times the number of samples.
pub proof fn equal_values_have_their_mean(samples: Seq<[i32; 16]>, channel: int, value: int)
    requires
        0 <= channel < 16,
        forall|i: int| 0 <= i < samples.len() ==> (#[trigger] samples[i])@[channel] == value,
    ensures
        channel_sum(samples, channel) == value * samples.len(),
    decreases samples.len(),
{
    if samples.len() > 0 {
        let front = samples.drop_last();
        assert forall|i: int| 0 <= i < front.len() implies (#[trigger] front[i])@[channel]
            == value by {
            assert(front[i] == samples[i]);
        }
        assert(samples[samples.len() - 1]@[channel] == value);
        equal_values_have_their_mean(front, channel, value);
        assert(value * (samples.len() - 1) + value == value * samples.len()) by (nonlinear_arith);
    }
}

/// A channel's sum depends on the values of that channel alone.
pub proof fn channels_do_not_mix(samples: Seq<[i32; 16]>, changed: Seq<[i32; 16]>, channel: int)
    requires
        0 <= channel < 16,
        samples.len() == changed.len(),
        forall|i: int|
            0 <= i < samples.len() ==> (#[trigger] samples[i])@[channel] == changed[i]@[channel],
    ensures
        channel_sum(samples, channel) == channel_sum(changed, channel),
    decreases samples.len(),
{
    if samples.len() > 0 {
        let front = samples.drop_last();
        let other = changed.drop_last();
        assert forall|i: int| 0 <= i < front.len() implies (#[trigger] front[i])@[channel]
            == other[i]@[channel] by {
            assert(front[i] == samples[i]);
            assert(other[i] == changed[i]);
        }
        assert(samples[samples.len() - 1]@[channel] == changed[samples.len() - 1]@[channel]);
        channels_do_not_mix(front, other, channel);
    }
}

/// Value `k` of the eight from `from` on is the first that no other exceeds.
pub open spec fn first_greatest(values: Seq<i32>, from: int, k: int) -> bool {
    &&& 0 <= k < 8
    &&& forall|i: int| from <= i < from + 8 ==> #[trigger] values[i] <= values[from + k]
    &&& forall|i: int| from <= i < from + k ==> #[trigger] values[i] < values[from + k]
}

/// A sample counts once: in the row of the first greatest of its channels 8 to
/// 15, and the column of the first greatest of its channels 0 to 7.
pub proof fn samples_count_once(samples: Seq<[i32; 16]>, sample: [i32; 16], z: int, x: int)
    requires
        0 <= z < 8,
        0 <= x < 8,
    ensures
        coincidences(Seq::empty(), z, x) == 0,
        coincidences(samples.push(sample), z, x) == coincidences(samples, z, x) + (if first_greatest(
            sample@,
            0,
            x,
        ) && first_greatest(sample@, 8, z) {
            1int
        } else {
            0int
        }),
{
    assert(samples.push(sample).drop_last() =~= samples);
    strongest_is_the_first_greatest(sample@, 0, x);
    strongest_is_the_first_greatest(sample@, 8, z);
}

proof fn strongest_is_the_first_greatest(values: Seq<i32>, from: int, k: int)
    requires
        values.len() == 16,
        from == 0 || from == 8,
        0 <= k < 8,
    ensures
        (strongest(values, from, 8) == k) == first_greatest(values, from, k),
{
    strongest_is_first_greatest(values, from, 8);
    let best = strongest(values, from, 8);
    if first_greatest(values, from, k) {
        assert(values[from + best] <= values[from + k]);
        assert(values[from + k] <= values[from + best]);
    }
}

/// The means of a layer are kept in the file that bears its number.
pub proof fn mean_files(layer_id: int)
    ensures
        mean_file(layer_id) == "MeanValues"@ + int_text(layer_id) + ".txt"@,
{
}

/// A line that is too short is no line.
pub proof fn short_baseline_lines_are_refused(tokens: Seq<Seq<char>>)
    requires
        tokens.len() < 2064,
    ensures
        baseline_line(tokens) is None,
{
}

/// The labels of the housekeeping fields of a line, in their order.
pub open spec fn baseline_labels() -> Seq<Seq<char>> {
    seq![
        "DSSD 1 Temperature"@,
        "FEE1 Current"@,
        "FEE1 Temperature"@,
        "DSSD 7 Temperature"@,
        "FEE2 Current"@,
        "FEE2 Temperature"@,
        "FEE1 Threshold"@,
        "FEE2 Threshold"@,
        "DSSD 1 Temperature (dup)"@,
        "DSSD 4 Temperature"@,
    ]
}

/// A whole line: the header and time, the sample index in bytes 16 and 17, in
/// block `k` of L1, L2, L6 and L7 the sixteen words from bytes 18, 50, 978 and
/// 1010 plus 64 times `k` on, ten readings from byte 1938 on, and the spans
/// behind them.
#[verifier::spinoff_prover]
#[verifier::rlimit(60)]
pub proof fn baseline_line_fields(bytes: Seq<u8>)
    requires
        bytes.len() >= 2064,
    ensures
        ({
            let line = baseline_line(wire_line(bytes))->0;
            &&& baseline_line(wire_line(bytes)) is Some
            &&& line.header.packet_sync == wire_text(bytes[0]) + wire_text(bytes[1])
            &&& line.header.package_id == word(bytes, 2)
            &&& line.header.packet_sequence == word(bytes, 4)
            &&& line.header.packet_data_length == word(bytes, 6)
            &&& line.header.data_type == wire_text(bytes[14]) + wire_text(bytes[15])
            &&& line.time == 1_727_740_800_000 + 1000 * (65536 * word(bytes, 8) + word(bytes, 10))
            &&& line.sample_index == word(bytes, 16)
            &&& words_in_blocks(line.l1_blocks, bytes, 18)
            &&& words_in_blocks(line.l2_blocks, bytes, 50)
            &&& words_in_blocks(line.l6_blocks, bytes, 978)
            &&& words_in_blocks(line.l7_blocks, bytes, 1010)
            &&& line.reserved == wire_chars(bytes.subrange(1958, 2062))
            &&& line.checksum == wire_chars(bytes.subrange(2062, 2064))
            &&& line.tail.len() == 10
            &&& forall|k: int|
                0 <= k < 10 ==> #[trigger] line.tail[k] == (if k == 5 {
                    TailView::Formula(word(bytes, 1938 + 2 * k))
                } else {
                    TailView::Decimal(word(bytes, 1938 + 2 * k))
                })
        }),
{
    header_reads_back(bytes);
    time_reads_back(bytes);
    word_reads_back(bytes, 16);
    let line = baseline_line(wire_line(bytes))->0;
    blocks_hold_words(line.l1_blocks, bytes, 18);
    blocks_hold_words(line.l2_blocks, bytes, 50);
    blocks_hold_words(line.l6_blocks, bytes, 978);
    blocks_hold_words(line.l7_blocks, bytes, 1010);
    span_reads_back(bytes, 1958, 104);
    span_reads_back(bytes, 2062, 2);
    baseline_fields_in_order();
    assert forall|k: int| 0 <= k < 10 implies #[trigger] line.tail[k] == (if k == 5 {
        TailView::Formula(word(bytes, 1938 + 2 * k))
    } else {
        TailView::Decimal(word(bytes, 1938 + 2 * k))
    }) by {
        assert(baseline_tail_table()[k] == (baseline_labels()[k], 1938 + 2 * k));
        word_reads_back(bytes, 1938 + 2 * k);
        only_the_second_board_is_read_by_formula(k);
    }
}

#[verifier::spinoff_prover]
#[verifier::rlimit(60)]
proof fn only_the_second_board_is_read_by_formula(k: int)
    requires
        0 <= k < 10,
    ensures
        (baseline_labels()[k] == "FEE2 Temperature"@) == (k == 5),
        baseline_labels()[k] != "BGO1 Bias Voltage"@,
        baseline_labels()[k] != "BGO2 Bias Voltage"@,
        baseline_labels()[k] != "BGO3 Bias Voltage"@,
        baseline_labels()[k] != "BGO2 Temperature"@,
{
    reveal_strlit("DSSD 1 Temperature");
    reveal_strlit("FEE1 Current");
    reveal_strlit("FEE1 Temperature");
    reveal_strlit("DSSD 7 Temperature");
    reveal_strlit("FEE2 Current");
    reveal_strlit("FEE2 Temperature");
    reveal_strlit("FEE1 Threshold");
    reveal_strlit("FEE2 Threshold");
    reveal_strlit("DSSD 1 Temperature (dup)");
    reveal_strlit("DSSD 4 Temperature");
    reveal_strlit("BGO1 Bias Voltage");
    reveal_strlit("BGO2 Bias Voltage");
    reveal_strlit("BGO3 Bias Voltage");
    reveal_strlit("BGO2 Temperature");
    let label = baseline_labels()[k];
    assert(label[0] == 'D' || label[0] == 'F');
    assert("FEE2 Temperature"@[3] == '2' && "FEE2 Temperature"@[6] == 'e'
        && "FEE2 Temperature"@.len() == 16);
    if k != 5 {
        assert(label[0] == 'D' || label[3] == '1' || label.len() != 16);
    }
}

/// The housekeeping fields stand one behind the other from byte 1938 on.
pub proof fn baseline_fields_in_order()
    ensures
        baseline_tail_table().len() == 10,
        forall|k: int|
            0 <= k < 10 ==> #[trigger] baseline_tail_table()[k] == (
                baseline_labels()[k],
                1938 + 2 * k,
            ),
{
    reveal(baseline_tail_table);
}

/// Fifteen blocks of sixteen words, 64 bytes apart.
pub open spec fn words_in_blocks(blocks: Seq<Seq<i32>>, bytes: Seq<u8>, start: int) -> bool {
    &&& blocks.len() == 15
    &&& forall|k: int| 0 <= k < 15 ==> (#[trigger] blocks[k]).len() == 16
    &&& forall|k: int, channel: int|
        0 <= k < 15 && 0 <= channel < 16 ==> #[trigger] blocks[k][channel] == word(
            bytes,
            start + 64 * k + 2 * channel,
        )
}

proof fn blocks_hold_words(blocks: Seq<Seq<i32>>, bytes: Seq<u8>, start: int)
    requires
        bytes.len() >= 2064,
        0 <= start <= 1010,
        blocks == samples_of(wire_line(bytes), start),
    ensures
        words_in_blocks(blocks, bytes, start),
{
    assert forall|k: int| 0 <= k < 15 implies (#[trigger] blocks[k]).len() == 16 by {
        block_reads_back(bytes, start + 64 * k, 0);
    }
    assert forall|k: int, channel: int|
        0 <= k < 15 && 0 <= channel < 16 implies #[trigger] blocks[k][channel] == word(
        bytes,
        start + 64 * k + 2 * channel,
    ) by {
        block_reads_back(bytes, start + 64 * k, channel);
    }
}

} // verus!
