//! Every mode reads a line twice: once for its row in the data table, once for
//! what the lines add up to. The two readings agree.

use crate::baseline_data_table::samples_of;
use crate::calibration::data_processor::{block_table, blocks_of};
use crate::calibration::processing::step_values;
use crate::flux::data_processor::counts_of;
use crate::flux::processing::{flux_packet, pair_value, quad_value, readable};
use crate::hex::{all_digits, digit_value, digits_value};
use crate::io::baseline_file_service::{channels, digit_word, only_digits, sample};
use crate::line::{block_of, byte_at, pair_at};
use crate::observation::frame::nibble_of;
use vstd::prelude::*;

verus! {

/// The byte texts of a run of characters: two characters each.
pub open spec fn byte_texts(bytes: Seq<u8>) -> Seq<Seq<char>> {
    Seq::new(
        bytes.len() / 2,
        |k: int| seq![bytes[2 * k] as char, bytes[2 * k + 1] as char],
    )
}

proof fn digit_agrees(b: u8)
    ensures
        match nibble_of(b) {
            Some(d) => digit_value(b as char) == Some(d as int),
            None => digit_value(b as char) is None,
        },
{
}

proof fn pair_agrees(bytes: Seq<u8>, k: int)
    requires
        0 <= k,
        pair_value(bytes, 2 * k) is Some,
    ensures
        byte_at(byte_texts(bytes), k) == pair_value(bytes, 2 * k)->0,
{
    let high = bytes[2 * k];
    let low = bytes[2 * k + 1];
    let text = seq![high as char, low as char];
    assert(byte_texts(bytes)[k] == text);
    digit_agrees(high);
    digit_agrees(low);
    reveal_with_fuel(digits_value, 3);
    if nibble_of(high) is Some {
        assert(text.drop_last() =~= seq![high as char]);
        assert(text.drop_last().drop_last() =~= Seq::<char>::empty());
        assert(all_digits(text));
    } else {
        assert(text.drop_first() =~= seq![low as char]);
        assert(text.drop_first().drop_last() =~= Seq::<char>::empty());
        assert(all_digits(text.drop_first()));
    }
}

proof fn quad_agrees(bytes: Seq<u8>, k: int)
    requires
        0 <= k,
        readable(bytes, k),
        readable(bytes, k + 1),
    ensures
        pair_at(byte_texts(bytes), k) == quad_value(bytes, 2 * k),
        0 <= quad_value(bytes, 2 * k) < 65536,
{
    pair_agrees(bytes, k);
    pair_agrees(bytes, k + 1);
}

/// A flux packet and the table row of the same line name the same time, counts
/// and slots.
pub proof fn flux_readers_agree(bytes: Seq<u8>)
    requires
        flux_packet(bytes) is Some,
    ensures
        flux_packet(bytes)->0.time_millis == pair_at(byte_texts(bytes), 16),
        flux_packet(bytes)->0.counting == counts_of(byte_texts(bytes)),
        forall|i: int|
            0 <= i < 1000 ==> (#[trigger] flux_packet(bytes)->0.layer[i]) == pair_at(
                byte_texts(bytes),
                32 + 2 * i,
            ) / 8192,
        forall|i: int|
            0 <= i < 1000 ==> (#[trigger] flux_packet(bytes)->0.offset_time[i]) == pair_at(
                byte_texts(bytes),
                32 + 2 * i,
            ) % 4096,
{
    let tokens = byte_texts(bytes);
    assert(readable(bytes, 16) && readable(bytes, 17));
    quad_agrees(bytes, 16);
    assert forall|i: int| 0 <= i < 7 implies #[trigger] flux_packet(bytes)->0.counting[i]
        == counts_of(tokens)[i] by {
        assert(readable(bytes, 18 + 2 * i) && readable(bytes, 18 + 2 * i + 1));
        quad_agrees(bytes, 18 + 2 * i);
    }
    assert(flux_packet(bytes)->0.counting =~= counts_of(tokens));
    assert forall|i: int| 0 <= i < 1000 implies (#[trigger] flux_packet(bytes)->0.layer[i])
        == pair_at(tokens, 32 + 2 * i) / 8192 by {
        assert(readable(bytes, 32 + 2 * i) && readable(bytes, 32 + 2 * i + 1));
        quad_agrees(bytes, 32 + 2 * i);
    }
    assert forall|i: int| 0 <= i < 1000 implies (#[trigger] flux_packet(bytes)->0.offset_time[i])
        == pair_at(tokens, 32 + 2 * i) % 4096 by {
        assert(readable(bytes, 32 + 2 * i) && readable(bytes, 32 + 2 * i + 1));
        quad_agrees(bytes, 32 + 2 * i);
    }
}

proof fn word_agrees(segment: Seq<u8>, k: int)
    requires
        0 <= k,
        2 * k + 4 <= segment.len(),
        only_digits(segment),
    ensures
        pair_at(byte_texts(segment), k) == digit_word(segment, 2 * k),
{
    assert(nibble_of(segment[2 * k]) is Some && nibble_of(segment[2 * k + 1]) is Some);
    assert(nibble_of(segment[2 * k + 2]) is Some && nibble_of(segment[2 * k + 3]) is Some);
    quad_agrees(segment, k);
}

proof fn block_agrees(segment: Seq<u8>, k: int)
    requires
        0 <= k,
        2 * k + 64 <= segment.len(),
        only_digits(segment),
    ensures
        block_of(byte_texts(segment), k) == channels(segment, 2 * k),
{
    assert forall|j: int| 0 <= j < 16 implies #[trigger] block_of(byte_texts(segment), k)[j]
        == channels(segment, 2 * k)[j] by {
        word_agrees(segment, k + 2 * j);
    }
    assert(block_of(byte_texts(segment), k) =~= channels(segment, 2 * k));
}

/// A sample of a baseline segment and the table row of the same line hold the
/// same packet number and channel values.
pub proof fn baseline_readers_agree(segment: Seq<u8>, i: int)
    requires
        segment.len() == 4128,
        only_digits(segment),
        0 <= i < 15,
    ensures
        sample(segment, i).packet == pair_at(byte_texts(segment), 16),
        sample(segment, i).l1 == samples_of(byte_texts(segment), 18)[i],
        sample(segment, i).l2 == samples_of(byte_texts(segment), 50)[i],
        sample(segment, i).l6 == samples_of(byte_texts(segment), 978)[i],
        sample(segment, i).l7 == samples_of(byte_texts(segment), 1010)[i],
{
    word_agrees(segment, 16);
    block_agrees(segment, 18 + 64 * i);
    block_agrees(segment, 50 + 64 * i);
    block_agrees(segment, 978 + 64 * i);
    block_agrees(segment, 1010 + 64 * i);
}

/// What a calibration line adds to a channel at a voltage step is what the
/// table row of the line shows for it.
pub proof fn calibration_readers_agree(
    tokens: Seq<Seq<char>>,
    layer: int,
    channel: int,
    steps: nat,
    step: int,
)
    requires
        0 <= layer < 4,
        0 <= channel < 16,
        0 <= step < steps <= 11,
    ensures
        step_values(tokens, layer, channel, steps)[step] == blocks_of(tokens)[4 * step
            + layer][channel],
{
    let k = 4 * step + layer;
    assert(block_table()[k].1 == 18 + 128 * step + 32 * layer);
    assert(blocks_of(tokens)[k] == block_of(tokens, block_table()[k].1));
}

} // verus!
