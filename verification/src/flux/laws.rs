//! What flux packets and flux lines say, in terms of the bytes that they write.

use crate::clock::header_time;
use crate::flux::data_processor::{flux_line, flux_tail, flux_tail_table};
use crate::flux::processing::{
    byte_sum, checksum_text, flux_packet, layer_counts, packet_readable, packet_report, pair_value,
    quad_value, readable, text_time, titled_pair, FluxAccumulator,
};
use crate::hex::{all_digits, digit_of, digits_value, hex_number, word_text};
use crate::series::series_views;
use crate::tail::TailView;
use crate::text::{int_text, same_ignoring_case, upper};
use crate::wire::{
    byte_reads_back, digit_reads_back, header_reads_back, span_reads_back, time_reads_back,
    wire_bytes, wire_chars, wire_digit, wire_line, wire_text, wire_text_is_byte_text, word,
    word_reads_back,
};
use vstd::prelude::*;

verus! {

/// Two characters of a text of digits are a byte, and four a word.
pub proof fn digits_are_bytes(bytes: Seq<u8>, i: int)
    requires
        0 <= i < bytes.len(),
    ensures
        pair_value(wire_bytes(bytes), 2 * i) == Some(bytes[i]),
        readable(wire_bytes(bytes), i),
{
    let b = bytes[i] as int;
    digit_reads_back(b / 16);
    digit_reads_back(b % 16);
    assert(wire_bytes(bytes)[2 * i] == wire_digit(b / 16) as u8);
    assert(wire_bytes(bytes)[2 * i + 1] == wire_digit(b % 16) as u8) by {
        assert((2 * i + 1) / 2 == i);
    }
}

proof fn digits_are_words(bytes: Seq<u8>, i: int)
    requires
        0 <= i,
        i + 1 < bytes.len(),
    ensures
        quad_value(wire_bytes(bytes), 2 * i) == word(bytes, i),
        0 <= word(bytes, i) < 65536,
{
    digits_are_bytes(bytes, i);
    digits_are_bytes(bytes, i + 1);
}

/// A packet of 2032 bytes or more: the time in bytes 16 and 17, the counts of
/// the seven layers from byte 18 on, and the thousand slots from byte 32 on,
/// with the layer in the top three bits and the offset time in the low twelve.
#[verifier::spinoff_prover]
#[verifier::rlimit(60)]
pub proof fn packet_fields(bytes: Seq<u8>)
    requires
        bytes.len() >= 2032,
    ensures
        ({
            let packet = flux_packet(wire_bytes(bytes))->0;
            &&& flux_packet(wire_bytes(bytes)) is Some
            &&& packet.time_millis == word(bytes, 16)
            &&& packet.counting.len() == 7
            &&& packet.layer.len() == 1000
            &&& packet.offset_time.len() == 1000
            &&& forall|i: int|
                0 <= i < 7 ==> #[trigger] packet.counting[i] == word(bytes, 18 + 2 * i)
            &&& forall|i: int|
                0 <= i < 1000 ==> #[trigger] packet.layer[i] == word(bytes, 32 + 2 * i) / 8192
            &&& forall|i: int|
                0 <= i < 1000 ==> #[trigger] packet.offset_time[i] == word(bytes, 32 + 2 * i)
                    % 4096
        }),
{
    let text = wire_bytes(bytes);
    assert forall|k: int| 16 <= k < 2032 implies #[trigger] readable(text, k) by {
        digits_are_bytes(bytes, k);
    }
    digits_are_words(bytes, 16);
    let packet = flux_packet(text)->0;
    assert forall|i: int| 0 <= i < 7 implies #[trigger] packet.counting[i] == word(
        bytes,
        18 + 2 * i,
    ) by {
        digits_are_words(bytes, 18 + 2 * i);
    }
    assert forall|i: int| 0 <= i < 1000 implies #[trigger] packet.layer[i] == word(
        bytes,
        32 + 2 * i,
    ) / 8192 by {
        digits_are_words(bytes, 32 + 2 * i);
    }
    assert forall|i: int| 0 <= i < 1000 implies #[trigger] packet.offset_time[i] == word(
        bytes,
        32 + 2 * i,
    ) % 4096 by {
        digits_are_words(bytes, 32 + 2 * i);
    }
}

/// The character is a digit, in either case.
pub open spec fn digit_byte(b: u8) -> bool {
    48 <= b <= 57 || 65 <= b <= 70 || 97 <= b <= 102
}

/// A text is a packet exactly where it has its 4064 characters and each pair of
/// them from the sixteenth on is two digits, or a plus sign and a digit.
#[verifier::spinoff_prover]
#[verifier::rlimit(60)]
pub proof fn accepted_packets(text: Seq<u8>)
    ensures
        flux_packet(text) is Some <==> text.len() >= 4064 && (forall|k: int|
            #![trigger text[2 * k]]
            16 <= k < 2032 ==> (digit_byte(text[2 * k]) || text[2 * k] == 43) && digit_byte(
                text[2 * k + 1],
            )),
{
    if text.len() >= 4064 {
        assert forall|k: int| 16 <= k < 2032 implies #[trigger] readable(text, k) == ((digit_byte(
            text[2 * k],
        ) || text[2 * k] == 43) && digit_byte(text[2 * k + 1])) by {}
        if packet_readable(text) {
            assert forall|k: int|
                #![trigger text[2 * k]]
                16 <= k < 2032 implies (digit_byte(text[2 * k]) || text[2 * k] == 43) && digit_byte(
                text[2 * k + 1],
            ) by {
                assert(readable(text, k));
            }
        }
        if forall|k: int|
            #![trigger text[2 * k]]
            16 <= k < 2032 ==> (digit_byte(text[2 * k]) || text[2 * k] == 43) && digit_byte(
                text[2 * k + 1],
            ) {
            assert forall|k: int| 16 <= k < 2032 implies #[trigger] readable(text, k) by {
                let first = text[2 * k];
                assert(digit_byte(text[2 * k + 1]));
            }
        }
    }
}

/// The lists of the accumulated packets, entry by entry: the time, the seven
/// counts, and the slots of packet `k` stand at place `k` of each list.
#[verifier::spinoff_prover]
#[verifier::rlimit(60)]
pub proof fn lists_hold_packets(flux: FluxAccumulator, k: int)
    requires
        flux.wf(),
        0 <= k < flux.all_results@.len(),
    ensures
        flux.time_millis_list@.len() == flux.all_results@.len(),
        flux.time_millis_list@[k] == flux.all_results@[k].time_millis,
        flux.particle_counting_lists@.len() == 7,
        forall|layer: int|
            #![trigger flux.particle_counting_lists@[layer]]
            0 <= layer < 7 ==> flux.particle_counting_lists@[layer]@.len()
                == flux.all_results@.len() && flux.particle_counting_lists@[layer]@[k]
                == flux.all_results@[k].particle_counting@[layer],
        flux.particle_layer_list@.len() == flux.all_results@.len(),
        flux.particle_layer_list@[k]@ == flux.all_results@[k].particle_layer@,
        flux.particle_offset_time_list@.len() == flux.all_results@.len(),
        flux.particle_offset_time_list@[k]@ == flux.all_results@[k].particle_offset_time@,
{
    let results = flux.all_results@;
    assert(flux@[k] == results[k]@);
    assert(flux@.len() == results.len());
    assert(flux.time_millis_list@[k] == flux@[k].time_millis as i32);
    assert(series_views(flux.particle_counting_lists@).len() == 7);
    assert forall|layer: int|
        #![trigger flux.particle_counting_lists@[layer]]
        0 <= layer < 7 implies flux.particle_counting_lists@[layer]@.len() == results.len()
        && flux.particle_counting_lists@[layer]@[k] == results[k].particle_counting@[layer] by {
        assert(series_views(flux.particle_counting_lists@)[layer]
            == flux.particle_counting_lists@[layer]@);
        assert(layer_counts(flux@, layer)[k] == flux@[k].counting[layer]);
    }
    assert(series_views(flux.particle_layer_list@).len()
        == flux.particle_layer_list@.len());
    assert(series_views(flux.particle_offset_time_list@).len()
        == flux.particle_offset_time_list@.len());
    assert(series_views(flux.particle_layer_list@)[k]
        == flux.particle_layer_list@[k]@);
    assert(series_views(flux.particle_offset_time_list@)[k]
        == flux.particle_offset_time_list@[k]@);
}

/// Where packet `k` was written as bytes, the lists hold at place `k` the words
/// of these bytes.
#[verifier::spinoff_prover]
#[verifier::rlimit(60)]
pub proof fn lists_hold_words(flux: FluxAccumulator, k: int, bytes: Seq<u8>)
    requires
        flux.wf(),
        0 <= k < flux.all_results@.len(),
        bytes.len() >= 2032,
        Some(flux@[k]) == flux_packet(wire_bytes(bytes)),
    ensures
        flux.time_millis_list@[k] == word(bytes, 16),
        forall|layer: int|
            #![trigger flux.particle_counting_lists@[layer]]
            0 <= layer < 7 ==> flux.particle_counting_lists@[layer]@[k] == word(
                bytes,
                18 + 2 * layer,
            ),
        forall|i: int|
            0 <= i < 1000 ==> #[trigger] flux.particle_layer_list@[k]@[i] == word(
                bytes,
                32 + 2 * i,
            ) / 8192,
        forall|i: int|
            0 <= i < 1000 ==> #[trigger] flux.particle_offset_time_list@[k]@[i] == word(
                bytes,
                32 + 2 * i,
            ) % 4096,
{
    packet_fields(bytes);
    lists_hold_packets(flux, k);
    assert(flux@[k] == flux.all_results@[k]@);
    let packet = flux_packet(wire_bytes(bytes))->0;
    assert forall|layer: int|
        #![trigger flux.particle_counting_lists@[layer]]
        0 <= layer < 7 implies flux.particle_counting_lists@[layer]@[k] == word(
        bytes,
        18 + 2 * layer,
    ) by {
        assert(packet.counting[layer] == word(bytes, 18 + 2 * layer));
    }
    assert forall|i: int| 0 <= i < 1000 implies #[trigger] flux.particle_layer_list@[k]@[i]
        == word(bytes, 32 + 2 * i) / 8192 by {
        assert(packet.layer[i] == word(bytes, 32 + 2 * i) / 8192);
    }
    assert forall|i: int| 0 <= i < 1000 implies #[trigger] flux.particle_offset_time_list@[k]@[i]
        == word(bytes, 32 + 2 * i) % 4096 by {
        assert(packet.offset_time[i] == word(bytes, 32 + 2 * i) % 4096);
    }
}

/// The instant of a text: the seconds in bytes 8 to 11, counted from
/// 1970-01-01, and the milliseconds in bytes 12 and 13; 0 for a shorter text.
pub proof fn text_time_fields(bytes: Seq<u8>)
    ensures
        text_time(wire_bytes(bytes)) == (if bytes.len() >= 14 {
            1000 * (65536 * word(bytes, 8) + word(bytes, 10)) + word(bytes, 12)
        } else {
            0
        }),
{
    if bytes.len() >= 14 {
        assert forall|k: int| 8 <= k < 14 implies #[trigger] readable(wire_bytes(bytes), k) by {
            digits_are_bytes(bytes, k);
        }
        digits_are_words(bytes, 8);
        digits_are_words(bytes, 10);
        digits_are_words(bytes, 12);
    }
}

/// The labels of the housekeeping fields of a line, in their order.
pub open spec fn flux_labels() -> Seq<Seq<char>> {
    seq![
        "DSSD 1 Temperature"@,
        "FEE1 Current"@,
        "FEE1 Temperature"@,
        "DSSD 7 Temperature"@,
        "FEE2 Current"@,
        "FEE2 Temperature"@,
        "FEE1 Threshold"@,
        "FEE2 Threshold"@,
        "BGO1 Bias Voltage"@,
        "BGO2 Bias Voltage"@,
        "BGO3 Bias Voltage"@,
        "BGO2 Temperature"@,
    ]
}

/// The housekeeping fields stand one behind the other from byte 2032 on.
pub proof fn flux_fields_in_order()
    ensures
        flux_tail_table().len() == 12,
        forall|k: int|
            0 <= k < 12 ==> #[trigger] flux_tail_table()[k] == (flux_labels()[k], 2032 + 2 * k),
{
    reveal(flux_tail_table);
}

#[verifier::spinoff_prover]
#[verifier::rlimit(60)]
proof fn formula_labels(k: int)
    requires
        0 <= k < 12,
    ensures
        (flux_labels()[k] == "FEE2 Temperature"@) == (k == 5),
        k < 8 ==> flux_labels()[k] != "BGO1 Bias Voltage"@ && flux_labels()[k]
            != "BGO2 Bias Voltage"@ && flux_labels()[k] != "BGO3 Bias Voltage"@
            && flux_labels()[k] != "BGO2 Temperature"@,
{
    reveal_strlit("DSSD 1 Temperature");
    reveal_strlit("FEE1 Current");
    reveal_strlit("FEE1 Temperature");
    reveal_strlit("DSSD 7 Temperature");
    reveal_strlit("FEE2 Current");
    reveal_strlit("FEE2 Temperature");
    reveal_strlit("FEE1 Threshold");
    reveal_strlit("FEE2 Threshold");
    reveal_strlit("BGO1 Bias Voltage");
    reveal_strlit("BGO2 Bias Voltage");
    reveal_strlit("BGO3 Bias Voltage");
    reveal_strlit("BGO2 Temperature");
    let label = flux_labels()[k];
    assert("FEE2 Temperature"@[3] == '2' && "FEE2 Temperature"@.len() == 16
        && "FEE2 Temperature"@[0] == 'F');
    if k < 8 {
        assert(label[0] == 'D' || label[0] == 'F');
    } else {
        assert(label[0] == 'B');
    }
    if k != 5 {
        assert(label[0] == 'D' || label[0] == 'B' || label[3] == '1' || label.len() != 16);
    }
}

/// A whole line: the header and time, the particle time in bytes 16 and 17,
/// the seven counts from byte 18 on, the thousand slots from byte 32 on in
/// decimal, twelve readings from byte 2032 on, and the spans behind them.
#[verifier::spinoff_prover]
#[verifier::rlimit(30)]
pub proof fn flux_line_fields(bytes: Seq<u8>)
    requires
        bytes.len() >= 2064,
    ensures
        ({
            let line = flux_line(wire_line(bytes))->0;
            &&& flux_line(wire_line(bytes)) is Some
            &&& line.header.packet_sync == wire_text(bytes[0]) + wire_text(bytes[1])
            &&& line.header.package_id == word(bytes, 2)
            &&& line.header.packet_sequence == word(bytes, 4)
            &&& line.header.packet_data_length == word(bytes, 6)
            &&& line.header.data_type == wire_text(bytes[14]) + wire_text(bytes[15])
            &&& line.time == 1_727_740_800_000 + 1000 * (65536 * word(bytes, 8) + word(bytes, 10))
            &&& line.particle_time == word(bytes, 16)
            &&& line.particle_counts.len() == 7
            &&& forall|i: int|
                0 <= i < 7 ==> #[trigger] line.particle_counts[i] == word(bytes, 18 + 2 * i)
            &&& line.particle_info.len() == 1000
            &&& forall|i: int|
                0 <= i < 1000 ==> #[trigger] line.particle_info[i] == int_text(
                    word(bytes, 32 + 2 * i),
                )
            &&& line.reserved == wire_chars(bytes.subrange(2056, 2062))
            &&& line.checksum == wire_chars(bytes.subrange(2062, 2064))
            &&& line.tail.len() == 12
            &&& forall|k: int|
                0 <= k < 12 ==> #[trigger] line.tail[k] == (if k == 5 {
                    TailView::Formula(word(bytes, 2032 + 2 * k))
                } else if k >= 8 {
                    TailView::FormulaHundredth(word(bytes, 2032 + 2 * k))
                } else {
                    TailView::Decimal(word(bytes, 2032 + 2 * k))
                })
        }),
{
    header_reads_back(bytes);
    time_reads_back(bytes);
    word_reads_back(bytes, 16);
    let line = flux_line(wire_line(bytes))->0;
    assert forall|i: int| 0 <= i < 7 implies #[trigger] line.particle_counts[i] == word(
        bytes,
        18 + 2 * i,
    ) by {
        word_reads_back(bytes, 18 + 2 * i);
    }
    assert forall|i: int| 0 <= i < 1000 implies #[trigger] line.particle_info[i] == int_text(
        word(bytes, 32 + 2 * i),
    ) by {
        word_reads_back(bytes, 32 + 2 * i);
    }
    span_reads_back(bytes, 2056, 6);
    span_reads_back(bytes, 2062, 2);
    flux_tail_fields_read(bytes);
}

proof fn flux_tail_fields_read(bytes: Seq<u8>)
    requires
        bytes.len() >= 2064,
    ensures
        flux_tail(wire_line(bytes)).len() == 12,
        forall|k: int|
            0 <= k < 12 ==> #[trigger] flux_tail(wire_line(bytes))[k] == (if k == 5 {
                TailView::Formula(word(bytes, 2032 + 2 * k))
            } else if k >= 8 {
                TailView::FormulaHundredth(word(bytes, 2032 + 2 * k))
            } else {
                TailView::Decimal(word(bytes, 2032 + 2 * k))
            }),
{
    flux_fields_in_order();
    assert forall|k: int| 0 <= k < 12 implies #[trigger] flux_tail(wire_line(bytes))[k] == (if k
        == 5 {
        TailView::Formula(word(bytes, 2032 + 2 * k))
    } else if k >= 8 {
        TailView::FormulaHundredth(word(bytes, 2032 + 2 * k))
    } else {
        TailView::Decimal(word(bytes, 2032 + 2 * k))
    }) by {
        assert(flux_tail_table()[k] == (flux_labels()[k], 2032 + 2 * k));
        word_reads_back(bytes, 2032 + 2 * k);
        formula_labels(k);
    }
}

/// A line that is too short is no line, and no packet header is reported.
pub proof fn short_flux_lines_are_refused(tokens: Seq<Seq<char>>)
    requires
        tokens.len() < 2064,
    ensures
        flux_line(tokens) is None,
        packet_report(tokens) is None,
{
}

/// The sum of bytes.
pub open spec fn sum_of(bytes: Seq<u8>) -> int
    decreases bytes.len(),
{
    if bytes.len() == 0 {
        0
    } else {
        sum_of(bytes.drop_last()) + bytes.last()
    }
}

proof fn byte_sum_is_sum(bytes: Seq<u8>, n: nat)
    requires
        8 + n <= bytes.len(),
    ensures
        byte_sum(wire_line(bytes), n) == sum_of(bytes.subrange(8, 8 + n as int)),
    decreases n,
{
    if n > 0 {
        byte_sum_is_sum(bytes, (n - 1) as nat);
        let b = bytes[8 + n - 1];
        wire_text_is_byte_text(b);
                byte_as_long(b);
        assert(bytes.subrange(8, 8 + n as int).drop_last() =~= bytes.subrange(8, 8 + n - 1));
    }
}

proof fn byte_as_long(b: u8)
    ensures
        hex_number(wire_text(b), i64::MIN as int, i64::MAX as int) == Some(b as int),
{
    reveal_strlit("0123456789ABCDEF");
    let s = wire_text(b);
    reveal_with_fuel(digits_value, 3);
    assert(s.drop_last() =~= seq![wire_digit(b as int / 16)]);
    assert(s.drop_last().drop_last() =~= Seq::<char>::empty());
    assert(all_digits(s));
}

/// The report on a packet of 2064 bytes or more: each title with the digits of
/// its two bytes, and that the checksum matches exactly where bytes 2062 and
/// 2063 hold the low sixteen bits of the sum of bytes 8 to 2061.
#[verifier::spinoff_prover]
#[verifier::rlimit(60)]
pub proof fn report_fields(bytes: Seq<u8>)
    requires
        bytes.len() >= 2064,
    ensures
        ({
            let report = packet_report(wire_line(bytes))->0;
            let shown = |i: int| wire_text(bytes[i]) + " "@ + wire_text(bytes[i + 1]);
            &&& packet_report(wire_line(bytes)) is Some
            &&& report.packet_sync == "Packet Synchronization Code: "@ + shown(0)
            &&& report.package_id == "Package Identification: "@ + shown(2)
            &&& report.packet_seq == "Packet Sequence: "@ + shown(4)
            &&& report.packet_data_len == "Packet data length: "@ + shown(6)
            &&& report.timestamp == "Timestamp: "@ + header_time(
                1000 * (65536 * word(bytes, 8) + word(bytes, 10)) + word(bytes, 12),
            )
            &&& report.data_type == "Data Type: "@ + shown(14)
            &&& report.check_sum_hex == "Check Sum: "@ + shown(2062)
            &&& report.checksum_matches == (sum_of(bytes.subrange(8, 2062)) % 65536 == word(
                bytes,
                2062,
            ))
        }),
{
    let tokens = wire_line(bytes);
    let report = packet_report(tokens)->0;
    let shown = |i: int| wire_text(bytes[i]) + " "@ + wire_text(bytes[i + 1]);
    assert forall|title: Seq<char>, i: int| 0 <= i < bytes.len() - 1 implies (#[trigger] (title + shown(
        i,
    ))) == titled_pair(title, tokens, i) by {
        assert(title + shown(i) =~= title + tokens[i] + " "@ + tokens[i + 1]);
    }
    byte_reads_back(bytes, 8);
    byte_reads_back(bytes, 9);
    byte_reads_back(bytes, 10);
    byte_reads_back(bytes, 11);
    byte_reads_back(bytes, 12);
    byte_reads_back(bytes, 13);
    byte_sum_is_sum(bytes, 2054);
    let sum = sum_of(bytes.subrange(8, 2062)) % 65536;
    assert(checksum_text(tokens) == word_text(sum));
    checksums_compare(sum, bytes[2062], bytes[2063]);
}

proof fn checksums_compare(sum: int, high: u8, low: u8)
    requires
        0 <= sum < 65536,
    ensures
        same_ignoring_case(word_text(sum), wire_text(high) + wire_text(low)) == (sum == 256 * high
            + low),
{
    wire_text_is_byte_text(high);
    wire_text_is_byte_text(low);
    let a = word_text(sum);
    let b = wire_text(high) + wire_text(low);
    assert(a.len() == 4 && b.len() == 4);
    assert(a[0] == digit_of(sum / 4096) && b[0] == digit_of(high as int / 16));
    assert(a[1] == digit_of(sum / 256 % 16) && b[1] == digit_of(high as int % 16));
    assert(a[2] == digit_of(sum / 16 % 16) && b[2] == digit_of(low as int / 16));
    assert(a[3] == digit_of(sum % 16) && b[3] == digit_of(low as int % 16));
    let same = same_ignoring_case(a, b);
    four_characters(a, b);
    digits_differ(sum / 4096, high as int / 16);
    digits_differ(sum / 256 % 16, high as int % 16);
    digits_differ(sum / 16 % 16, low as int / 16);
    digits_differ(sum % 16, low as int % 16);
    four_digits(sum, high as int, low as int);
}

proof fn four_characters(a: Seq<char>, b: Seq<char>)
    requires
        a.len() == 4,
        b.len() == 4,
    ensures
        same_ignoring_case(a, b) == (upper(a[0]) == upper(b[0]) && upper(a[1]) == upper(b[1])
            && upper(a[2]) == upper(b[2]) && upper(a[3]) == upper(b[3])),
{
    if upper(a[0]) == upper(b[0]) && upper(a[1]) == upper(b[1]) && upper(a[2]) == upper(b[2])
        && upper(a[3]) == upper(b[3]) {
        assert forall|i: int| 0 <= i < a.len() implies upper(#[trigger] a[i]) == upper(b[i]) by {
            assert(i == 0 || i == 1 || i == 2 || i == 3);
        }
    }
}

proof fn four_digits(sum: int, high: int, low: int)
    requires
        0 <= sum < 65536,
        0 <= high < 256,
        0 <= low < 256,
    ensures
        (sum == 256 * high + low) == (sum / 4096 == high / 16 && sum / 256 % 16 == high % 16 && sum
            / 16 % 16 == low / 16 && sum % 16 == low % 16),
{
    let (a, b) = (sum / 256, sum % 256);
    assert(sum == 256 * a + b && 0 <= a < 256 && 0 <= b < 256);
    assert(sum / 4096 == a / 16);
    assert(sum / 16 % 16 == b / 16);
    assert(sum % 16 == b % 16);
    two_digits(a, high);
    two_digits(b, low);
}

proof fn two_digits(a: int, b: int)
    requires
        0 <= a < 256,
        0 <= b < 256,
    ensures
        (a == b) == (a / 16 == b / 16 && a % 16 == b % 16),
{
}

proof fn digits_differ(a: int, b: int)
    requires
        0 <= a < 16,
        0 <= b < 16,
    ensures
        (upper(digit_of(a)) == upper(digit_of(b))) == (a == b),
{
}

/// Two characters are a byte: two digits in either case, or a plus sign and a
/// digit.
pub proof fn characters_are_bytes(text: Seq<u8>, i: int, high: int, low: int)
    requires
        0 <= i,
        i + 2 <= text.len(),
        0 <= high < 16,
        0 <= low < 16,
        text[i + 1] == "0123456789ABCDEF"@[low] as u8 || text[i + 1] == "0123456789abcdef"@[low] as u8,
    ensures
        text[i] == "0123456789ABCDEF"@[high] as u8 || text[i] == "0123456789abcdef"@[high] as u8
            ==> pair_value(text, i) == Some((16 * high + low) as u8),
        text[i] == 43 ==> pair_value(text, i) == Some(low as u8),
{
    reveal_strlit("0123456789ABCDEF");
    reveal_strlit("0123456789abcdef");
}

/// A byte text that is no number counts as 0 in the checksum.
pub proof fn checksums_pass_over_other_texts(tokens: Seq<Seq<char>>, n: nat)
    ensures
        byte_sum(tokens, 0) == 0,
        byte_sum(tokens, n + 1) == byte_sum(tokens, n) + (match hex_number(
            tokens[8 + n as int],
            i64::MIN as int,
            i64::MAX as int,
        ) {
            Some(v) => v,
            None => 0,
        }),
{
}

/// No packets at first: every list is empty, and there are seven of counts.
pub proof fn no_packets_at_first(flux: FluxAccumulator)
    requires
        flux.wf(),
        flux@.len() == 0,
    ensures
        flux.all_results@.len() == 0,
        flux.time_millis_list@.len() == 0,
        flux.particle_counting_lists@.len() == 7,
        forall|layer: int|
            0 <= layer < 7 ==> (#[trigger] flux.particle_counting_lists@[layer])@.len() == 0,
        flux.particle_layer_list@.len() == 0,
        flux.particle_offset_time_list@.len() == 0,
{
    assert(series_views(flux.particle_counting_lists@).len() == flux.particle_counting_lists@.len());
    assert forall|layer: int| 0 <= layer < 7 implies (
    #[trigger] flux.particle_counting_lists@[layer])@.len() == 0 by {
        assert(series_views(flux.particle_counting_lists@)[layer]
            == flux.particle_counting_lists@[layer]@);
        assert(layer_counts(flux@, layer).len() == 0);
    }
    assert(series_views(flux.particle_layer_list@).len() == flux.particle_layer_list@.len());
    assert(series_views(flux.particle_offset_time_list@).len()
        == flux.particle_offset_time_list@.len());
}

} // verus!
