//! What a list of segments gives, segment by segment, and what the readers of
//! lines make of bytes that are missing or no numbers.

use crate::baseline_run::{run, RunStateView, RunStepView};
use crate::calibration::laws::{
    calibration_line_fields, columns_hold_words, no_columns_at_first, steps_that_fit,
};
use crate::calibration::data_processor::calibration_line;
use crate::calibration::processing::CalibrationView;
use crate::calibration_mode::accumulated;
use crate::calibration_session::positive;
use crate::clock::{date_text, event_time, header_time, padded, start_time, time_text};
use crate::columns::{first_bad_row, header_check_text};
use crate::flux::data_processor::flux_line;
use crate::flux::laws::{flux_line_fields, packet_fields};
use crate::flux::processing::flux_packet;
use crate::flux_mode::{duration, header_info, packets_of, slot_numbers};
use crate::flux::processing::HeaderParseView;
use crate::hex::{hex_byte, HexError};
use crate::json_view::{key_at, number_or_text, with_member, JsonView};
use crate::line::{
    byte_at, first_bad_byte, header_of, numeric, pair_at, pairs_of, span_text, synchronised, time_of,
    token_or_zero, wrap32,
};
use crate::decimal::decimal_number;
use crate::lines::{lines_of, utf8_len};
use crate::observation::data_processor::total_length;
use crate::observation::header_text::{header_report, raw_header, start_line};
use crate::observation::progress::{chunk_reports, file_reports, progress_reports};
use crate::panel::{NoteView, Progress, StatusColor};
use crate::text::{int_text, nat_text, same_ignoring_case, trimmed, upper};
use crate::text_laws::cuts_are_exact;
use crate::wire::{
    digits_split_into_bytes, time_reads_back, wire_bytes, wire_chars, wire_digit, wire_line,
    wire_text, word,
};
use vstd::prelude::*;
use vstd::utf8::encode_utf8;

verus! {

/// Segments as they are written.
pub open spec fn written(segments: Seq<Seq<u8>>) -> Seq<Seq<char>> {
    segments.map_values(|bytes: Seq<u8>| wire_chars(bytes))
}

/// Digits are stored as they are written, one byte each.
pub proof fn digits_are_stored(bytes: Seq<u8>)
    ensures
        encode_utf8(wire_chars(bytes)) == wire_bytes(bytes),
{
    let s = wire_chars(bytes);
    assert forall|k: int| 0 <= k < s.len() implies (#[trigger] s[k] as nat) < 128 by {
        reveal_strlit("0123456789ABCDEF");
        let b = bytes[k / 2];
        assert(s[k] == wire_text(b)[k % 2]);
        assert(s[k] == wire_digit(b as int / 16) || s[k] == wire_digit(b as int % 16));
    }
    assert(vstd::utf8::is_ascii_chars(s));
    vstd::utf8::is_ascii_chars_encode_utf8(s);
    assert(encode_utf8(s) =~= wire_bytes(bytes));
}

/// The packets and the table lines of flux segments stand in the order of the
/// segments, each with the words of its own bytes.
pub proof fn flux_segments(segments: Seq<Seq<u8>>, k: int)
    requires
        forall|i: int| 0 <= i < segments.len() ==> (#[trigger] segments[i]).len() == 2064,
        0 <= k < segments.len(),
    ensures
        ({
            let packets = packets_of(written(segments));
            let lines = crate::flux_mode::decoded_lines(written(segments));
            &&& packets.len() == segments.len()
            &&& packets[k].time_millis == word(segments[k], 16)
            &&& forall|layer: int|
                0 <= layer < 7 ==> #[trigger] packets[k].counting[layer] == word(
                    segments[k],
                    18 + 2 * layer,
                )
            &&& lines.len() == segments.len()
            &&& lines[k].header.packet_sequence == word(segments[k], 4)
            &&& forall|layer: int|
                0 <= layer < 7 ==> #[trigger] lines[k].particle_counts[layer] == word(
                    segments[k],
                    18 + 2 * layer,
                )
        }),
{
    flux_segments_in_order(segments, k);
    packet_fields(segments[k]);
    flux_line_fields(segments[k]);
}

#[verifier::spinoff_prover]
#[verifier::rlimit(60)]
proof fn flux_segments_in_order(segments: Seq<Seq<u8>>, k: int)
    requires
        forall|i: int| 0 <= i < segments.len() ==> (#[trigger] segments[i]).len() == 2064,
    ensures
        packets_of(written(segments)).len() == segments.len(),
        crate::flux_mode::decoded_lines(written(segments)).len() == segments.len(),
        0 <= k < segments.len() ==> Some(packets_of(written(segments))[k]) == flux_packet(
            wire_bytes(segments[k]),
        ),
        0 <= k < segments.len() ==> Some(crate::flux_mode::decoded_lines(written(segments))[k])
            == flux_line(wire_line(segments[k])),
    decreases segments.len(),
{
    if segments.len() > 0 {
        let front = segments.drop_last();
        let last = segments.last();
        assert forall|i: int| 0 <= i < front.len() implies (#[trigger] front[i]).len() == 2064 by {
            assert(front[i] == segments[i]);
        }
        assert(segments[segments.len() - 1].len() == 2064);
        flux_segments_in_order(front, k);
        assert(written(segments).drop_last() =~= written(front));
        assert(written(segments).last() == wire_chars(last));
        digits_are_stored(last);
        digits_split_into_bytes(last);
        packet_fields(last);
        flux_line_fields(last);
    }
}

/// The columns of calibration segments: every segment adds its eleven steps
/// behind those before it, each with the words of its own bytes.
#[verifier::spinoff_prover]
#[verifier::rlimit(60)]
pub proof fn calibration_segments(segments: Seq<Seq<u8>>, k: int, step: int, channel: int)
    requires
        forall|i: int| 0 <= i < segments.len() ==> (#[trigger] segments[i]).len() == 2064,
        0 <= k < segments.len(),
        0 <= step < 11,
        0 <= channel < 16,
    ensures
        ({
            let all = accumulated(written(segments));
            let at = 11 * k + step;
            let from = 18 + 128 * step + 2 * channel;
            &&& all.wf()
            &&& all.l1[channel].len() == 11 * segments.len()
            &&& all.l2[channel].len() == 11 * segments.len()
            &&& all.l6[channel].len() == 11 * segments.len()
            &&& all.l7[channel].len() == 11 * segments.len()
            &&& all.l1[channel][at] == word(segments[k], from)
            &&& all.l2[channel][at] == word(segments[k], from + 32)
            &&& all.l6[channel][at] == word(segments[k], from + 64)
            &&& all.l7[channel][at] == word(segments[k], from + 96)
        }),
    decreases segments.len(),
{
    let front = segments.drop_last();
    let last = segments.last();
    assert forall|i: int| 0 <= i < front.len() implies (#[trigger] front[i]).len() == 2064 by {
        assert(front[i] == segments[i]);
    }
    assert(segments[segments.len() - 1].len() == 2064);
    assert(written(segments).drop_last() =~= written(front));
    assert(written(segments).last() == wire_chars(last));
    digits_split_into_bytes(last);
    steps_that_fit(2064);
    let before = accumulated(written(front));
    if front.len() == 0 {
        no_columns_at_first(channel);
        assert(written(front) =~= Seq::<Seq<char>>::empty());
        assert(before == CalibrationView::empty());
    } else {
        let kk = if k < front.len() { k } else { 0 };
        calibration_segments(front, kk, step, channel);
    }
    columns_hold_words(before, last, 11);
    let after = accumulated(written(segments));
    assert(after == before.add_steps(wire_line(last), 11));
    let at = 11 * k + step;
    if k < front.len() {
        assert(front[k] == segments[k]);
        assert(at < 11 * front.len());
        assert(after.l1[channel][at] == before.l1[channel][at]);
        assert(after.l2[channel][at] == before.l2[channel][at]);
        assert(after.l6[channel][at] == before.l6[channel][at]);
        assert(after.l7[channel][at] == before.l7[channel][at]);
    } else {
        let n = 11 * front.len();
        assert(at == n + step);
        assert(after.l1[channel][before.l1[channel].len() + step] == word(
            last,
            18 + 128 * step + 2 * channel,
        ));
        assert(after.l2[channel][before.l2[channel].len() + step] == word(
            last,
            50 + 128 * step + 2 * channel,
        ));
        assert(after.l6[channel][before.l6[channel].len() + step] == word(
            last,
            82 + 128 * step + 2 * channel,
        ));
        assert(after.l7[channel][before.l7[channel].len() + step] == word(
            last,
            114 + 128 * step + 2 * channel,
        ));
    }
}

/// The table lines of calibration segments stand in the order of the segments.
pub proof fn calibration_lines_in_order(segments: Seq<Seq<u8>>, k: int)
    requires
        forall|i: int| 0 <= i < segments.len() ==> (#[trigger] segments[i]).len() == 2064,
    ensures
        crate::calibration_mode::decoded_lines(written(segments)).len() == segments.len(),
        0 <= k < segments.len() ==> Some(
            crate::calibration_mode::decoded_lines(written(segments))[k],
        ) == calibration_line(wire_line(segments[k])),
    decreases segments.len(),
{
    if segments.len() > 0 {
        let front = segments.drop_last();
        let last = segments.last();
        assert forall|i: int| 0 <= i < front.len() implies (#[trigger] front[i]).len() == 2064 by {
            assert(front[i] == segments[i]);
        }
        assert(segments[segments.len() - 1].len() == 2064);
        calibration_lines_in_order(front, k);
        assert(written(segments).drop_last() =~= written(front));
        assert(written(segments).last() == wire_chars(last));
        digits_split_into_bytes(last);
        calibration_line_fields(last);
    }
}

/// A byte that a line lacks, or that is no number, counts as 0, and one that is
/// lacking is shown as 00.
pub proof fn bytes_that_are_lacking(tokens: Seq<Seq<char>>, i: int, len: nat)
    ensures
        i < 0 || i >= tokens.len() ==> byte_at(tokens, i) == 0 && token_or_zero(tokens, i)
            == seq!['0', '0'],
        0 <= i < tokens.len() && !numeric(tokens, i) ==> byte_at(tokens, i) == 0,
        0 <= i < tokens.len() ==> token_or_zero(tokens, i) == tokens[i],
        span_text(tokens, i, 0).len() == 0,
        span_text(tokens, i, len + 1) == span_text(tokens, i, len) + token_or_zero(
            tokens,
            i + len,
        ),
{
    reveal_strlit("00");
    assert("00"@ =~= seq!['0', '0']);
}

/// Numbers in the range of `i32` stay; any other is moved into it by multiples
/// of 4294967296.
pub proof fn wrapping_around(n: int, k: int)
    ensures
        -0x8000_0000 <= n < 0x8000_0000 ==> wrap32(n) == n,
        -0x8000_0000 <= wrap32(n) < 0x8000_0000,
        wrap32(n + 0x1_0000_0000 * k) == wrap32(n),
{
    assert((n + 0x8000_0000 + 0x1_0000_0000 * k) % 0x1_0000_0000 == (n + 0x8000_0000)
        % 0x1_0000_0000) by (nonlinear_arith);
    assert(n + 0x1_0000_0000 * k + 0x8000_0000 == n + 0x8000_0000 + 0x1_0000_0000 * k);
}

/// Two bytes of a line make one number, the first counting 256 times.
pub proof fn two_bytes_make_a_number(tokens: Seq<Seq<char>>, i: int)
    requires
        0 <= byte_at(tokens, i) < 256,
        0 <= byte_at(tokens, i + 1) < 256,
    ensures
        pair_at(tokens, i) == 256 * byte_at(tokens, i) + byte_at(tokens, i + 1),
{
}

/// A line has a header exactly where it has sixteen bytes and those of its
/// three numbers are numbers.
pub proof fn lines_with_headers(tokens: Seq<Seq<char>>)
    ensures
        header_of(tokens) is Some == (tokens.len() >= 16 && numeric(tokens, 2) && numeric(tokens, 3)
            && numeric(tokens, 4) && numeric(tokens, 5) && numeric(tokens, 6) && numeric(tokens, 7)),
{
    if numeric(tokens, 2) && numeric(tokens, 3) && numeric(tokens, 4) && numeric(tokens, 5)
        && numeric(tokens, 6) && numeric(tokens, 7) {
        assert forall|i: int| 2 <= i < 8 implies #[trigger] numeric(tokens, i) by {
            assert(i == 2 || i == 3 || i == 4 || i == 5 || i == 6 || i == 7);
        }
    }
}

/// A line has no time where one of its bytes 8 to 13 is no byte: the error is
/// that of the first of them.
pub proof fn times_with_errors(tokens: Seq<Seq<char>>, i: int, e: HexError)
    requires
        tokens.len() >= 14,
        8 <= i < 14,
        hex_byte(tokens[i]) == Err::<u8, HexError>(e),
        forall|j: int| 8 <= j < i ==> hex_byte(#[trigger] tokens[j]) is Ok,
    ensures
        time_of(tokens) == Err::<int, Seq<char>>(e.text()),
{
    bad_byte_found(tokens, 8, 14, i, e);
}

proof fn bad_byte_found(tokens: Seq<Seq<char>>, from: int, to: int, i: int, e: HexError)
    requires
        from <= i < to,
        hex_byte(tokens[i]) == Err::<u8, HexError>(e),
        forall|j: int| from <= j < i ==> hex_byte(#[trigger] tokens[j]) is Ok,
    ensures
        first_bad_byte(tokens, from, to) == Some(e),
    decreases to - from,
{
    if from < i {
        assert(hex_byte(tokens[from]) is Ok);
        bad_byte_found(tokens, from + 1, to, i, e);
    }
}

/// A line begins with the synchronisation code where its first byte is E2, the
/// letter in either case, and its second 25.
pub proof fn lines_with_the_code(tokens: Seq<Seq<char>>)
    ensures
        synchronised(tokens) == (tokens.len() >= 2 && tokens[0].len() == 2 && tokens[1].len() == 2
            && (tokens[0][0] == 'E' || tokens[0][0] == 'e') && tokens[0][1] == '2' && tokens[1][0]
            == '2' && tokens[1][1] == '5'),
{
    reveal_strlit("E2");
    reveal_strlit("25");
    if tokens.len() >= 2 && tokens[0].len() == 2 && tokens[1].len() == 2 {
        two_characters(tokens[0], "E2"@);
        two_characters(tokens[1], "25"@);
    }
}

proof fn two_characters(a: Seq<char>, b: Seq<char>)
    requires
        a.len() == 2,
        b.len() == 2,
    ensures
        same_ignoring_case(a, b) == (upper(a[0]) == upper(b[0]) && upper(a[1]) == upper(b[1])),
{
    if upper(a[0]) == upper(b[0]) && upper(a[1]) == upper(b[1]) {
        assert forall|i: int| 0 <= i < a.len() implies upper(#[trigger] a[i]) == upper(b[i]) by {
            assert(i == 0 || i == 1);
        }
    }
}

/// The check of the rows of a file names the first that does not begin with the
/// code, counted from one.
pub proof fn rows_with_the_code(rows: Seq<Seq<char>>)
    ensures
        match first_bad_row(rows) {
            Some(i) => 0 <= i < rows.len() && !"E225"@.is_prefix_of(rows[i]) && (forall|j: int|
                0 <= j < i ==> "E225"@.is_prefix_of(#[trigger] rows[j])) && header_check_text(rows)
                == "Header is INCORRECT! at data row no. "@ + int_text(i + 1),
            None => (forall|j: int| 0 <= j < rows.len() ==> "E225"@.is_prefix_of(#[trigger] rows[j]))
                && header_check_text(rows) == "Header is correct!"@,
        },
    decreases rows.len(),
{
    if rows.len() > 0 {
        rows_with_the_code(rows.drop_last());
        assert forall|j: int| 0 <= j < rows.len() - 1 implies #[trigger] rows[j]
            == rows.drop_last()[j] by {}
    }
}

/// A cell stands for an integer where its text without the whitespace around it
/// is one, else for that text.
pub proof fn cells_and_their_values(s: Seq<char>)
    ensures
        decimal_number(trimmed(s)) is Some ==> number_or_text(s) == JsonView::Integer(
            decimal_number(trimmed(s))->0,
        ),
        decimal_number(trimmed(s)) is None ==> number_or_text(s) == JsonView::Plain(trimmed(s)),
{
}

/// A further member of an object: one with a new key comes last, one with a key
/// that is there takes its place; no other member changes.
pub proof fn members_of_objects(
    members: Seq<(Seq<char>, JsonView)>,
    key: Seq<char>,
    value: JsonView,
    i: int,
)
    requires
        0 <= i < members.len(),
        forall|a: int, b: int|
            0 <= a < b < members.len() ==> (#[trigger] members[a]).0 != (#[trigger] members[b]).0,
    ensures
        ({
            let more = with_member(members, key, value);
            &&& members[i].0 != key ==> more[i] == members[i]
            &&& members[i].0 == key ==> more[i] == (key, value) && more.len() == members.len()
            &&& (forall|j: int| 0 <= j < members.len() ==> (#[trigger] members[j]).0 != key)
                ==> more == members.push((key, value))
        }),
{
    key_is_there(members, key);
}

proof fn key_is_there(members: Seq<(Seq<char>, JsonView)>, key: Seq<char>)
    ensures
        match key_at(members, key) {
            Some(i) => 0 <= i < members.len() && members[i].0 == key,
            None => forall|j: int| 0 <= j < members.len() ==> (#[trigger] members[j]).0 != key,
        },
    decreases members.len(),
{
    if members.len() > 0 {
        key_is_there(members.drop_last(), key);
        assert forall|j: int| 0 <= j < members.len() - 1 implies #[trigger] members[j]
            == members.drop_last()[j] by {}
    }
}

/// The values of a channel that its histogram counts: one that is above zero
/// stays, any other goes.
pub proof fn values_above_zero(values: Seq<i32>, v: i32)
    ensures
        positive(Seq::empty()).len() == 0,
        positive(values.push(v)) == (if v > 0 {
            positive(values).push(v)
        } else {
            positive(values)
        }),
{
    reveal(Seq::filter);
    assert(values.push(v).drop_last() =~= values);
}

/// The time between two instants, in seconds with three decimals, with a minus
/// sign where the second comes first.
pub proof fn durations(start: int, millis: int)
    requires
        0 <= millis,
    ensures
        ({
            let text = int_text(millis / 1000) + seq![
                '.',
                "0123456789"@[millis / 100 % 10],
                "0123456789"@[millis / 10 % 10],
                "0123456789"@[millis % 10],
            ] + " seconds"@;
            &&& duration(start, start + millis) == text
            &&& millis > 0 ==> duration(start + millis, start) == seq!['-'] + text
        }),
{
    let n = (millis % 1000) as nat;
    parts_of_millis(millis);
    three_digits(n);
    let decimals = padded(n, 3);
    let seconds = int_text(millis / 1000);
    let text = seconds + (seq!['.'] + decimals) + " seconds"@;
    dotted(decimals);
    plain_duration(start, millis, seconds, decimals);
}

proof fn parts_of_millis(millis: int)
    requires
        0 <= millis,
    ensures
        (millis % 1000) / 100 == millis / 100 % 10,
        (millis % 1000) / 10 % 10 == millis / 10 % 10,
        (millis % 1000) % 10 == millis % 10,
{
    let (q, r) = (millis / 1000, millis % 1000);
    assert(millis == 1000 * q + r && 0 <= r < 1000);
    hundreds(q, r);
    tens(q, r);
    ones(q, r);
}

proof fn hundreds(q: int, r: int)
    requires
        0 <= r < 1000,
    ensures
        (1000 * q + r) / 100 % 10 == r / 100,
{
    assert((1000 * q + r) / 100 == 10 * q + r / 100);
}

proof fn tens(q: int, r: int)
    requires
        0 <= r < 1000,
    ensures
        (1000 * q + r) / 10 % 10 == r / 10 % 10,
{
    assert((1000 * q + r) / 10 == 100 * q + r / 10);
    let t = r / 10;
    assert((100 * q + t) % 10 == t % 10);
}

proof fn ones(q: int, r: int)
    requires
        0 <= r < 1000,
    ensures
        (1000 * q + r) % 10 == r % 10,
{
}

proof fn dotted(decimals: Seq<char>)
    requires
        decimals.len() == 3,
    ensures
        seq!['.', decimals[0], decimals[1], decimals[2]] == seq!['.'] + decimals,
{
    assert(seq!['.', decimals[0], decimals[1], decimals[2]] =~= seq!['.'] + decimals);
}

proof fn plain_duration(start: int, millis: int, seconds: Seq<char>, decimals: Seq<char>)
    requires
        0 <= millis,
        seconds == int_text(millis / 1000),
        decimals == padded((millis % 1000) as nat, 3),
    ensures
        duration(start, start + millis) == seconds + (seq!['.'] + decimals) + " seconds"@,
        millis > 0 ==> duration(start + millis, start) == seq!['-'] + (seconds + (seq!['.']
            + decimals) + " seconds"@),
{
    reveal_strlit(".");
    reveal_strlit("-");
    reveal_strlit("");
    assert("."@ =~= seq!['.']);
    assert("-"@ =~= seq!['-']);
    assert(""@ + seconds =~= seconds);
    assert(seconds + "."@ + decimals =~= seconds + (seq!['.'] + decimals));
    if millis > 0 {
        assert(duration(start + millis, start) =~= seq!['-'] + (seconds + (seq!['.'] + decimals)
            + " seconds"@));
    }
}

#[verifier::spinoff_prover]
#[verifier::rlimit(60)]
proof fn three_digits(n: nat)
    requires
        n < 1000,
    ensures
        padded(n, 3) == seq![
            "0123456789"@[(n / 100) as int],
            "0123456789"@[(n / 10 % 10) as int],
            "0123456789"@[(n % 10) as int],
        ],
{
    reveal_strlit("0123456789");
    reveal_with_fuel(nat_text, 4);
    let digits = "0123456789"@;
    if n < 10 {
        assert(nat_text(n) =~= seq![digits[n as int]]);
    } else if n < 100 {
        assert(nat_text(n) =~= seq![digits[(n / 10) as int], digits[(n % 10) as int]]);
    } else {
        assert(nat_text(n / 10) =~= seq![digits[(n / 100) as int], digits[(n / 10 % 10) as int]]);
        assert(nat_text(n) =~= seq![
            digits[(n / 100) as int],
            digits[(n / 10 % 10) as int],
            digits[(n % 10) as int],
        ]);
    }
    assert(padded(n, 3) =~= seq![
        digits[(n / 100) as int],
        digits[(n / 10 % 10) as int],
        digits[(n % 10) as int],
    ]);
}

/// The report on a packet header lists its fields line by line, then whether
/// the checksum matches, then the test condition.
pub proof fn header_reports(h: HeaderParseView, delay_time: int, threshold: int)
    ensures
        header_info(h, delay_time, threshold) == h.packet_sync + "\n"@ + h.package_id + "\n"@
            + h.packet_seq + "\n"@ + h.packet_data_len + "\n"@ + h.timestamp + "\n"@ + h.data_type
            + "\n"@ + h.check_sum_hex + "\n"@ + (if h.checksum_matches {
            "Checksum matches!"@
        } else {
            "Checksum does not match."@
        }) + "\nTest condition:\nDelay Time: "@ + int_text(delay_time) + "\nThreshold: "@
            + int_text(threshold),
{
}

/// The start time of a recording is that of its header line, from the bytes 8
/// to 11.
pub proof fn start_of_a_recording(bytes: Seq<u8>)
    requires
        bytes.len() >= 14,
    ensures
        start_line(wire_chars(bytes)) == "Start Time: "@ + start_time(
            1_727_740_800_000 + 1000 * (65536 * word(bytes, 8) + word(bytes, 10)),
        ) + "\n"@,
        bytes.len() <= 50 ==> raw_header(wire_chars(bytes)) == wire_chars(bytes),
        bytes.len() > 50 ==> raw_header(wire_chars(bytes)) == wire_chars(bytes.take(50)) + "..."@,
{
    digits_split_into_bytes(bytes);
    time_reads_back(bytes);
    let s = wire_chars(bytes);
    digits_are_one_byte(bytes, s.len() as int);
    assert(s.take(s.len() as int) =~= s);
    if bytes.len() > 50 {
        digits_are_one_byte(bytes, 100);
        assert(utf8_len(s.take(100)) == 100);
        cuts_are_exact(s, 100, 100);
        assert(s.take(100) =~= wire_chars(bytes.take(50)));
    }
}

proof fn digits_are_one_byte(bytes: Seq<u8>, k: int)
    requires
        0 <= k <= 2 * bytes.len(),
    ensures
        utf8_len(wire_chars(bytes).take(k)) == k,
    decreases k,
{
    let s = wire_chars(bytes);
    if k > 0 {
        digits_are_one_byte(bytes, k - 1);
        assert(s.take(k).drop_last() =~= s.take(k - 1));
        reveal_strlit("0123456789ABCDEF");
        let b = bytes[(k - 1) / 2];
        assert(s[k - 1] == wire_text(b)[(k - 1) % 2]);
        assert(s[k - 1] == wire_digit(b as int / 16) || s[k - 1] == wire_digit(b as int % 16));
    }
}

/// The reports while a recording is read: one after each 65536 bytes and one at
/// its end, each with the bytes that have been read by then.
#[verifier::spinoff_prover]
#[verifier::rlimit(60)]
pub proof fn reports_of_reading(base: int, len: int, total: int, k: int)
    requires
        0 <= base,
        0 <= len,
        base + len <= total <= u64::MAX,
        0 <= k < chunk_reports(base, len, total).len(),
    ensures
        chunk_reports(base, len, total)[k].1 == total,
        chunk_reports(base, len, total)[k].0 == base + (if 65536 * (k + 1) < len {
            65536 * (k + 1)
        } else {
            len
        }),
        65536 * (chunk_reports(base, len, total).len() - 1) < len <= 65536 * chunk_reports(
            base,
            len,
            total,
        ).len(),
    decreases len,
{
    if len > 0 {
        let step: int = if len < 65536 { len } else { 65536 };
        let rest = chunk_reports(base + step, len - step, total);
        assert(chunk_reports(base, len, total) == seq![((base + step) as u64, total as u64)] + rest);
        if rest.len() > 0 {
            let kk = if k > 0 { k - 1 } else { 0 };
            reports_of_reading(base + step, len - step, total, kk);
        } else {
            no_reports(base + step, len - step, total);
        }
    }
}

proof fn no_reports(base: int, len: int, total: int)
    requires
        chunk_reports(base, len, total).len() == 0,
    ensures
        len <= 0,
{
}

/// The reports on several recordings follow one another, each counting on from
/// the bytes of those before.
pub proof fn reports_go_on(contents: Seq<Seq<u8>>, content: Seq<u8>, total: int)
    ensures
        file_reports(Seq::empty(), total).len() == 0,
        file_reports(contents.push(content), total) == file_reports(contents, total)
            + chunk_reports(total_length(contents) as int, content.len() as int, total),
        total_length(contents.push(content)) == total_length(contents) + content.len(),
        total_length(Seq::empty()) == 0,
{
    assert(contents.push(content).drop_last() =~= contents);
}

/// The reports on reading begin with none of the bytes and end with all.
pub proof fn reports_begin_and_end(contents: Seq<Seq<u8>>)
    requires
        total_length(contents) <= u64::MAX,
    ensures
        ({
            let all = progress_reports(contents);
            let total = total_length(contents);
            &&& all.len() == file_reports(contents, total as int).len() + 2
            &&& all[0] == (0u64, total as u64)
            &&& all.subrange(1, all.len() - 1) == file_reports(contents, total as int)
            &&& all.last() == (total as u64, total as u64)
        }),
{
    let all = progress_reports(contents);
    assert(all.subrange(1, all.len() - 1) =~= file_reports(
        contents,
        total_length(contents) as int,
    ));
}

/// The slots of a flux line are the numbers that their texts write.
pub proof fn slots_are_numbers(texts: Seq<Seq<char>>, i: int)
    requires
        0 <= i < texts.len(),
    ensures
        slot_numbers(texts).len() == texts.len(),
        slot_numbers(texts)[i] == (match decimal_number(texts[i]) {
            Some(n) => if -0x8000_0000 <= n <= 0x7FFF_FFFF {
                n
            } else {
                0
            },
            None => 0,
        }),
{
}

/// The course of a baseline run, state by state.
pub proof fn runs_state_by_state(
    text: Seq<char>,
    count: int,
    start: Seq<char>,
    stop: Seq<char>,
    millis: int,
)
    requires
        count > 0,
    ensures
        run(RunStateView::NoFolder(text)) == seq![
            RunStepView::Note(NoteView::Error(text)),
            RunStepView::Note(NoteView::Busy(false)),
        ],
        run(RunStateView::NoWorkbook(text)) == seq![
            RunStepView::Note(
                NoteView::Error(
                    "Expected input file not found: "@ + text
                        + ". Please run 'Pre-Process to Excel' first."@,
                ),
            ),
            RunStepView::Note(NoteView::Busy(false)),
        ],
        run(RunStateView::Reading) == seq![
            RunStepView::Note(NoteView::Status("Reading Excel..."@, StatusColor::Orange)),
        ],
        run(RunStateView::Unreadable(text)) == seq![
            RunStepView::Note(NoteView::Status("Reading Excel..."@, StatusColor::Orange)),
            RunStepView::Note(NoteView::Error("Read Error: "@ + text)),
            RunStepView::Note(NoteView::Busy(false)),
        ],
        run(RunStateView::Loaded(count)) == seq![
            RunStepView::Note(NoteView::Status("Reading Excel..."@, StatusColor::Orange)),
            RunStepView::Loaded,
            RunStepView::Note(NoteView::Progress(Progress { done: 1, total: 2 })),
        ],
        run(RunStateView::Loaded(0)) == run(RunStateView::Loaded(count)).push(
            RunStepView::Note(NoteView::Busy(false)),
        ),
        ({
            let steps = run(RunStateView::Processed { count, start, stop, millis });
            &&& steps.len() == 23
            &&& steps[19] == RunStepView::Note(
                NoteView::Timing { start, stop, duration: int_text(millis) + " ms"@ },
            )
            &&& steps[20] == RunStepView::Note(
                NoteView::Status(
                    "Processed "@ + int_text(count) + " events."@,
                    StatusColor::Green,
                ),
            )
            &&& steps[21] == RunStepView::Note(NoteView::Progress(Progress { done: 1, total: 1 }))
            &&& steps[22] == RunStepView::Note(NoteView::Busy(false))
        }),
{
    assert(run(RunStateView::Unreadable(text)) =~= seq![
        RunStepView::Note(NoteView::Status("Reading Excel..."@, StatusColor::Orange)),
        RunStepView::Note(NoteView::Error("Read Error: "@ + text)),
        RunStepView::Note(NoteView::Busy(false)),
    ]);
    assert(run(RunStateView::Loaded(count)) =~= seq![
        RunStepView::Note(NoteView::Status("Reading Excel..."@, StatusColor::Orange)),
        RunStepView::Loaded,
        RunStepView::Note(NoteView::Progress(Progress { done: 1, total: 2 })),
    ]);
}

/// The time of day of an instant, in two digits each for hours, minutes and
/// seconds.
pub proof fn times_of_day(millis: int)
    requires
        0 <= millis,
    ensures
        ({
            let seconds = millis / 1000 % 86_400;
            let (h, m, s) = (seconds / 3600, seconds / 60 % 60, seconds % 60);
            let d = |n: int| "0123456789"@[n];
            time_text(millis) == seq![
                d(h / 10),
                d(h % 10),
                ':',
                d(m / 10),
                d(m % 10),
                ':',
                d(s / 10),
                d(s % 10),
            ]
        }),
{
    let seconds = millis / 1000 % 86_400;
    let (h, m, s) = (seconds / 3600, seconds / 60 % 60, seconds % 60);
    two_digits(h as nat);
    two_digits(m as nat);
    two_digits(s as nat);
    assert(time_text(millis) =~= seq![
        "0123456789"@[h / 10],
        "0123456789"@[h % 10],
        ':',
        "0123456789"@[m / 10],
        "0123456789"@[m % 10],
        ':',
        "0123456789"@[s / 10],
        "0123456789"@[s % 10],
    ]);
}

proof fn two_digits(n: nat)
    requires
        n < 100,
    ensures
        padded(n, 2) == seq!["0123456789"@[(n / 10) as int], "0123456789"@[(n % 10) as int]],
{
    reveal_strlit("0123456789");
    reveal_with_fuel(nat_text, 3);
    let digits = "0123456789"@;
    if n < 10 {
        assert(nat_text(n) =~= seq![digits[n as int]]);
    } else {
        assert(nat_text(n) =~= seq![digits[(n / 10) as int], digits[(n % 10) as int]]);
    }
    assert(padded(n, 2) =~= seq![digits[(n / 10) as int], digits[(n % 10) as int]]);
}

/// The texts of an instant: the date, the time of day, and where they are shown
/// the milliseconds in three digits.
pub proof fn texts_of_instants(millis: int)
    requires
        0 <= millis,
    ensures
        start_time(millis) == date_text(millis, false) + seq![' '] + time_text(millis),
        event_time(millis) == start_time(millis) + seq!['.'] + padded((millis % 1000) as nat, 3),
        header_time(millis) == date_text(millis, true) + seq![' '] + time_text(millis) + seq!['.']
            + padded((millis % 1000) as nat, 3),
{
}

/// The report on a recording: its name, the length of its first line, the number
/// of its lines, and what the first line says.
pub proof fn reports_on_recordings(file_name: Seq<char>, content: Seq<char>)
    ensures
        lines_of(content).len() == 0 ==> header_report(file_name, content) == "Empty file"@,
        lines_of(content).len() > 0 ==> header_report(file_name, content) == "File: "@ + file_name
            + "\n"@ + "Header Length: "@ + int_text(utf8_len(lines_of(content)[0]))
            + " characters\n"@ + "Total Lines: "@ + int_text(lines_of(content).len() as int)
            + "\n"@ + start_line(lines_of(content)[0]) + "\nRaw Header (first 100 chars):\n"@
            + raw_header(lines_of(content)[0]) + "\n"@,
{
}

/// A header line that is too short for a timecode has no start time; one whose
/// timecode cannot be read says so.
pub proof fn recordings_without_start(header: Seq<char>)
    ensures
        utf8_len(header) < 28 ==> start_line(header).len() == 0,
        utf8_len(header) >= 28 && time_of(pairs_of(header)) is Err ==> start_line(header)
            == "Start Time: Unable to parse\n"@,
{
}

} // verus!
