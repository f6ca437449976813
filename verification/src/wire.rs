//! Bytes as the detector's lines write them, and what the readers of lines
//! make of them.

use crate::hex::{
    all_digits, byte_is_number, byte_text, byte_text_reads_back, digit_of, digits_value, hex_byte,
    hex_number, HexError,
};
use crate::line::{
    block_of, byte_at, first_bad_byte, header_of, numeric, pair_at, pairs_of, span_text, time_of,
    HeaderView,
};
use crate::observation::frame::nibble_of;
use vstd::prelude::*;

verus! {

/// The digit for a value below sixteen.
pub open spec fn wire_digit(value: int) -> char {
    "0123456789ABCDEF"@[value]
}

/// A byte as its two digits.
pub open spec fn wire_text(b: u8) -> Seq<char> {
    seq![wire_digit(b as int / 16), wire_digit(b as int % 16)]
}

/// The texts of bytes.
pub open spec fn wire_line(bytes: Seq<u8>) -> Seq<Seq<char>> {
    Seq::new(bytes.len(), |i: int| wire_text(bytes[i]))
}

/// The digits of bytes, one after the other.
pub open spec fn wire_chars(bytes: Seq<u8>) -> Seq<char> {
    Seq::new(2 * bytes.len(), |k: int| wire_text(bytes[k / 2])[k % 2])
}

/// The digits of bytes, as the characters of a text are stored.
pub open spec fn wire_bytes(bytes: Seq<u8>) -> Seq<u8> {
    Seq::new(2 * bytes.len(), |k: int| wire_chars(bytes)[k] as u8)
}

/// A digit reads back as its value.
pub proof fn digit_reads_back(value: int)
    requires
        0 <= value < 16,
    ensures
        nibble_of(wire_digit(value) as u8) == Some(value as u8),
{
    reveal_strlit("0123456789ABCDEF");
}

/// The big-endian number in the bytes `i` and `i + 1`.
pub open spec fn word(bytes: Seq<u8>, i: int) -> int {
    256 * bytes[i] + bytes[i + 1]
}

/// The digits are those that bytes are written with elsewhere.
pub proof fn wire_text_is_byte_text(b: u8)
    ensures
        wire_text(b) == byte_text(b),
        wire_text(b).len() == 2,
{
    wire_digit_is_digit(b as int / 16);
    wire_digit_is_digit(b as int % 16);
}

proof fn wire_digit_is_digit(value: int)
    requires
        0 <= value < 16,
    ensures
        wire_digit(value) == digit_of(value),
{
    reveal_strlit("0123456789ABCDEF");
}

/// Every byte of a line reads back, as a byte and as a number.
pub proof fn byte_reads_back(bytes: Seq<u8>, i: int)
    requires
        0 <= i < bytes.len(),
    ensures
        hex_byte(wire_line(bytes)[i]) == Ok::<u8, HexError>(bytes[i]),
        byte_at(wire_line(bytes), i) == bytes[i],
        numeric(wire_line(bytes), i),
{
    wire_text_is_byte_text(bytes[i]);
    byte_text_reads_back(bytes[i]);
    byte_is_number(byte_text(bytes[i]));
}

/// Two bytes of a line are one big-endian number.
pub proof fn word_reads_back(bytes: Seq<u8>, i: int)
    requires
        0 <= i,
        i + 1 < bytes.len(),
    ensures
        pair_at(wire_line(bytes), i) == word(bytes, i),
        0 <= word(bytes, i) < 65536,
{
    byte_reads_back(bytes, i);
    byte_reads_back(bytes, i + 1);
}

/// A text of digits is split into the texts of its bytes.
pub proof fn digits_split_into_bytes(bytes: Seq<u8>)
    ensures
        pairs_of(wire_chars(bytes)) == wire_line(bytes),
{
    assert forall|i: int| 0 <= i < bytes.len() implies #[trigger] pairs_of(wire_chars(bytes))[i]
        == wire_line(bytes)[i] by {
        let text = wire_chars(bytes);
        assert(text[2 * i] == wire_text(bytes[i])[0]);
        assert(text[2 * i + 1] == wire_text(bytes[i])[1]);
        assert(text.subrange(2 * i, 2 * i + 2) =~= wire_text(bytes[i]));
    }
    assert(pairs_of(wire_chars(bytes)) =~= wire_line(bytes));
}

/// Sixteen words of a line, one after the other.
pub proof fn block_reads_back(bytes: Seq<u8>, start: int, channel: int)
    requires
        0 <= start,
        start + 32 <= bytes.len(),
        0 <= channel < 16,
    ensures
        block_of(wire_line(bytes), start).len() == 16,
        block_of(wire_line(bytes), start)[channel] == word(bytes, start + 2 * channel),
{
    word_reads_back(bytes, start + 2 * channel);
}

/// A span of a line is shown as the digits of its bytes.
pub proof fn span_reads_back(bytes: Seq<u8>, start: int, len: nat)
    requires
        0 <= start,
        start + len <= bytes.len(),
    ensures
        span_text(wire_line(bytes), start, len) == wire_chars(bytes.subrange(start, start + len)),
    decreases len,
{
    let part = bytes.subrange(start, start + len);
    if len == 0 {
        assert(wire_chars(part) =~= Seq::<char>::empty());
    } else {
        span_reads_back(bytes, start, (len - 1) as nat);
        let shorter = bytes.subrange(start, start + len - 1);
        wire_text_is_byte_text(bytes[start + len - 1]);
        assert forall|k: int| 0 <= k < 2 * len implies #[trigger] wire_chars(part)[k] == (wire_chars(
            shorter,
        ) + wire_text(bytes[start + len - 1]))[k] by {
            if k < 2 * len - 2 {
                assert(part[k / 2] == shorter[k / 2]);
            } else {
                assert(k / 2 == len - 1);
            }
        }
        assert(wire_chars(part) =~= wire_chars(shorter) + wire_text(bytes[start + len - 1]));
    }
}

/// A line of bytes has no text that is no byte.
pub proof fn no_bad_byte(bytes: Seq<u8>, from: int, to: int)
    requires
        0 <= from <= to <= bytes.len(),
    ensures
        first_bad_byte(wire_line(bytes), from, to) is None,
    decreases to - from,
{
    if from < to {
        byte_reads_back(bytes, from);
        no_bad_byte(bytes, from + 1, to);
    }
}

/// The header of a line: the synchronisation code and the data type as their
/// digits, the three numbers between them as their values.
pub proof fn header_reads_back(bytes: Seq<u8>)
    requires
        bytes.len() >= 16,
    ensures
        header_of(wire_line(bytes)) == Some(
            (HeaderView {
                packet_sync: wire_text(bytes[0]) + wire_text(bytes[1]),
                package_id: word(bytes, 2),
                packet_sequence: word(bytes, 4),
                packet_data_length: word(bytes, 6),
                data_type: wire_text(bytes[14]) + wire_text(bytes[15]),
            }),
        ),
{
    assert forall|i: int| 2 <= i < 8 implies #[trigger] numeric(wire_line(bytes), i) by {
        byte_reads_back(bytes, i);
    }
    word_reads_back(bytes, 2);
    word_reads_back(bytes, 4);
    word_reads_back(bytes, 6);
}

/// The time of a line: the seconds in its bytes 8 to 11, counted from
/// 2024-10-01 00:00:00 UTC.
pub proof fn time_reads_back(bytes: Seq<u8>)
    requires
        bytes.len() >= 14,
    ensures
        time_of(wire_line(bytes)) == Ok::<int, Seq<char>>(
            1_727_740_800_000 + 1000 * (65536 * word(bytes, 8) + word(bytes, 10)),
        ),
{
    no_bad_byte(bytes, 8, 14);
    byte_reads_back(bytes, 8);
    byte_reads_back(bytes, 9);
    byte_reads_back(bytes, 10);
    byte_reads_back(bytes, 11);
}

/// A line that is too short has neither header nor time.
pub proof fn short_lines_are_refused(tokens: Seq<Seq<char>>)
    ensures
        tokens.len() < 16 ==> header_of(tokens) is None,
        tokens.len() < 14 ==> time_of(tokens) is Err,
{
}

/// The case of a byte's digits makes no difference to its number.
pub proof fn small_digits_count_alike(high: char, low: char)
    requires
        '0' <= high <= '9' || 'a' <= high <= 'f',
        '0' <= low <= '9' || 'a' <= low <= 'f',
    ensures
        ({
            let value = |c: char| if c <= '9' { c as int - 48 } else { c as int - 87 };
            hex_number(seq![high, low], i32::MIN as int, i32::MAX as int) == Some(
                16 * value(high) + value(low),
            )
        }),
{
    let s = seq![high, low];
    reveal_with_fuel(digits_value, 3);
    assert(s.drop_last() =~= seq![high]);
    assert(s.drop_last().drop_last() =~= Seq::<char>::empty());
    assert(all_digits(s));
}

} // verus!
