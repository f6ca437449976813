//! What the look at the two ends of a baseline recording finds.

use crate::baseline_mode::{
    ends_report, even_part, first_packet, last_mark, last_packet, mark_at, packet_summary, paired_bytes, pair_ok,
};
use crate::clock::header_time;
use crate::hex::{byte_text_reads_back, hex_byte, HexError};
use crate::lines::{cut_at, cuts_at, utf8_len};
use crate::text::{int_text, without_white};
use crate::text_laws::cuts_are_exact;
use crate::wire::{wire_chars, wire_digit, wire_text, wire_text_is_byte_text};
use vstd::prelude::*;

verus! {

/// Digits read back as the bytes that they write.
pub proof fn digits_read_back(bytes: Seq<u8>)
    ensures
        paired_bytes(wire_chars(bytes)) == Some(bytes),
{
    let s = wire_chars(bytes);
    assert forall|k: int| 0 <= k < s.len() / 2 implies #[trigger] pair_ok(s, k) && hex_byte(
        s.subrange(2 * k, 2 * k + 2),
    ) == Ok::<u8, HexError>(bytes[k]) by {
        assert(s[2 * k] == wire_text(bytes[k])[0]);
        assert((2 * k + 1) / 2 == k && (2 * k + 1) % 2 == 1);
        assert(s[2 * k + 1] == wire_text(bytes[k])[1]);
        assert(s.subrange(2 * k, 2 * k + 2) =~= wire_text(bytes[k]));
        wire_text_is_byte_text(bytes[k]);
        byte_text_reads_back(bytes[k]);
    }
    let read = paired_bytes(s)->0;
    assert forall|k: int| 0 <= k < read.len() implies #[trigger] read[k] == bytes[k] by {
        assert(pair_ok(s, k));
    }
    assert(read =~= bytes);
}

proof fn digits_are_short(bytes: Seq<u8>, k: int)
    requires
        0 <= k <= 2 * bytes.len(),
    ensures
        utf8_len(wire_chars(bytes).take(k)) == k,
    decreases k,
{
    let s = wire_chars(bytes);
    if k > 0 {
        digits_are_short(bytes, k - 1);
        assert(s.take(k).drop_last() =~= s.take(k - 1));
        reveal_strlit("0123456789ABCDEF");
        let b = bytes[(k - 1) / 2];
        assert(s[k - 1] == wire_text(b)[(k - 1) % 2]);
        assert(s[k - 1] == wire_digit(b as int / 16) || s[k - 1] == wire_digit(b as int % 16));
    }
}

/// As many bytes of a packet as there are, 2064 at most.
pub open spec fn packet_part(bytes: Seq<u8>) -> Seq<u8> {
    if bytes.len() > 2064 {
        bytes.take(2064)
    } else {
        bytes
    }
}

proof fn cut_digits(bytes: Seq<u8>)
    ensures
        utf8_len(wire_chars(bytes)) == 2 * bytes.len(),
        even_part(wire_chars(bytes)) == wire_chars(bytes),
        bytes.len() >= 2064 ==> cuts_at(wire_chars(bytes), 4128) && cut_at(wire_chars(bytes), 4128)
            == wire_chars(bytes.take(2064)),
{
    let s = wire_chars(bytes);
    digits_are_short(bytes, 2 * bytes.len() as int);
    assert(s.take(2 * bytes.len() as int) =~= s);
    if bytes.len() >= 2064 {
        digits_are_short(bytes, 4128);
        assert(utf8_len(s.take(4128)) == 4128);
        cuts_are_exact(s, 4128, 4128);
        assert(s.take(4128) =~= wire_chars(bytes.take(2064)));
    }
}

/// The first packet of a recording of digits: its first 2064 bytes, or as many
/// as there are. The whitespace between the digits makes no difference.
pub proof fn first_packets(content: Seq<char>, bytes: Seq<u8>)
    requires
        content.len() > 0,
        without_white(content) == wire_chars(bytes),
    ensures
        first_packet(content) == Some(packet_part(bytes)),
        first_packet(Seq::empty()) is None,
{
    cut_digits(bytes);
    digits_read_back(bytes);
    if bytes.len() > 2064 {
        digits_read_back(bytes.take(2064));
        cut_digits(bytes.take(2064));
    }
}

/// A mark among the characters: A, A, 5 and 5, the letters in either case.
pub proof fn marks_among_characters(s: Seq<char>, i: int)
    ensures
        mark_at(s, i) == (0 <= i && i + 4 <= s.len() && (s[i] == 'A' || s[i] == 'a') && (s[i + 1]
            == 'A' || s[i + 1] == 'a') && s[i + 2] == '5' && s[i + 3] == '5'),
{
}

proof fn last_mark_is_last(s: Seq<char>, i: int, n: int)
    requires
        0 <= i < n,
        mark_at(s, i),
        forall|j: int| i < j < n ==> !#[trigger] mark_at(s, j),
    ensures
        last_mark(s, n) == Some(i),
    decreases n,
{
    if n - 1 > i {
        assert(!mark_at(s, n - 1));
        last_mark_is_last(s, i, n - 1);
    }
}

proof fn no_mark(s: Seq<char>, n: int)
    requires
        forall|j: int| 0 <= j < n ==> !#[trigger] mark_at(s, j),
    ensures
        last_mark(s, n) is None,
    decreases n,
{
    if n > 0 {
        assert(!mark_at(s, n - 1));
        no_mark(s, n - 1);
    }
}

/// The last packet of a recording begins at its last mark and has the 2064
/// bytes from there on, or as many as there are.
pub proof fn last_packets(content: Seq<char>, i: int, bytes: Seq<u8>)
    requires
        0 <= i < without_white(content).len(),
        mark_at(without_white(content), i),
        forall|j: int|
            i < j < without_white(content).len() ==> !#[trigger] mark_at(
                without_white(content),
                j,
            ),
        without_white(content).skip(i) == wire_chars(bytes),
    ensures
        last_packet(content) == Some(packet_part(bytes)),
{
    let clean = without_white(content);
    last_mark_is_last(clean, i, clean.len() as int);
    cut_digits(bytes);
    digits_read_back(bytes);
    if bytes.len() >= 2064 {
        digits_read_back(bytes.take(2064));
        assert(bytes.len() == 2064 ==> bytes.take(2064) =~= bytes);
    }
}

/// A recording without a mark has no last packet.
pub proof fn no_last_packet(content: Seq<char>)
    requires
        forall|j: int|
            0 <= j < without_white(content).len() ==> !#[trigger] mark_at(
                without_white(content),
                j,
            ),
    ensures
        last_packet(content) is None,
{
    no_mark(without_white(content), without_white(content).len() as int);
}

/// The report on a packet: its time from bytes 8 to 13, the least byte first,
/// its synchronisation code in bytes 0 and 1, its sequence in bytes 4 and 5.
pub proof fn packet_reports(data: Seq<u8>)
    ensures
        data.len() < 14 ==> packet_summary(data) == "Invalid/Incomplete Packet Data"@,
        data.len() >= 14 ==> packet_summary(data) == "Timestamp: "@ + header_time(
            1000 * (data[8] + 256 * (data[9] + 256 * (data[10] + 256 * data[11]))) + data[12] + 256
                * data[13],
        ) + " (UTC)\nSync Code: "@ + wire_text(data[0]) + " "@ + wire_text(data[1])
            + "\nSeq No:    "@ + wire_text(data[4]) + " "@ + wire_text(data[5]),
{
    if data.len() >= 14 {
        wire_text_is_byte_text(data[0]);
        wire_text_is_byte_text(data[1]);
        wire_text_is_byte_text(data[4]);
        wire_text_is_byte_text(data[5]);
    }
}

/// The report on the two ends of a recording: its size, the report on its first
/// and on its last packet, and the test condition.
pub proof fn reports_on_both_ends(
    size: Seq<char>,
    head: Option<Seq<u8>>,
    tail: Option<Seq<u8>>,
    delay: int,
    factor: Seq<char>,
)
    ensures
        ends_report(size, head, tail, delay, factor) == "File Size: "@ + size + " MB\n"@
            + "--------------------------------------------------\n"@ + "[START OF FILE]\n"@ + (
        if head is Some {
            packet_summary(head->0)
        } else {
            "Error: Could not read start of file."@
        }) + "\n"@ + "--------------------------------------------------\n"@ + "[END OF FILE]\n"@ + (
        if tail is Some {
            packet_summary(tail->0)
        } else {
            "Warning: Could not identify a valid packet at the end of file.\n(File might be truncated or format is inconsistent)"@
        }) + "\n"@ + "--------------------------------------------------\n"@ + "Delay Time: "@
            + int_text(delay) + "\nThreshold: "@ + factor + "\n"@,
{
}

} // verus!
