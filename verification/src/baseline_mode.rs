//! Rules of baseline mode and its look at the ends of a recording.

use crate::clock::{format_header_time, header_time, unix_from_seconds_and_millis};
use crate::hex::{byte_text, hex_byte, parse_u8, push_byte_text, HexError};
use crate::lines::{byte_len, cut_at, cut_chars, cuts_at, utf8_len, utf8_len_strict};
use crate::line::{be_u16, be_u32};
use crate::models::baseline::BaselineData;
use crate::text::{
    ascii_upper, decimal, int_text, strip_whitespace, text_of, upper, without_white,
};
use vstd::prelude::*;
use vstd::string::StringExecFns;

verus! {

/// What the mode works on.
#[derive(Debug, Clone, Copy, PartialEq, Eq, Structural)]
pub enum BaselineMainMode {
    CutOffBaseline,
    BaselineSetting,
}

/// Whether the baseline is shown before or after its subtraction.
#[derive(Debug, Clone, Copy, PartialEq, Eq, Structural)]
pub enum BaselineSubtractMode {
    Before,
    After,
    BeforeLog,
    AfterLog,
}

impl BaselineSubtractMode {
    /// Whether the baseline is subtracted.
    pub fn should_subtract(self) -> (r: bool)
        ensures
            r == (self == BaselineSubtractMode::After || self == BaselineSubtractMode::AfterLog),
    {
        matches!(self, BaselineSubtractMode::After | BaselineSubtractMode::AfterLog)
    }
}

/// The channels of a layer: 1 to 3 for L2, L6 and L7, L1 for any other number.
pub fn layer_of(data: &BaselineData, layer_index: usize) -> (r: [i32; 16])
    ensures
        r == (if layer_index == 1 {
            data.l2
        } else if layer_index == 2 {
            data.l6
        } else if layer_index == 3 {
            data.l7
        } else {
            data.l1
        }),
{
    match layer_index {
        1 => data.l2,
        2 => data.l6,
        3 => data.l7,
        _ => data.l1,
    }
}

/// The number of a layer: 1 to 3 for L2, L6 and L7, L1 for any other number.
pub fn layer_id_of(layer_index: usize) -> (r: u32)
    ensures
        r == (if layer_index == 1 {
            2u32
        } else if layer_index == 2 {
            6u32
        } else if layer_index == 3 {
            7u32
        } else {
            1u32
        }),
{
    match layer_index {
        1 => 2,
        2 => 6,
        3 => 7,
        _ => 1,
    }
}

/// Digits of one packet.
pub const PACKET_DIGITS: i64 = 4128;

/// A text without its whitespace.
pub fn clean_hex(s: &str) -> (r: String)
    ensures
        r@ == without_white(s@),
{
    text_of(strip_whitespace(s).as_slice())
}

/// The pair number `k` of a text writes a byte.
pub open spec fn pair_ok(s: Seq<char>, k: int) -> bool {
    hex_byte(s.subrange(2 * k, 2 * k + 2)) is Ok
}

/// The bytes that the pairs of a text write. `None` where a character is left
/// over or a pair writes no byte.
pub open spec fn paired_bytes(s: Seq<char>) -> Option<Seq<u8>> {
    if s.len() % 2 == 0 && (forall|k: int| 0 <= k < s.len() / 2 ==> #[trigger] pair_ok(s, k)) {
        Some(
            Seq::new(
                s.len() / 2,
                |k: int| hex_byte(s.subrange(2 * k, 2 * k + 2))->Ok_0,
            ),
        )
    } else {
        None
    }
}

/// The bytes that the pairs of a text write.
pub fn hex_to_bytes(hex: &[char]) -> (r: Option<Vec<u8>>)
    ensures
        match r {
            Some(bytes) => paired_bytes(hex@) == Some(bytes@),
            None => paired_bytes(hex@) is None,
        },
{
    if hex.len() % 2 != 0 {
        return None;
    }
    let mut bytes: Vec<u8> = Vec::new();
    let mut k: usize = 0;
    while k < hex.len() / 2
        invariant
            hex@.len() % 2 == 0,
            k <= hex@.len() / 2,
            bytes@.len() == k,
            forall|j: int| 0 <= j < k ==> #[trigger] pair_is(hex@, j, bytes@[j]),
        decreases hex@.len() / 2 - k,
    {
        let pair = text_of(&hex[2 * k..2 * k + 2]);
        assert(pair@ == hex@.subrange(2 * k, 2 * k + 2));
        let ghost before = bytes@;
        match parse_u8(pair.as_str()) {
            Ok(b) => {
                bytes.push(b);
                proof {
                    assert(pair_is(hex@, k as int, b));
                    assert forall|j: int| 0 <= j < k + 1 implies #[trigger] pair_is(
                        hex@,
                        j,
                        bytes@[j],
                    ) by {
                        if j < k {
                            assert(pair_is(hex@, j, before[j]));
                        }
                    }
                }
            },
            Err(_) => {
                assert(!pair_ok(hex@, k as int));
                return None;
            },
        }
        k = k + 1;
    }
    proof {
        assert forall|j: int| 0 <= j < hex@.len() / 2 implies #[trigger] pair_ok(hex@, j) by {
            assert(pair_is(hex@, j, bytes@[j]));
        }
        let whole = paired_bytes(hex@)->0;
        assert forall|j: int| 0 <= j < bytes@.len() implies #[trigger] whole[j] == bytes@[j] by {
            assert(pair_is(hex@, j, bytes@[j]));
        }
        assert(whole =~= bytes@);
    }
    Some(bytes)
}

spec fn pair_is(s: Seq<char>, k: int, b: u8) -> bool {
    hex_byte(s.subrange(2 * k, 2 * k + 2)) == Ok::<u8, HexError>(b)
}

/// The text without its last character where its length in bytes is odd.
pub open spec fn even_part(s: Seq<char>) -> Seq<char> {
    if utf8_len(s) % 2 != 0 {
        s.drop_last()
    } else {
        s
    }
}

/// The first packet of a text: the bytes that its first 4128 digits write, or
/// as many as there are.
pub open spec fn first_packet(content: Seq<char>) -> Option<Seq<u8>> {
    let clean = without_white(content);
    if content.len() == 0 {
        None
    } else {
        paired_bytes(
            even_part(
                if utf8_len(clean) > 4128 {
                    cut_at(clean, 4128)
                } else {
                    clean
                },
            ),
        )
    }
}

fn even_len(chars: &[char]) -> (r: usize)
    requires
        utf8_len(chars@) <= i64::MAX,
    ensures
        r <= chars@.len(),
        chars@.take(r as int) == even_part(chars@),
{
    if byte_len(chars) % 2 != 0 {
        assert(chars@.len() > 0);
        assert(chars@.take(chars@.len() - 1) =~= chars@.drop_last());
        chars.len() - 1
    } else {
        assert(chars@.take(chars@.len() as int) =~= chars@);
        chars.len()
    }
}

/// The first packet of a text.
pub fn parse_first_packet(hex_content: &str) -> (r: Option<Vec<u8>>)
    requires
        utf8_len(without_white(hex_content@)) <= i64::MAX,
        utf8_len(without_white(hex_content@)) > 4128 ==> cuts_at(
            without_white(hex_content@),
            4128,
        ),
    ensures
        match r {
            Some(bytes) => first_packet(hex_content@) == Some(bytes@),
            None => first_packet(hex_content@) is None,
        },
{
    if hex_content.unicode_len() == 0 {
        return None;
    }
    let clean = strip_whitespace(hex_content);
    let all = clean.as_slice();
    let end: usize = if byte_len(all) > PACKET_DIGITS {
        cut_chars(all, PACKET_DIGITS)
    } else {
        all.len()
    };
    let head = &all[0..end];
    proof {
        assert(head@ =~= all@.take(end as int));
        assert(all@.take(all@.len() as int) =~= all@);
        utf8_len_strict(all@, end as int, all@.len() as int);
    }
    let even: usize = even_len(head);
    let part = &head[0..even];
    assert(part@ =~= head@.take(even as int));
    hex_to_bytes(part)
}

/// The mark of a packet stands at `i`, in either case.
pub open spec fn mark_at(s: Seq<char>, i: int) -> bool {
    &&& 0 <= i
    &&& i + 4 <= s.len()
    &&& upper(s[i]) == 'A'
    &&& upper(s[i + 1]) == 'A'
    &&& s[i + 2] == '5'
    &&& s[i + 3] == '5'
}

/// The last mark of a packet among the first `n` positions.
pub open spec fn last_mark(s: Seq<char>, n: int) -> Option<int>
    decreases n,
{
    if n <= 0 {
        None
    } else if mark_at(s, n - 1) {
        Some(n - 1)
    } else {
        last_mark(s, n - 1)
    }
}

/// The last packet of a text: the bytes that the 4128 digits from the last
/// mark on write, or as many as there are.
pub open spec fn last_packet(content: Seq<char>) -> Option<Seq<u8>> {
    let clean = without_white(content);
    match last_mark(clean, clean.len() as int) {
        Some(i) => if utf8_len(clean.skip(i)) >= 4128 {
            paired_bytes(cut_at(clean.skip(i), 4128))
        } else {
            paired_bytes(even_part(clean.skip(i)))
        },
        None => None,
    }
}

/// The last packet of a text does not end inside a character.
pub open spec fn packet_cuts(clean: Seq<char>) -> bool {
    match last_mark(clean, clean.len() as int) {
        Some(i) => utf8_len(clean.skip(i)) >= 4128 ==> cuts_at(clean.skip(i), 4128),
        None => true,
    }
}

fn find_last_mark(chars: &[char]) -> (r: Option<usize>)
    ensures
        match r {
            Some(i) => last_mark(chars@, chars@.len() as int) == Some(i as int) && i < chars@.len(),
            None => last_mark(chars@, chars@.len() as int) is None,
        },
{
    let mut n: usize = chars.len();
    while n > 0
        invariant
            n <= chars@.len(),
            last_mark(chars@, chars@.len() as int) == last_mark(chars@, n as int),
        decreases n,
    {
        let i: usize = n - 1;
        if chars.len() - i >= 4 {
            let here = ascii_upper(chars[i]) == 'A' && ascii_upper(chars[i + 1]) == 'A' && chars[i
                + 2] == '5' && chars[i + 3] == '5';
            assert(here == mark_at(chars@, i as int));
            if here {
                return Some(i);
            }
        }
        n = i;
    }
    None
}

/// The last packet of a text.
pub fn find_last_packet(hex_content: &str) -> (r: Option<Vec<u8>>)
    requires
        utf8_len(without_white(hex_content@)) <= i64::MAX,
        packet_cuts(without_white(hex_content@)),
    ensures
        match r {
            Some(bytes) => last_packet(hex_content@) == Some(bytes@),
            None => last_packet(hex_content@) is None,
        },
{
    let clean = strip_whitespace(hex_content);
    let all = clean.as_slice();
    let at: usize = match find_last_mark(all) {
        Some(at) => at,
        None => {
            return None;
        },
    };
    proof {
        last_mark_found(all@, all@.len() as int);
    }
    let tail = &all[at..all.len()];
    proof {
        assert(tail@ =~= all@.skip(at as int));
        suffix_shorter(all@, at as int);
    }
    if byte_len(tail) >= PACKET_DIGITS {
        let end: usize = cut_chars(tail, PACKET_DIGITS);
        let part = &tail[0..end];
        assert(part@ =~= tail@.take(end as int));
        hex_to_bytes(part)
    } else {
        let even: usize = even_len(tail);
        let part = &tail[0..even];
        assert(part@ =~= tail@.take(even as int));
        hex_to_bytes(part)
    }
}

proof fn last_mark_found(s: Seq<char>, n: int)
    ensures
        last_mark(s, n) matches Some(i) ==> 0 <= i < n && mark_at(s, i),
    decreases n,
{
    if n > 0 && !mark_at(s, n - 1) {
        last_mark_found(s, n - 1);
    }
}

proof fn suffix_shorter(s: Seq<char>, at: int)
    requires
        0 <= at <= s.len(),
    ensures
        utf8_len(s.skip(at)) <= utf8_len(s),
    decreases s.len(),
{
    if at < s.len() {
        suffix_shorter(s.drop_last(), at);
        assert(s.skip(at).drop_last() =~= s.drop_last().skip(at));
    } else {
        assert(s.skip(at) =~= Seq::<char>::empty());
        utf8_len_strict(s, 0, s.len() as int);
        assert(s.take(s.len() as int) =~= s);
        assert(s.take(0) =~= Seq::<char>::empty());
    }
}

/// The report on a packet: its time, in little-endian order here, and its
/// synchronisation code and sequence number.
pub open spec fn packet_summary(data: Seq<u8>) -> Seq<char> {
    if data.len() < 14 {
        "Invalid/Incomplete Packet Data"@
    } else {
        "Timestamp: "@ + header_time(
            1000 * (0x100_0000 * data[11] + 0x1_0000 * data[10] + 0x100 * data[9] + data[8]) + 0x100
                * data[13] + data[12],
        ) + " (UTC)\nSync Code: "@ + byte_text(data[0]) + " "@ + byte_text(data[1])
            + "\nSeq No:    "@ + byte_text(data[4]) + " "@ + byte_text(data[5])
    }
}

/// The report on a packet.
pub fn parse_header_summary(data: &[u8]) -> (r: String)
    ensures
        r@ == packet_summary(data@),
{
    if data.len() < 14 {
        return String::from_str("Invalid/Incomplete Packet Data");
    }
    let seconds_part: u32 = be_u32(data[11], data[10], data[9], data[8]);
    let milliseconds_part: u16 = be_u16(data[13], data[12]);
    let time: i64 = unix_from_seconds_and_millis(seconds_part, milliseconds_part);
    let mut out = String::from_str("Timestamp: ");
    out.append(format_header_time(time).as_str());
    out.append(" (UTC)\nSync Code: ");
    push_byte_text(&mut out, data[0]);
    out.append(" ");
    push_byte_text(&mut out, data[1]);
    out.append("\nSeq No:    ");
    push_byte_text(&mut out, data[4]);
    out.append(" ");
    push_byte_text(&mut out, data[5]);
    out
}

/// The report on the two ends of a recording.
pub open spec fn ends_report(
    file_size: Seq<char>,
    head: Option<Seq<u8>>,
    tail: Option<Seq<u8>>,
    delay_time_ms: int,
    k_factor: Seq<char>,
) -> Seq<char> {
    let rule = "--------------------------------------------------\n"@;
    "File Size: "@ + file_size + " MB\n"@ + rule + "[START OF FILE]\n"@ + (match head {
        Some(bytes) => packet_summary(bytes),
        None => "Error: Could not read start of file."@,
    }) + "\n"@ + rule + "[END OF FILE]\n"@ + (match tail {
        Some(bytes) => packet_summary(bytes),
        None => "Warning: Could not identify a valid packet at the end of file.\n(File might be truncated or format is inconsistent)"@,
    }) + "\n"@ + rule + "Delay Time: "@ + int_text(delay_time_ms) + "\nThreshold: "@ + k_factor
        + "\n"@
}

/// The report on the two ends of a recording: its size and threshold as they
/// are shown, and its first and last packet.
pub fn check_header_summary(
    file_size: &str,
    head: &Option<Vec<u8>>,
    tail: &Option<Vec<u8>>,
    delay_time_ms: i32,
    k_factor: &str,
) -> (r: String)
    ensures
        r@ == ends_report(
            file_size@,
            match *head {
                Some(bytes) => Some(bytes@),
                None => None,
            },
            match *tail {
                Some(bytes) => Some(bytes@),
                None => None,
            },
            delay_time_ms as int,
            k_factor@,
        ),
{
    let rule = "--------------------------------------------------\n";
    let mut out = String::from_str("File Size: ");
    out.append(file_size);
    out.append(" MB\n");
    out.append(rule);
    out.append("[START OF FILE]\n");
    match head {
        Some(bytes) => {
            out.append(parse_header_summary(bytes.as_slice()).as_str());
        },
        None => {
            out.append("Error: Could not read start of file.");
        },
    }
    out.append("\n");
    out.append(rule);
    out.append("[END OF FILE]\n");
    match tail {
        Some(bytes) => {
            out.append(parse_header_summary(bytes.as_slice()).as_str());
        },
        None => {
            out.append(
                "Warning: Could not identify a valid packet at the end of file.\n(File might be truncated or format is inconsistent)",
            );
        },
    }
    out.append("\n");
    out.append(rule);
    out.append("Delay Time: ");
    out.append(decimal(delay_time_ms as i64).as_str());
    out.append("\nThreshold: ");
    out.append(k_factor);
    out.append("\n");
    out
}

} // verus!
