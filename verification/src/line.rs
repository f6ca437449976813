//! One line of telemetry, split into its hexadecimal bytes.
//!
//! A line is a sequence of byte texts ("E2", "25", ..). All modes share the
//! sixteen header bytes: synchronisation code, package id, sequence number,
//! data length, six bytes of timecode and the data type.

use crate::clock::{epoch_millis, observation_time, Millis};
use crate::hex::{hex_byte, hex_number, parse_i32, parse_u8, HexError};
use crate::text::{chars_of, eq_ignore_case, same_ignoring_case, views, views_push};
use vstd::prelude::*;
use vstd::string::StringExecFns;

verus! {

/// `n` reduced to the range of `i32` by wrapping around.
pub open spec fn wrap32(n: int) -> int {
    (n + 0x8000_0000) % 0x1_0000_0000 - 0x8000_0000
}

/// `n` reduced to the range of `i32` by wrapping around.
pub fn wrap_to_i32(n: i64) -> (r: i32)
    requires
        -0x100_0000_0000 <= n <= 0x100_0000_0000,
    ensures
        r == wrap32(n as int),
{
    ((n + 0x100_8000_0000) % 0x1_0000_0000 - 0x8000_0000) as i32
}

/// The number at byte `i` of a line; 0 where the line has no such byte or the
/// byte is not a hexadecimal number.
pub open spec fn byte_at(tokens: Seq<Seq<char>>, i: int) -> int {
    if 0 <= i < tokens.len() {
        hex_number(tokens[i], i32::MIN as int, i32::MAX as int).unwrap_or(0)
    } else {
        0
    }
}

/// The big-endian number in the bytes `i` and `i + 1` of a line.
pub open spec fn pair_at(tokens: Seq<Seq<char>>, i: int) -> int {
    wrap32(256 * byte_at(tokens, i) + byte_at(tokens, i + 1))
}

/// The text at byte `i` of a line, "00" where the line has no such byte.
pub open spec fn token_or_zero(tokens: Seq<Seq<char>>, i: int) -> Seq<char> {
    if 0 <= i < tokens.len() {
        tokens[i]
    } else {
        "00"@
    }
}

/// The texts of `len` bytes from `start` on, one after the other.
pub open spec fn span_text(tokens: Seq<Seq<char>>, start: int, len: nat) -> Seq<char>
    decreases len,
{
    if len == 0 {
        Seq::empty()
    } else {
        span_text(tokens, start, (len - 1) as nat) + token_or_zero(tokens, start + len - 1)
    }
}

/// The number at byte `i` of a line; 0 where there is none.
pub fn byte(hex_data: &[String], i: usize) -> (r: i32)
    ensures
        r == byte_at(views(hex_data@), i as int),
{
    if i < hex_data.len() {
        match parse_i32(hex_data[i].as_str()) {
            Some(v) => v,
            None => 0,
        }
    } else {
        0
    }
}

/// The big-endian number in the bytes `i` and `i + 1` of a line.
pub fn dec_pair(hex_data: &[String], i: usize) -> (r: i32)
    requires
        i < usize::MAX,
    ensures
        r == pair_at(views(hex_data@), i as int),
{
    let high: i64 = byte(hex_data, i) as i64;
    let low: i64 = byte(hex_data, i + 1) as i64;
    wrap_to_i32(256 * high + low)
}

/// The texts of `len` bytes from `start` on, "00" for each missing byte.
pub fn hex_span(hex_data: &[String], start: usize, len: usize) -> (r: String)
    requires
        start + len <= usize::MAX,
    ensures
        r@ == span_text(views(hex_data@), start as int, len as nat),
{
    let mut out = String::new();
    for k in 0..len
        invariant
            start + len <= usize::MAX,
            out@ == span_text(views(hex_data@), start as int, k as nat),
    {
        if start + k < hex_data.len() {
            out.append(hex_data[start + k].as_str());
        } else {
            out.append("00");
        }
    }
    out
}

/// Sixteen numbers of two bytes each, from byte `start` of a line on.
pub open spec fn block_of(tokens: Seq<Seq<char>>, start: int) -> Seq<i32> {
    Seq::new(16, |i: int| pair_at(tokens, start + 2 * i) as i32)
}

/// Decodes a block of 32 bytes into its sixteen numbers.
pub fn block_values(hex_data: &[String], start: usize) -> (r: Vec<i32>)
    requires
        start + 32 <= usize::MAX,
    ensures
        r@ == block_of(views(hex_data@), start as int),
{
    let ghost block = block_of(views(hex_data@), start as int);
    let mut values: Vec<i32> = Vec::new();
    for i in 0..16usize
        invariant
            start + 32 <= usize::MAX,
            block == block_of(views(hex_data@), start as int),
            values@ == block.take(i as int),
    {
        values.push(dec_pair(hex_data, start + i * 2));
        assert(block.take(i + 1) == block.take(i as int).push(block[i as int]));
    }
    assert(block.take(16) == block);
    values
}

/// The line-header fields around the timecode.
#[derive(Debug, Clone, Default)]
pub struct LineHeaderFields {
    pub packet_sync: String,
    pub package_id: i32,
    pub packet_sequence: i32,
    pub packet_data_length: i32,
    pub data_type: String,
}

/// What a line header says.
pub struct HeaderView {
    pub packet_sync: Seq<char>,
    pub package_id: int,
    pub packet_sequence: int,
    pub packet_data_length: int,
    pub data_type: Seq<char>,
}

impl View for LineHeaderFields {
    type V = HeaderView;

    open spec fn view(&self) -> HeaderView {
        HeaderView {
            packet_sync: self.packet_sync@,
            package_id: self.package_id as int,
            packet_sequence: self.packet_sequence as int,
            packet_data_length: self.packet_data_length as int,
            data_type: self.data_type@,
        }
    }
}

/// Byte `i` of a line is a hexadecimal number.
pub open spec fn numeric(tokens: Seq<Seq<char>>, i: int) -> bool {
    hex_number(tokens[i], i32::MIN as int, i32::MAX as int) is Some
}

/// The header of a line of at least sixteen bytes whose bytes 2 to 7 are
/// hexadecimal numbers.
pub open spec fn header_of(tokens: Seq<Seq<char>>) -> Option<HeaderView> {
    if tokens.len() >= 16 && (forall|i: int| 2 <= i < 8 ==> #[trigger] numeric(tokens, i)) {
        Some(
            HeaderView {
                packet_sync: tokens[0] + tokens[1],
                package_id: pair_at(tokens, 2),
                packet_sequence: pair_at(tokens, 4),
                packet_data_length: pair_at(tokens, 6),
                data_type: tokens[14] + tokens[15],
            },
        )
    } else {
        None
    }
}

fn numeric_pair(hex_data: &[String], i: usize) -> (r: Option<i32>)
    requires
        i + 1 < hex_data@.len(),
    ensures
        match r {
            Some(v) => v == pair_at(views(hex_data@), i as int) && numeric(
                views(hex_data@),
                i as int,
            ) && numeric(views(hex_data@), i + 1),
            None => !numeric(views(hex_data@), i as int) || !numeric(views(hex_data@), i + 1),
        },
{
    match (parse_i32(hex_data[i].as_str()), parse_i32(hex_data[i + 1].as_str())) {
        (Some(high), Some(low)) => Some(wrap_to_i32(256 * high as i64 + low as i64)),
        _ => None,
    }
}

fn joined_pair(hex_data: &[String], i: usize) -> (r: String)
    requires
        i + 1 < hex_data@.len(),
    ensures
        r@ == views(hex_data@)[i as int] + views(hex_data@)[i + 1],
{
    let mut out = hex_data[i].clone();
    out.append(hex_data[i + 1].as_str());
    out
}

/// Decodes the line-header fields around the timecode: synchronisation code,
/// package id, packet sequence, packet data length and data type.
pub fn parse_line_header_fields(hex_data: &[String]) -> (r: Option<LineHeaderFields>)
    ensures
        match r {
            Some(h) => header_of(views(hex_data@)) == Some(h@),
            None => header_of(views(hex_data@)) is None,
        },
{
    if hex_data.len() < 16 {
        return None;
    }
    match (numeric_pair(hex_data, 2), numeric_pair(hex_data, 4), numeric_pair(hex_data, 6)) {
        (Some(package_id), Some(packet_sequence), Some(packet_data_length)) => Some(
            LineHeaderFields {
                packet_sync: joined_pair(hex_data, 0),
                package_id,
                packet_sequence,
                packet_data_length,
                data_type: joined_pair(hex_data, 14),
            },
        ),
        _ => None,
    }
}

/// The error of the first of the bytes `from..to` of a line that is no
/// two-digit number.
pub open spec fn first_bad_byte(tokens: Seq<Seq<char>>, from: int, to: int) -> Option<HexError>
    decreases to - from,
{
    if from >= to {
        None
    } else {
        match hex_byte(tokens[from]) {
            Err(e) => Some(e),
            Ok(_) => first_bad_byte(tokens, from + 1, to),
        }
    }
}

/// The byte value of token `i`, 0 where it is not one.
pub open spec fn byte_value(tokens: Seq<Seq<char>>, i: int) -> int {
    match hex_byte(tokens[i]) {
        Ok(b) => b as int,
        Err(_) => 0,
    }
}

/// The four bytes of seconds from byte 8 of a line on.
pub open spec fn seconds_of(tokens: Seq<Seq<char>>) -> int {
    0x100_0000 * byte_value(tokens, 8) + 0x1_0000 * byte_value(tokens, 9) + 0x100 * byte_value(
        tokens,
        10,
    ) + byte_value(tokens, 11)
}

/// The two bytes of milliseconds from byte 12 of a line on.
pub open spec fn millis_of(tokens: Seq<Seq<char>>) -> int {
    0x100 * byte_value(tokens, 12) + byte_value(tokens, 13)
}

/// The instant of a line's timecode, or why there is none. All six bytes of the
/// timecode must be readable; its milliseconds are truncated.
pub open spec fn time_of(tokens: Seq<Seq<char>>) -> Result<int, Seq<char>> {
    if tokens.len() < 14 {
        Err("insufficient hex data for timecode"@)
    } else {
        match first_bad_byte(tokens, 8, 14) {
            Some(e) => Err(e.text()),
            None => Ok(epoch_millis() + 1000 * seconds_of(tokens)),
        }
    }
}

/// A line's instant is a whole second in the 136 years after the observation
/// epoch.
pub proof fn time_bounds(tokens: Seq<Seq<char>>)
    ensures
        time_of(tokens) matches Ok(t) ==> t % 1000 == 0 && epoch_millis() <= t <= epoch_millis()
            + 4_294_967_295_000,
{
}

/// The big-endian number in four bytes.
pub fn be_u32(a: u8, b: u8, c: u8, d: u8) -> (r: u32)
    ensures
        r == 0x100_0000 * a + 0x1_0000 * b + 0x100 * c + d,
{
    a as u32 * 0x100_0000 + b as u32 * 0x1_0000 + c as u32 * 0x100 + d as u32
}

/// The big-endian number in two bytes.
pub fn be_u16(a: u8, b: u8) -> (r: u16)
    ensures
        r == 0x100 * a + b,
{
    a as u16 * 0x100 + b as u16
}

/// The instant of a line: its timecode counts seconds and milliseconds from
/// the observation epoch, and the milliseconds are truncated.
pub fn get_date_time_from_hex_data(hex_data: &[String]) -> (r: Result<Millis, String>)
    ensures
        match r {
            Ok(t) => time_of(views(hex_data@)) == Ok::<int, Seq<char>>(t as int),
            Err(e) => time_of(views(hex_data@)) == Err::<int, Seq<char>>(e@),
        },
{
    if hex_data.len() < 14 {
        return Err(String::from_str("insufficient hex data for timecode"));
    }
    let ghost tokens = views(hex_data@);
    let mut timecode: Vec<u8> = Vec::new();
    let mut i: usize = 8;
    while i < 14
        invariant
            8 <= i <= 14 <= hex_data@.len(),
            tokens == views(hex_data@),
            timecode@.len() == i - 8,
            forall|k: int|
                8 <= k < i ==> hex_byte(tokens[k]) == Ok::<u8, HexError>(#[trigger] timecode@[k - 8]),
            first_bad_byte(tokens, 8, 14) == first_bad_byte(tokens, i as int, 14),
        decreases 14 - i,
    {
        match parse_u8(hex_data[i].as_str()) {
            Ok(b) => {
                timecode.push(b);
            },
            Err(e) => {
                return Err(String::from_str(e.message()));
            },
        }
        i = i + 1;
    }
    proof {
        assert forall|k: int| 8 <= k < 14 implies byte_value(tokens, k) == timecode@[k - 8] by {
            assert(hex_byte(tokens[k]) == Ok::<u8, HexError>(timecode@[k - 8]));
        }
    }
    let seconds: u32 = be_u32(timecode[0], timecode[1], timecode[2], timecode[3]);
    Ok(observation_time(seconds, 0))
}

/// A text in pieces of two characters; a last single character is dropped.
pub open spec fn pairs_of(text: Seq<char>) -> Seq<Seq<char>> {
    Seq::new(text.len() / 2, |i: int| text.subrange(2 * i, 2 * i + 2))
}

/// Splits a line into its bytes, two characters each.
pub fn split_hex_data(hex_string: &str) -> (r: Vec<String>)
    ensures
        views(r@) == pairs_of(hex_string@),
{
    let chars = chars_of(hex_string);
    let count: usize = chars.len() / 2;
    let mut out: Vec<String> = Vec::new();
    for i in 0..count
        invariant
            chars@ == hex_string@,
            count == chars.len() / 2,
            views(out@) == pairs_of(hex_string@).take(i as int),
    {
        let mut pair = String::new();
        pair.push(chars[2 * i]);
        pair.push(chars[2 * i + 1]);
        assert(pair@ == hex_string@.subrange(2 * i, 2 * i + 2));
        proof {
            views_push(out@, pair);
        }
        out.push(pair);
        assert(pairs_of(hex_string@).take(i + 1) == pairs_of(hex_string@).take(i as int).push(
            pair@,
        ));
    }
    assert(pairs_of(hex_string@).take(count as int) == pairs_of(hex_string@));
    out
}

/// The line begins with the synchronisation code E2 25, in either case.
pub open spec fn synchronised(tokens: Seq<Seq<char>>) -> bool {
    &&& tokens.len() >= 2
    &&& same_ignoring_case(tokens[0], "E2"@)
    &&& same_ignoring_case(tokens[1], "25"@)
}

/// Whether a line begins with the synchronisation code.
pub fn validate_header(hex_data: &[String]) -> (r: bool)
    ensures
        r == synchronised(views(hex_data@)),
{
    if hex_data.len() < 2 {
        return false;
    }
    eq_ignore_case(hex_data[0].as_str(), "E2") && eq_ignore_case(hex_data[1].as_str(), "25")
}

/// The bytes of a split text, one after the other, are the text without its
/// unpaired last character.
pub proof fn split_pieces_join(text: Seq<char>)
    ensures
        span_text(pairs_of(text), 0, pairs_of(text).len()) == text.take((text.len() / 2 * 2) as int),
{
    split_pieces_join_up_to(text, text.len() / 2);
}

proof fn split_pieces_join_up_to(text: Seq<char>, n: nat)
    requires
        n <= text.len() / 2,
    ensures
        span_text(pairs_of(text), 0, n) == text.take(n as int * 2),
    decreases n,
{
    if n > 0 {
        split_pieces_join_up_to(text, (n - 1) as nat);
        assert(text.take(n as int * 2) == text.take((n - 1) * 2) + text.subrange(
            2 * (n - 1),
            2 * (n - 1) + 2,
        ));
    }
}

} // verus!
