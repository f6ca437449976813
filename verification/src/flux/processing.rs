//! Flux packets and the lists that they add up to, and the report on a packet
//! header.

use crate::clock::{format_header_time, header_time, unix_from_seconds_and_millis, Millis};
use crate::hex::{hex_byte, hex_number, parse_i64, parse_u8, word_hex, word_text};
use crate::line::{be_u16, be_u32, millis_of, seconds_of};
use crate::models::flux::{FluxDataResult, FluxView};
use crate::observation::frame::{hex_nibble, nibble_of};
use crate::series::{empty_series, no_values, push_value, series_views, series_views_push};
use crate::text::{eq_ignore_case, same_ignoring_case, views};
use vstd::prelude::*;
use vstd::string::StringExecFns;
use vstd::string::StringSliceAdditionalSpecFns;

verus! {

/// The byte that two characters write: two digits, or a plus sign and a digit.
pub open spec fn pair_value(bytes: Seq<u8>, i: int) -> Option<u8> {
    if i + 2 > bytes.len() {
        None
    } else {
        match (nibble_of(bytes[i]), nibble_of(bytes[i + 1])) {
            (Some(high), Some(low)) => Some((16 * high + low) as u8),
            (None, Some(low)) => if bytes[i] == 0x2B {
                Some(low)
            } else {
                None
            },
            _ => None,
        }
    }
}

/// The byte that the two characters from `char_offset` on write.
pub fn parse_hex_byte(hex: &[u8], char_offset: usize) -> (r: Option<u8>)
    ensures
        r == pair_value(hex@, char_offset as int),
{
    if char_offset >= hex.len() || hex.len() - char_offset < 2 {
        return None;
    }
    match (hex_nibble(hex[char_offset]), hex_nibble(hex[char_offset + 1])) {
        (Some(high), Some(low)) => Some(high * 16 + low),
        (None, Some(low)) => if hex[char_offset] == 0x2B {
            Some(low)
        } else {
            None
        },
        _ => None,
    }
}

/// The number that the four characters from `i` on write.
pub open spec fn quad_value(bytes: Seq<u8>, i: int) -> int {
    256 * pair_value(bytes, i)->0 + pair_value(bytes, i + 2)->0
}

fn parse_hex_word(hex: &[u8], char_offset: usize) -> (r: Option<u16>)
    requires
        char_offset + 2 <= usize::MAX,
    ensures
        match r {
            Some(v) => pair_value(hex@, char_offset as int) is Some && pair_value(
                hex@,
                char_offset + 2,
            ) is Some && v == quad_value(hex@, char_offset as int),
            None => pair_value(hex@, char_offset as int) is None || pair_value(
                hex@,
                char_offset + 2,
            ) is None,
        },
{
    match (parse_hex_byte(hex, char_offset), parse_hex_byte(hex, char_offset + 2)) {
        (Some(high), Some(low)) => Some(be_u16(high, low)),
        _ => None,
    }
}

/// The pair number `k` of a text is hexadecimal.
pub open spec fn readable(bytes: Seq<u8>, k: int) -> bool {
    pair_value(bytes, 2 * k) is Some
}

/// The byte pairs of a packet that hold its time, counts and slots are all
/// hexadecimal.
pub open spec fn packet_readable(bytes: Seq<u8>) -> bool {
    forall|k: int| 16 <= k < 2032 ==> #[trigger] readable(bytes, k)
}

/// The packet that 4064 or more characters write: its time, the particle
/// counts, and of each slot the layer in the top three bits and the offset
/// time in the low twelve.
pub open spec fn flux_packet(bytes: Seq<u8>) -> Option<FluxView> {
    if bytes.len() >= 4064 && packet_readable(bytes) {
        Some(
            FluxView {
                time_millis: quad_value(bytes, 32),
                counting: Seq::new(7, |i: int| quad_value(bytes, 36 + 4 * i) as i32),
                layer: Seq::new(1000, |i: int| (quad_value(bytes, 64 + 4 * i) / 8192) as i32),
                offset_time: Seq::new(1000, |i: int| (quad_value(bytes, 64 + 4 * i) % 4096) as i32),
            },
        )
    } else {
        None
    }
}

/// Collects flux packets.
#[derive(Debug, Clone)]
pub struct FluxAccumulator {
    /// The time that each packet covers, in milliseconds.
    pub time_millis_list: Vec<i32>,
    /// For each of the seven layers, the count of each packet.
    pub particle_counting_lists: Vec<Vec<i32>>,
    pub particle_layer_list: Vec<Vec<i32>>,
    pub particle_offset_time_list: Vec<Vec<i32>>,
    pub all_results: Vec<FluxDataResult>,
}

/// What a list of packets says.
pub open spec fn flux_views(results: Seq<FluxDataResult>) -> Seq<FluxView> {
    results.map_values(|p: FluxDataResult| p@)
}

/// The counts of one layer, packet by packet.
pub open spec fn layer_counts(packets: Seq<FluxView>, layer: int) -> Seq<i32> {
    packets.map_values(|p: FluxView| p.counting[layer])
}

impl View for FluxAccumulator {
    type V = Seq<FluxView>;

    open spec fn view(&self) -> Seq<FluxView> {
        flux_views(self.all_results@)
    }
}

impl FluxAccumulator {
    /// The lists hold exactly what the packets say.
    pub open spec fn wf(self) -> bool {
        &&& self.time_millis_list@ == self@.map_values(|p: FluxView| p.time_millis as i32)
        &&& series_views(self.particle_counting_lists@) == Seq::new(
            7,
            |layer: int| layer_counts(self@, layer),
        )
        &&& series_views(self.particle_layer_list@) == self@.map_values(|p: FluxView| p.layer)
        &&& series_views(self.particle_offset_time_list@) == self@.map_values(
            |p: FluxView| p.offset_time,
        )
    }
}

impl Default for FluxAccumulator {
    fn default() -> (r: FluxAccumulator)
        ensures
            r.wf(),
            r@ == Seq::<FluxView>::empty(),
    {
        let r = FluxAccumulator {
            time_millis_list: Vec::new(),
            particle_counting_lists: empty_series(7),
            particle_layer_list: Vec::new(),
            particle_offset_time_list: Vec::new(),
            all_results: Vec::new(),
        };
        proof {
            no_packets(r);
        }
        r
    }
}

proof fn no_packets(r: FluxAccumulator)
    requires
        r.time_millis_list@.len() == 0,
        series_views(r.particle_counting_lists@) == no_values(7),
        r.particle_layer_list@.len() == 0,
        r.particle_offset_time_list@.len() == 0,
        r.all_results@.len() == 0,
    ensures
        r.wf(),
        r@ == Seq::<FluxView>::empty(),
{
    assert(r@ =~= Seq::<FluxView>::empty());
    assert forall|layer: int| 0 <= layer < 7 implies #[trigger] no_values(7)[layer] == layer_counts(
        r@,
        layer,
    ) by {
        assert(layer_counts(r@, layer) =~= Seq::<i32>::empty());
    }
    assert(series_views(r.particle_counting_lists@) =~= Seq::new(
        7,
        |layer: int| layer_counts(r@, layer),
    ));
    assert(r.time_millis_list@ =~= r@.map_values(|p: FluxView| p.time_millis as i32));
    assert(series_views(r.particle_layer_list@) =~= r@.map_values(|p: FluxView| p.layer));
    assert(series_views(r.particle_offset_time_list@) =~= r@.map_values(
        |p: FluxView| p.offset_time,
    ));
}

/// The first seven series with one value each added.
fn push_counts(lists: &mut Vec<Vec<i32>>, counts: &Vec<i32>)
    requires
        series_views(old(lists)@).len() == 7,
        counts@.len() == 7,
    ensures
        series_views(final(lists)@) == Seq::new(
            7,
            |layer: int| series_views(old(lists)@)[layer].push(counts@[layer]),
        ),
{
    let ghost start = series_views(lists@);
    for i in 0..7usize
        invariant
            counts@.len() == 7,
            start.len() == 7,
            series_views(lists@).len() == 7,
            forall|k: int|
                0 <= k < i ==> #[trigger] series_views(lists@)[k] == start[k].push(counts@[k]),
            forall|k: int| i <= k < 7 ==> #[trigger] series_views(lists@)[k] == start[k],
    {
        push_value(lists, i, counts[i]);
    }
    assert(series_views(lists@) =~= Seq::new(7, |layer: int| start[layer].push(counts@[layer])));
}

fn copy_of(values: &Vec<i32>) -> (r: Vec<i32>)
    ensures
        r@ == values@,
{
    let mut copy: Vec<i32> = Vec::new();
    for i in 0..values.len()
        invariant
            copy@ == values@.take(i as int),
    {
        copy.push(values[i]);
    }
    assert(values@.take(values@.len() as int) == values@);
    copy
}

/// The packet that a text writes.
pub fn parse_flux_packet(hex_string: &str) -> (r: Option<FluxDataResult>)
    ensures
        match r {
            Some(p) => flux_packet(hex_string.spec_bytes()) == Some(p@),
            None => flux_packet(hex_string.spec_bytes()) is None,
        },
{
    let hex = hex_string.as_bytes();
    if hex.len() < 4064 {
        return None;
    }
    let time_millis: i32 = match parse_hex_word(hex, 32) {
        Some(v) => v as i32,
        None => {
            assert(!readable(hex@, 16) || !readable(hex@, 17));
            return None;
        },
    };
    assert(readable(hex@, 16) && readable(hex@, 17));
    let mut particle_counting: Vec<i32> = Vec::new();
    for i in 0..7usize
        invariant
            hex@ == hex_string.spec_bytes(),
            particle_counting@ == Seq::new(i as nat, |j: int| quad_value(hex@, 36 + 4 * j) as i32),
            forall|k: int| 16 <= k < 18 + 2 * i ==> #[trigger] readable(hex@, k),
    {
        let ghost first: int = 18 + 2 * i;
        match parse_hex_word(hex, 36 + i * 4) {
            Some(v) => {
                particle_counting.push(v as i32);
                assert(readable(hex@, first) && readable(hex@, first + 1));
            },
            None => {
                assert(!readable(hex@, first) || !readable(hex@, first + 1));
                return None;
            },
        }
    }
    let mut particle_layer: Vec<i32> = Vec::new();
    let mut particle_offset_time: Vec<i32> = Vec::new();
    for i in 0..1000usize
        invariant
            hex@ == hex_string.spec_bytes(),
            particle_layer@ == Seq::new(
                i as nat,
                |j: int| (quad_value(hex@, 64 + 4 * j) / 8192) as i32,
            ),
            particle_offset_time@ == Seq::new(
                i as nat,
                |j: int| (quad_value(hex@, 64 + 4 * j) % 4096) as i32,
            ),
            forall|k: int| 16 <= k < 32 + 2 * i ==> #[trigger] readable(hex@, k),
    {
        let ghost first: int = 32 + 2 * i;
        match parse_hex_word(hex, 64 + i * 4) {
            Some(value) => {
                particle_layer.push((value / 8192) as i32);
                particle_offset_time.push((value % 4096) as i32);
                assert(readable(hex@, first) && readable(hex@, first + 1));
            },
            None => {
                assert(!readable(hex@, first) || !readable(hex@, first + 1));
                return None;
            },
        }
    }
    let packet = FluxDataResult {
        time_millis,
        particle_counting,
        particle_layer,
        particle_offset_time,
    };
    assert(packet_readable(hex@));
    assert(flux_packet(hex@)->0 =~= packet@);
    Some(packet)
}

impl FluxAccumulator {
    /// Forgets all packets.
    pub fn reset(&mut self)
        ensures
            final(self).wf(),
            final(self)@ == Seq::<FluxView>::empty(),
    {
        self.time_millis_list.clear();
        self.particle_counting_lists = empty_series(7);
        self.particle_layer_list.clear();
        self.particle_offset_time_list.clear();
        self.all_results.clear();
        proof {
            no_packets(*self);
        }
    }

    /// Adds the packet that a text writes. Returns `false`, and changes
    /// nothing, where the text is too short or not hexadecimal where it must
    /// be.
    pub fn process_flux_observation(&mut self, hex_string: &str) -> (r: bool)
        requires
            old(self).wf(),
        ensures
            final(self).wf(),
            r == (flux_packet(hex_string.spec_bytes()) is Some),
            r ==> final(self)@ == old(self)@.push(flux_packet(hex_string.spec_bytes())->0),
            !r ==> *final(self) == *old(self),
            r ==> final(self).time_millis_list@ == old(self).time_millis_list@.push(
                flux_packet(hex_string.spec_bytes())->0.time_millis as i32,
            ),
            r ==> forall|layer: int|
                #![trigger final(self).particle_counting_lists@[layer]]
                0 <= layer < 7 ==> final(self).particle_counting_lists@[layer]@ == old(
                    self,
                ).particle_counting_lists@[layer]@.push(
                    flux_packet(hex_string.spec_bytes())->0.counting[layer],
                ),
            r ==> series_views(final(self).particle_layer_list@) == series_views(
                old(self).particle_layer_list@,
            ).push(flux_packet(hex_string.spec_bytes())->0.layer),
            r ==> series_views(final(self).particle_offset_time_list@) == series_views(
                old(self).particle_offset_time_list@,
            ).push(flux_packet(hex_string.spec_bytes())->0.offset_time),
    {
        let packet = match parse_flux_packet(hex_string) {
            Some(packet) => packet,
            None => {
                return false;
            },
        };
        let ghost before = self@;
        let ghost after = before.push(packet@);
        self.time_millis_list.push(packet.time_millis);
        let ghost counts_before = self.particle_counting_lists@;
        push_counts(&mut self.particle_counting_lists, &packet.particle_counting);
        proof {
            assert(series_views(counts_before).len() == counts_before.len());
            assert(series_views(self.particle_counting_lists@).len()
                == self.particle_counting_lists@.len());
            assert forall|l: int|
                #![trigger self.particle_counting_lists@[l]]
                0 <= l < 7 implies self.particle_counting_lists@[l]@ == counts_before[l]@.push(
                packet.particle_counting@[l],
            ) by {
                assert(series_views(self.particle_counting_lists@)[l]
                    == self.particle_counting_lists@[l]@);
                assert(series_views(counts_before)[l] == counts_before[l]@);
            }
        }
        let layer = copy_of(&packet.particle_layer);
        let offset_time = copy_of(&packet.particle_offset_time);
        proof {
            series_views_push(self.particle_layer_list@, layer);
            series_views_push(self.particle_offset_time_list@, offset_time);
            assert(flux_views(self.all_results@.push(packet)) == flux_views(self.all_results@).push(
                packet@,
            ));
            assert forall|l: int| 0 <= l < 7 implies layer_counts(before, l).push(
                packet@.counting[l],
            ) == #[trigger] layer_counts(after, l) by {
                assert(layer_counts(before, l).push(packet@.counting[l]) =~= layer_counts(after, l));
            }
        }
        self.particle_layer_list.push(layer);
        self.particle_offset_time_list.push(offset_time);
        self.all_results.push(packet);
        proof {
            assert(self.time_millis_list@ =~= after.map_values(|p: FluxView| p.time_millis as i32));
            assert(series_views(self.particle_counting_lists@) =~= Seq::new(
                7,
                |l: int| layer_counts(after, l),
            ));
            assert(series_views(self.particle_layer_list@) =~= after.map_values(
                |p: FluxView| p.layer,
            ));
            assert(series_views(self.particle_offset_time_list@) =~= after.map_values(
                |p: FluxView| p.offset_time,
            ));
        }
        true
    }
}

/// The instant of a text's timecode, in the twelve characters from 16 on: an
/// offset from 1970-01-01. 0 where the text is too short or not hexadecimal
/// there.
pub open spec fn text_time(bytes: Seq<u8>) -> int {
    if bytes.len() >= 28 && (forall|k: int|
        8 <= k < 14 ==> #[trigger] readable(bytes, k)) {
        1000 * (0x1_0000 * quad_value(bytes, 16) + quad_value(bytes, 20)) + quad_value(bytes, 24)
    } else {
        0
    }
}

/// The instant of a text's timecode.
pub fn get_date_time_from_hex(hex_string: &str) -> (r: Millis)
    ensures
        r == text_time(hex_string.spec_bytes()),
{
    let hex = hex_string.as_bytes();
    if hex.len() < 28 {
        return 0;
    }
    let mut timecode: Vec<u8> = Vec::new();
    let mut i: usize = 0;
    while i < 6
        invariant
            i <= 6,
            timecode@.len() == i,
            hex@.len() >= 28,
            forall|k: int| 0 <= k < i ==> pair_value(hex@, 16 + 2 * k) == Some(#[trigger] timecode@[k]),
            hex@ == hex_string.spec_bytes(),
        decreases 6 - i,
    {
        match parse_hex_byte(hex, 16 + i * 2) {
            Some(v) => {
                timecode.push(v);
            },
            None => {
                assert(!readable(hex@, 8 + i));
                return 0;
            },
        }
        i = i + 1;
    }
    proof {
        assert forall|k: int| 8 <= k < 14 implies #[trigger] readable(hex@, k) by {
            assert(pair_value(hex@, 16 + 2 * (k - 8)) == Some(timecode@[k - 8]));
        }
    }
    let seconds_part: u32 = be_u32(timecode[0], timecode[1], timecode[2], timecode[3]);
    let milliseconds_part: u16 = be_u16(timecode[4], timecode[5]);
    unix_from_seconds_and_millis(seconds_part, milliseconds_part)
}

/// The report on the header of a packet.
#[derive(Debug, Clone)]
pub struct HeaderParseResult {
    pub packet_sync: String,
    pub package_id: String,
    pub packet_seq: String,
    pub packet_data_len: String,
    pub timestamp: String,
    pub data_type: String,
    pub check_sum_hex: String,
    pub checksum_matches: bool,
}

/// What a report on a packet header says.
pub struct HeaderParseView {
    pub packet_sync: Seq<char>,
    pub package_id: Seq<char>,
    pub packet_seq: Seq<char>,
    pub packet_data_len: Seq<char>,
    pub timestamp: Seq<char>,
    pub data_type: Seq<char>,
    pub check_sum_hex: Seq<char>,
    pub checksum_matches: bool,
}

impl View for HeaderParseResult {
    type V = HeaderParseView;

    open spec fn view(&self) -> HeaderParseView {
        HeaderParseView {
            packet_sync: self.packet_sync@,
            package_id: self.package_id@,
            packet_seq: self.packet_seq@,
            packet_data_len: self.packet_data_len@,
            timestamp: self.timestamp@,
            data_type: self.data_type@,
            check_sum_hex: self.check_sum_hex@,
            checksum_matches: self.checksum_matches,
        }
    }
}

/// A title and two byte texts, with a space between them.
pub open spec fn titled_pair(title: Seq<char>, tokens: Seq<Seq<char>>, i: int) -> Seq<char> {
    title + tokens[i] + " "@ + tokens[i + 1]
}

/// The sum of the `n` bytes from byte 8 of a packet on; a byte that is no
/// number counts as 0.
pub open spec fn byte_sum(tokens: Seq<Seq<char>>, n: nat) -> int
    decreases n,
{
    if n == 0 {
        0
    } else {
        byte_sum(tokens, (n - 1) as nat) + hex_number(
            tokens[8 + n - 1],
            i64::MIN as int,
            i64::MAX as int,
        ).unwrap_or(0)
    }
}

/// The checksum of a packet: the low sixteen bits of the sum of its bytes 8 to
/// 2061, as four digits.
pub open spec fn checksum_text(tokens: Seq<Seq<char>>) -> Seq<char> {
    word_text(byte_sum(tokens, 2054) % 65536)
}

/// The report on the header of a packet that has its 2064 bytes.
pub open spec fn packet_report(tokens: Seq<Seq<char>>) -> Option<HeaderParseView> {
    if tokens.len() < 2064 {
        None
    } else {
        Some(
            HeaderParseView {
                packet_sync: titled_pair("Packet Synchronization Code: "@, tokens, 0),
                package_id: titled_pair("Package Identification: "@, tokens, 2),
                packet_seq: titled_pair("Packet Sequence: "@, tokens, 4),
                packet_data_len: titled_pair("Packet data length: "@, tokens, 6),
                timestamp: "Timestamp: "@ + header_time(
                    1000 * seconds_of(tokens) + millis_of(tokens),
                ),
                data_type: titled_pair("Data Type: "@, tokens, 14),
                check_sum_hex: titled_pair("Check Sum: "@, tokens, 2062),
                checksum_matches: same_ignoring_case(
                    checksum_text(tokens),
                    tokens[2062] + tokens[2063],
                ),
            },
        )
    }
}

fn report_pair(title: &str, hex_data: &[String], i: usize) -> (r: String)
    requires
        i + 1 < hex_data@.len(),
    ensures
        r@ == titled_pair(title@, views(hex_data@), i as int),
{
    let mut out = String::from_str(title);
    out.append(hex_data[i].as_str());
    out.append(" ");
    out.append(hex_data[i + 1].as_str());
    out
}

fn low_word(v: i64) -> (r: u32)
    ensures
        r == v as int % 65536,
{
    if v >= 0 {
        (v % 65536) as u32
    } else {
        let w: i64 = -(v + 1);
        (65535 - w % 65536) as u32
    }
}

proof fn low_words_add(a: int, b: int)
    ensures
        (a % 65536 + b % 65536) % 65536 == (a + b) % 65536,
{
}

fn checksum(hex_data: &[String]) -> (r: u16)
    requires
        hex_data@.len() >= 2064,
    ensures
        r == byte_sum(views(hex_data@), 2054) % 65536,
{
    let ghost tokens = views(hex_data@);
    let mut sum: u32 = 0;
    for k in 0..2054usize
        invariant
            hex_data@.len() >= 2064,
            tokens == views(hex_data@),
            sum == byte_sum(tokens, k as nat) % 65536,
            sum < 65536,
    {
        let value: i64 = match parse_i64(hex_data[8 + k].as_str()) {
            Some(v) => v,
            None => 0,
        };
        let low: u32 = low_word(value);
        proof {
            assert(hex_data@[8 + k as int]@ == tokens[8 + k as int]);
            low_words_add(byte_sum(tokens, k as nat), value as int);
        }
        sum = (sum + low) % 65536;
    }
    sum as u16
}

fn byte_or_zero(s: &str) -> (r: u8)
    ensures
        r == (match hex_byte(s@) {
            Ok(b) => b,
            Err(_) => 0u8,
        }),
{
    match parse_u8(s) {
        Ok(b) => b,
        Err(_) => 0,
    }
}

/// Reports on the header of a packet: its fields, its time as an offset from
/// 1970-01-01, and whether its checksum is right. `None` for fewer than 2064
/// bytes.
pub fn process_header_internal(hex_data: &[String]) -> (r: Option<HeaderParseResult>)
    ensures
        match r {
            Some(h) => packet_report(views(hex_data@)) == Some(h@),
            None => packet_report(views(hex_data@)) is None,
        },
{
    if hex_data.len() < 2064 {
        return None;
    }
    let seconds_part: u32 = be_u32(
        byte_or_zero(hex_data[8].as_str()),
        byte_or_zero(hex_data[9].as_str()),
        byte_or_zero(hex_data[10].as_str()),
        byte_or_zero(hex_data[11].as_str()),
    );
    let milliseconds_part: u16 = be_u16(
        byte_or_zero(hex_data[12].as_str()),
        byte_or_zero(hex_data[13].as_str()),
    );
    let time: i64 = unix_from_seconds_and_millis(seconds_part, milliseconds_part);
    let mut timestamp = String::from_str("Timestamp: ");
    timestamp.append(format_header_time(time).as_str());

    let checksum_calc = word_hex(checksum(hex_data));
    let mut checksum_from_data = hex_data[2062].clone();
    checksum_from_data.append(hex_data[2063].as_str());
    let checksum_matches = eq_ignore_case(checksum_calc.as_str(), checksum_from_data.as_str());

    Some(
        HeaderParseResult {
            packet_sync: report_pair("Packet Synchronization Code: ", hex_data, 0),
            package_id: report_pair("Package Identification: ", hex_data, 2),
            packet_seq: report_pair("Packet Sequence: ", hex_data, 4),
            packet_data_len: report_pair("Packet data length: ", hex_data, 6),
            timestamp,
            data_type: report_pair("Data Type: ", hex_data, 14),
            check_sum_hex: report_pair("Check Sum: ", hex_data, 2062),
            checksum_matches,
        },
    )
}

} // verus!
