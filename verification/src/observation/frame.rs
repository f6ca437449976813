//! Frames of the observation stream.
//!
//! A recording is hexadecimal text with whitespace anywhere, even inside a
//! byte. A frame is 256 bytes: a header of sixteen, five particles of 34 bytes
//! each and a tail of housekeeping. Damaged frames occur, so a frame is found
//! by its header and is accepted only where nothing contradicts it.

use crate::clock::{epoch_millis, observation_time, Millis};
use crate::line::{be_u16, be_u32, HeaderView, LineHeaderFields};
use vstd::prelude::*;

verus! {

/// Bytes of a frame before its first particle.
pub const HEADER_OFFSET: usize = 16;

/// Bytes of one particle.
pub const PARTICLE_DATA_LENGTH: usize = 34;

/// Particles in one frame.
pub const PARTICLES_PER_LINE: usize = 5;

/// Bytes of one frame.
pub const FRAME_SIZE: usize = 256;

/// Data length in the header of current frames.
pub const MODERN_PACKET_LENGTH: u16 = 0x00F7;

/// Data length in the header of older frames.
pub const LEGACY_PACKET_LENGTH: u16 = 0x002D;

/// ASCII whitespace: space, tab, line feed, form feed, carriage return.
pub open spec fn is_space(b: u8) -> bool {
    b == 0x20 || b == 0x09 || b == 0x0A || b == 0x0C || b == 0x0D
}

/// The value of a byte that is an ASCII hexadecimal digit.
pub open spec fn nibble_of(b: u8) -> Option<u8> {
    if 0x30 <= b <= 0x39 {
        Some((b - 0x30) as u8)
    } else if 0x61 <= b <= 0x66 {
        Some((b - 0x61 + 10) as u8)
    } else if 0x41 <= b <= 0x46 {
        Some((b - 0x41 + 10) as u8)
    } else {
        None
    }
}

/// The digits of a recording: its bytes without whitespace, each with its
/// value, `None` for a byte that is no digit.
pub open spec fn nibbles_of(content: Seq<u8>) -> Seq<Option<u8>> {
    content.filter(|b: u8| !is_space(b)).map_values(|b: u8| nibble_of(b))
}

/// All of the `len` nibbles from `from` on are there and are digits.
pub open spec fn digits_at(nibbles: Seq<Option<u8>>, from: int, len: int) -> bool {
    &&& 0 <= from
    &&& from + len <= nibbles.len()
    &&& forall|k: int| from <= k < from + len ==> (#[trigger] nibbles[k]) is Some
}

/// The byte in the nibbles `i` and `i + 1`.
pub open spec fn byte_from(nibbles: Seq<Option<u8>>, i: int) -> int {
    16 * nibbles[i]->0 + nibbles[i + 1]->0
}

/// A frame header stands at `offset`: the synchronisation code, one of the two
/// data lengths, and the data type of particle frames.
pub open spec fn header_at(nibbles: Seq<Option<u8>>, offset: int) -> bool {
    &&& digits_at(nibbles, offset, 32)
    &&& byte_from(nibbles, offset) == 0xE2
    &&& byte_from(nibbles, offset + 2) == 0x25
    &&& {
        let length = 256 * byte_from(nibbles, offset + 12) + byte_from(nibbles, offset + 14);
        length == MODERN_PACKET_LENGTH || length == LEGACY_PACKET_LENGTH
    }
    &&& byte_from(nibbles, offset + 28) == 0x00
    &&& byte_from(nibbles, offset + 30) == 0xAD
}

/// The bytes of the frame at `offset`.
pub open spec fn frame_at(nibbles: Seq<Option<u8>>, offset: int) -> Seq<u8> {
    Seq::new(256, |k: int| byte_from(nibbles, offset + 2 * k) as u8)
}

/// Both halves of a position byte name a strip.
pub open spec fn detector_ok(b: u8) -> bool {
    b / 16 <= 8 && b % 16 <= 8
}

/// The four position bytes of a particle name strips.
pub open spec fn detectors_ok(particle: Seq<u8>) -> bool {
    &&& detector_ok(particle[2])
    &&& detector_ok(particle[7])
    &&& detector_ok(particle[24])
    &&& detector_ok(particle[29])
}

/// The bytes of particle `index` of a frame.
pub open spec fn particle_of(frame: Seq<u8>, index: int) -> Seq<u8> {
    frame.subrange(16 + 34 * index, 16 + 34 * index + 34)
}

/// The five particles of a frame.
pub open spec fn particles_of(frame: Seq<u8>) -> Seq<Seq<u8>> {
    Seq::new(5, |index: int| particle_of(frame, index))
}

/// A frame is accepted at `offset`: a header stands there and no other header
/// before the frame's end, the frame is complete and all digits, and the
/// positions of its particles name strips.
pub open spec fn good_frame(nibbles: Seq<Option<u8>>, offset: int) -> bool {
    &&& header_at(nibbles, offset)
    &&& forall|other: int| offset < other < offset + 512 ==> !#[trigger] header_at(nibbles, other)
    &&& digits_at(nibbles, offset, 512)
    &&& forall|index: int|
        0 <= index < 5 ==> detectors_ok(#[trigger] particle_of(frame_at(nibbles, offset), index))
}

/// The offsets below `end` at which a frame is accepted, in order.
pub open spec fn good_offsets(nibbles: Seq<Option<u8>>, end: int) -> Seq<int>
    decreases end,
{
    if end <= 0 {
        Seq::empty()
    } else if good_frame(nibbles, end - 1) {
        good_offsets(nibbles, end - 1).push(end - 1)
    } else {
        good_offsets(nibbles, end - 1)
    }
}

/// The frames of a recording: those accepted, in the order in which they
/// stand.
pub open spec fn frames_of(content: Seq<u8>) -> Seq<Seq<u8>> {
    let nibbles = nibbles_of(content);
    good_offsets(nibbles, nibbles.len() as int).map_values(|o: int| frame_at(nibbles, o))
}

/// The value of a byte that is an ASCII hexadecimal digit.
pub fn hex_nibble(byte: u8) -> (r: Option<u8>)
    ensures
        r == nibble_of(byte),
        r matches Some(d) ==> d < 16,
{
    if 0x30 <= byte && byte <= 0x39 {
        Some(byte - 0x30)
    } else if 0x61 <= byte && byte <= 0x66 {
        Some(byte - 0x61 + 10)
    } else if 0x41 <= byte && byte <= 0x46 {
        Some(byte - 0x41 + 10)
    } else {
        None
    }
}

/// Every digit is below sixteen.
pub open spec fn nibbles_small(nibbles: Seq<Option<u8>>) -> bool {
    forall|k: int| 0 <= k < nibbles.len() && (#[trigger] nibbles[k]) is Some ==> nibbles[k]->0 < 16
}

/// The digits of a recording.
pub fn normalize_hex_nibbles(content: &[u8]) -> (r: Vec<Option<u8>>)
    ensures
        r@ == nibbles_of(content@),
        r@.len() <= content@.len(),
        nibbles_small(r@),
{
    let mut nibbles: Vec<Option<u8>> = Vec::new();
    for i in 0..content.len()
        invariant
            nibbles@ == nibbles_of(content@.take(i as int)),
            nibbles@.len() <= i,
            nibbles_small(nibbles@),
    {
        proof {
            let keep = |b: u8| !is_space(b);
            let values = |b: u8| nibble_of(b);
            let next = content@.take(i + 1);
            assert(next.drop_last() == content@.take(i as int));
            reveal(Seq::filter);
            assert(next.filter(keep) == if keep(content@[i as int]) {
                content@.take(i as int).filter(keep).push(content@[i as int])
            } else {
                content@.take(i as int).filter(keep)
            });
            assert(content@.take(i as int).filter(keep).push(content@[i as int]).map_values(values)
                == content@.take(i as int).filter(keep).map_values(values).push(
                nibble_of(content@[i as int]),
            ));
        }
        let b: u8 = content[i];
        if !(b == 0x20 || b == 0x09 || b == 0x0A || b == 0x0C || b == 0x0D) {
            nibbles.push(hex_nibble(b));
        }
    }
    assert(content@.take(content@.len() as int) == content@);
    nibbles
}

/// Whether a frame header stands at `offset`.
pub fn valid_header_nibbles(nibbles: &[Option<u8>], offset: usize) -> (r: bool)
    requires
        nibbles_small(nibbles@),
    ensures
        r == header_at(nibbles@, offset as int),
{
    if offset > nibbles.len() || nibbles.len() - offset < 32 {
        return false;
    }
    let mut header: Vec<u8> = Vec::new();
    for k in 0..32usize
        invariant
            offset + 32 <= nibbles.len(),
            header@.len() == k,
            nibbles_small(nibbles@),
            forall|j: int|
                offset <= j < offset + k ==> #[trigger] nibbles@[j] == Some(header@[j - offset]),
            forall|j: int| 0 <= j < k ==> #[trigger] header@[j] < 16,
    {
        match nibbles[offset + k] {
            Some(d) => {
                header.push(d);
            },
            None => {
                assert(nibbles@[offset + k] is None);
                return false;
            },
        }
    }
    proof {
        assert forall|j: int| 0 <= j < 32 implies nibbles@[offset + j] == Some(#[trigger] header@[j]) by {
            assert(nibbles@[offset + j] == Some(header@[offset + j - offset]));
        }
    }
    let length: u16 = be_u16(header[12] * 16 + header[13], header[14] * 16 + header[15]);
    header[0] == 0xE && header[1] == 0x2 && header[2] == 0x2 && header[3] == 0x5 && (length
        == MODERN_PACKET_LENGTH || length == LEGACY_PACKET_LENGTH) && header[28] == 0x0
        && header[29] == 0x0 && header[30] == 0xA && header[31] == 0xD
}

/// The frame at `offset`, where it is complete and all digits.
pub fn frame_from_nibbles(nibbles: &[Option<u8>], offset: usize) -> (r: Option<Vec<u8>>)
    requires
        nibbles_small(nibbles@),
    ensures
        match r {
            Some(frame) => digits_at(nibbles@, offset as int, 512) && frame@ == frame_at(
                nibbles@,
                offset as int,
            ),
            None => !digits_at(nibbles@, offset as int, 512),
        },
{
    if offset > nibbles.len() || nibbles.len() - offset < FRAME_SIZE * 2 {
        return None;
    }
    let mut frame: Vec<u8> = Vec::new();
    for k in 0..FRAME_SIZE
        invariant
            offset + 512 <= nibbles.len(),
            nibbles_small(nibbles@),
            frame@ == frame_at(nibbles@, offset as int).take(k as int),
            forall|j: int| offset <= j < offset + 2 * k ==> (#[trigger] nibbles@[j]) is Some,
    {
        match (nibbles[offset + 2 * k], nibbles[offset + 2 * k + 1]) {
            (Some(high), Some(low)) => {
                assert(nibbles@[offset + 2 * k] is Some && nibbles@[offset + 2 * k + 1] is Some);
                frame.push(high * 16 + low);
                assert(frame_at(nibbles@, offset as int).take(k + 1) == frame_at(
                    nibbles@,
                    offset as int,
                ).take(k as int).push(frame_at(nibbles@, offset as int)[k as int]));
            },
            _ => {
                assert(nibbles@[offset + 2 * k] is None || nibbles@[offset + 2 * k + 1] is None);
                return None;
            },
        }
    }
    assert(frame_at(nibbles@, offset as int).take(256) == frame_at(nibbles@, offset as int));
    Some(frame)
}

/// The big-endian number in the bytes `i` and `i + 1`.
pub open spec fn word_at(bytes: Seq<u8>, i: int) -> int {
    256 * bytes[i] + bytes[i + 1]
}

/// The bytes begin with a frame header.
pub open spec fn header_bytes_ok(bytes: Seq<u8>) -> bool {
    &&& bytes.len() >= 16
    &&& word_at(bytes, 0) == 0xE225
    &&& word_at(bytes, 6) == MODERN_PACKET_LENGTH || word_at(bytes, 6) == LEGACY_PACKET_LENGTH
    &&& word_at(bytes, 14) == 0x00AD
}

/// What the header of a frame says.
pub open spec fn frame_header(frame: Seq<u8>) -> HeaderView {
    HeaderView {
        packet_sync: "E225"@,
        package_id: word_at(frame, 2),
        packet_sequence: word_at(frame, 4),
        packet_data_length: word_at(frame, 6),
        data_type: "00AD"@,
    }
}

/// Whether the bytes begin with a frame header.
pub fn valid_header_bytes(bytes: &[u8]) -> (r: bool)
    ensures
        r == header_bytes_ok(bytes@),
{
    if bytes.len() < HEADER_OFFSET {
        return false;
    }
    let length: u16 = be_u16(bytes[6], bytes[7]);
    bytes[0] == 0xE2 && bytes[1] == 0x25 && (length == MODERN_PACKET_LENGTH || length
        == LEGACY_PACKET_LENGTH) && be_u16(bytes[14], bytes[15]) == 0x00AD
}

/// Decodes the header of a frame.
pub fn parse_header_bytes(bytes: &[u8]) -> (r: Option<LineHeaderFields>)
    ensures
        match r {
            Some(h) => header_bytes_ok(bytes@) && h@ == frame_header(bytes@),
            None => !header_bytes_ok(bytes@),
        },
{
    if !valid_header_bytes(bytes) {
        return None;
    }
    Some(
        LineHeaderFields {
            packet_sync: String::from_str("E225"),
            package_id: be_u16(bytes[2], bytes[3]) as i32,
            packet_sequence: be_u16(bytes[4], bytes[5]) as i32,
            packet_data_length: be_u16(bytes[6], bytes[7]) as i32,
            data_type: String::from_str("00AD"),
        },
    )
}

/// The instant of a frame of at least fourteen bytes, with the milliseconds of
/// its timecode.
pub open spec fn frame_time(frame: Seq<u8>) -> int {
    epoch_millis() + 1000 * (0x1_0000 * word_at(frame, 8) + word_at(frame, 10)) + word_at(frame, 12)
}

/// The instant of a frame, with the milliseconds of its timecode.
pub fn get_date_time_from_bytes(frame: &[u8]) -> (r: Result<Millis, String>)
    ensures
        match r {
            Ok(t) => frame@.len() >= 14 && t == frame_time(frame@),
            Err(e) => frame@.len() < 14 && e@ == "insufficient frame timecode"@,
        },
{
    if frame.len() < 14 {
        return Err(String::from_str("insufficient frame timecode"));
    }
    let seconds: u32 = be_u32(frame[8], frame[9], frame[10], frame[11]);
    let milliseconds: u16 = be_u16(frame[12], frame[13]);
    Ok(observation_time(seconds, milliseconds))
}

/// Whether a particle has 34 bytes and its positions name strips.
pub fn valid_detector_nibbles(particle: &[u8]) -> (r: bool)
    ensures
        r == (particle@.len() == 34 && detectors_ok(particle@)),
{
    if particle.len() != PARTICLE_DATA_LENGTH {
        return false;
    }
    particle[2] / 16 <= 8 && particle[2] % 16 <= 8 && particle[7] / 16 <= 8 && particle[7] % 16 <= 8
        && particle[24] / 16 <= 8 && particle[24] % 16 <= 8 && particle[29] / 16 <= 8
        && particle[29] % 16 <= 8
}

/// A stretch without accepted frames adds none.
proof fn no_good_between(nibbles: Seq<Option<u8>>, from: int, to: int)
    requires
        0 <= from <= to,
        forall|o: int| from <= o < to ==> !#[trigger] good_frame(nibbles, o),
    ensures
        good_offsets(nibbles, to) == good_offsets(nibbles, from),
    decreases to - from,
{
    if from < to {
        assert(!good_frame(nibbles, to - 1));
        no_good_between(nibbles, from, to - 1);
    }
}

/// The bytes of a frame begin with a header where its nibbles do.
proof fn header_nibbles_are_bytes(nibbles: Seq<Option<u8>>, offset: int)
    requires
        nibbles_small(nibbles),
        header_at(nibbles, offset),
    ensures
        header_bytes_ok(frame_at(nibbles, offset)),
{
    let frame = frame_at(nibbles, offset);
    assert forall|k: int| 0 <= k < 16 implies #[trigger] frame[k] == byte_from(nibbles, offset + 2 * k) by {
        assert(nibbles[offset + 2 * k] is Some);
        assert(nibbles[offset + 2 * k + 1] is Some);
    }
    assert(frame[0] == 0xE2 && frame[1] == 0x25 && frame[14] == 0 && frame[15] == 0xAD);
    assert(frame[6] == byte_from(nibbles, offset + 12) && frame[7] == byte_from(
        nibbles,
        offset + 14,
    ));
}

/// Searches for the first header in `from..to`.
fn next_header(nibbles: &[Option<u8>], from: usize, to: usize) -> (r: Option<usize>)
    requires
        nibbles_small(nibbles@),
        from <= to,
    ensures
        match r {
            Some(o) => from <= o < to && header_at(nibbles@, o as int) && (forall|c: int|
                from <= c < o ==> !#[trigger] header_at(nibbles@, c)),
            None => forall|c: int| from <= c < to ==> !#[trigger] header_at(nibbles@, c),
        },
{
    let mut o: usize = from;
    while o < to
        invariant
            from <= o <= to,
            nibbles_small(nibbles@),
            forall|c: int| from <= c < o ==> !#[trigger] header_at(nibbles@, c),
        decreases to - o,
    {
        if valid_header_nibbles(nibbles, o) {
            return Some(o);
        }
        o = o + 1;
    }
    None
}

/// The accepted frames of a recording, in order.
pub fn scan_frames(content: &[u8]) -> (r: Vec<Vec<u8>>)
    ensures
        r@.map_values(|f: Vec<u8>| f@) == frames_of(content@),
        forall|i: int| 0 <= i < r@.len() ==> (#[trigger] r@[i])@.len() == 256 && header_bytes_ok(
            r@[i]@,
        ) && (forall|p: int| 0 <= p < 5 ==> detectors_ok(#[trigger] particle_of(r@[i]@, p))),
{
    let nibbles = normalize_hex_nibbles(content);
    let mut frames: Vec<Vec<u8>> = Vec::new();
    let mut offset: usize = 0;
    let ghost bytes_of = |f: Vec<u8>| f@;
    let ghost at = |o: int| frame_at(nibbles@, o);
    assert(Seq::<Vec<u8>>::empty().map_values(bytes_of) == Seq::<int>::empty().map_values(at));
    while offset < nibbles.len() && nibbles.len() - offset >= HEADER_OFFSET * 2
        invariant
            nibbles@ == nibbles_of(content@),
            nibbles_small(nibbles@),
            offset <= nibbles@.len(),
            bytes_of == (|f: Vec<u8>| f@),
            at == (|o: int| frame_at(nibbles@, o)),
            frames@.map_values(bytes_of) == good_offsets(nibbles@, offset as int).map_values(at),
            forall|i: int|
                0 <= i < frames@.len() ==> (#[trigger] frames@[i])@.len() == 256 && header_bytes_ok(
                    frames@[i]@,
                ) && (forall|p: int|
                    0 <= p < 5 ==> detectors_ok(#[trigger] particle_of(frames@[i]@, p))),
        decreases nibbles@.len() - offset,
    {
        if !valid_header_nibbles(&nibbles, offset) {
            assert(!good_frame(nibbles@, offset as int));
            offset = offset + 1;
            continue;
        }
        let rest: usize = nibbles.len() - offset;
        let span: usize = if rest < FRAME_SIZE * 2 { rest } else { FRAME_SIZE * 2 };
        match next_header(&nibbles, offset + 1, offset + span) {
            Some(next) => {
                proof {
                    assert(!good_frame(nibbles@, offset as int));
                    assert forall|o: int| offset <= o < next implies !#[trigger] good_frame(
                        nibbles@,
                        o,
                    ) by {
                        assert(o == offset || !header_at(nibbles@, o));
                    }
                    no_good_between(nibbles@, offset as int, next as int);
                }
                offset = next;
                continue;
            },
            None => {},
        }
        let frame = match frame_from_nibbles(&nibbles, offset) {
            Some(frame) => frame,
            None => {
                assert(!good_frame(nibbles@, offset as int));
                offset = offset + 1;
                continue;
            },
        };
        let mut ok = true;
        for index in 0..PARTICLES_PER_LINE
            invariant
                frame@.len() == 256,
                ok == (forall|p: int|
                    0 <= p < index ==> detectors_ok(#[trigger] particle_of(frame@, p))),
        {
            let start: usize = HEADER_OFFSET + PARTICLE_DATA_LENGTH * index;
            let particle = &frame[start..start + PARTICLE_DATA_LENGTH];
            assert(particle@ == particle_of(frame@, index as int));
            if !valid_detector_nibbles(particle) {
                ok = false;
            }
        }
        if !ok {
            assert(!good_frame(nibbles@, offset as int));
            offset = offset + 1;
            continue;
        }
        proof {
            assert(good_frame(nibbles@, offset as int));
            assert forall|o: int| offset < o < offset + 512 implies !#[trigger] good_frame(nibbles@, o) by {
                assert(!header_at(nibbles@, o));
            }
            no_good_between(nibbles@, offset + 1, offset + 512);
            header_nibbles_are_bytes(nibbles@, offset as int);
            let before = good_offsets(nibbles@, offset as int);
            assert(before.push(offset as int).map_values(at) == before.map_values(at).push(
                frame_at(nibbles@, offset as int),
            ));
            assert(frames@.push(frame).map_values(bytes_of) == frames@.map_values(bytes_of).push(
                frame@,
            ));
        }
        frames.push(frame);
        offset = offset + FRAME_SIZE * 2;
    }
    proof {
        assert forall|o: int| offset <= o < nibbles@.len() implies !#[trigger] good_frame(
            nibbles@,
            o,
        ) by {}
        no_good_between(nibbles@, offset as int, nibbles@.len() as int);
    }
    frames
}

/// A frame is accepted at each of the offsets, and all lie below `end`.
pub open spec fn all_good(nibbles: Seq<Option<u8>>, offsets: Seq<int>, end: int) -> bool {
    forall|i: int|
        0 <= i < offsets.len() ==> 0 <= #[trigger] offsets[i] < end && good_frame(
            nibbles,
            offsets[i],
        )
}

/// The offsets ascend in steps of at least one frame.
pub open spec fn spaced(offsets: Seq<int>) -> bool {
    forall|i: int, j: int|
        0 <= i < j < offsets.len() ==> #[trigger] offsets[i] + 512 <= #[trigger] offsets[j]
}

/// Accepted frames never overlap.
pub proof fn frames_do_not_overlap(nibbles: Seq<Option<u8>>, end: int)
    ensures
        all_good(nibbles, good_offsets(nibbles, end), end),
        spaced(good_offsets(nibbles, end)),
    decreases end,
{
    if end > 0 {
        frames_do_not_overlap(nibbles, end - 1);
        let before = good_offsets(nibbles, end - 1);
        if good_frame(nibbles, end - 1) {
            assert forall|i: int| 0 <= i < before.len() implies #[trigger] before[i] + 512 <= end - 1 by {
                if end - 1 < before[i] + 512 {
                    assert(!header_at(nibbles, end - 1));
                }
            }
        }
    }
}

proof fn offsets_spread(nibbles: Seq<Option<u8>>, end: int, i: int)
    requires
        0 <= i < good_offsets(nibbles, end).len(),
    ensures
        good_offsets(nibbles, end)[i] >= 512 * i,
    decreases i,
{
    frames_do_not_overlap(nibbles, end);
    if i > 0 {
        offsets_spread(nibbles, end, i - 1);
        assert(good_offsets(nibbles, end)[i - 1] + 512 <= good_offsets(nibbles, end)[i]);
    }
}

/// A recording has room for its frames: each takes 512 digits of its own.
pub proof fn frames_fit(content: Seq<u8>)
    ensures
        512 * frames_of(content).len() <= content.len(),
{
    let nibbles = nibbles_of(content);
    let offsets = good_offsets(nibbles, nibbles.len() as int);
    content.lemma_filter_len(|b: u8| !is_space(b));
    assert(nibbles.len() <= content.len());
    if offsets.len() > 0 {
        frames_do_not_overlap(nibbles, nibbles.len() as int);
        offsets_spread(nibbles, nibbles.len() as int, offsets.len() - 1);
        assert(good_frame(nibbles, offsets[offsets.len() - 1]));
    }
}

} // verus!
