//! What the particles of a recording are, byte by byte.

use crate::line::HeaderView;
use crate::models::observation::LayerView;
use crate::observation::data_processor::{
    files_frames, frame_results, frames_particles, frames_results, particles_count, ProcessorView,
};
use crate::observation::frame::{
    detectors_ok, frame_at, frame_header, frame_time, frames_of, good_frame, good_offsets,
    header_at, header_bytes_ok, is_space, nibble_of, nibbles_of, nibbles_small, particle_of,
};
use crate::observation::laws::{frame_digits, one_pulse_per_particle};
use crate::observation::particle::{decoded_particle, strip_of, with_hit, SignalsView};
use crate::observation::tail_fields::frame_tail;
use crate::tail::TailView;
use crate::wire::{wire_chars, wire_text_is_byte_text, word};
use vstd::prelude::*;

verus! {

/// A particle, field by field: the number in its line, its time in
/// microseconds and what that adds to the line's time, the position bytes and
/// the big-endian pulse heights of L1, L2, L6 and L7, and the high and low gain
/// of L3, L4 and L5.
#[verifier::spinoff_prover]
#[verifier::rlimit(60)]
pub proof fn particle_fields(
    p: Seq<u8>,
    index: int,
    line_time: int,
    header: HeaderView,
    tail: Seq<TailView>,
)
    requires
        p.len() == 34,
        0 <= index < 0x7FFF_FFFF,
    ensures
        ({
            let e = decoded_particle(p, index, line_time, header, tail);
            &&& e.number == index + 1
            &&& e.time_raw == 256 * p[0] + p[1]
            &&& e.milliseconds == (256 * p[0] + p[1]) / 1000
            &&& e.time == line_time + (256 * p[0] + p[1]) / 1000
            &&& e.dssd_positions == seq![p[2] as i32, p[7] as i32, p[24] as i32, p[29] as i32]
            &&& e.dssd_pulses.len() == 4
            &&& e.dssd_pulses[0].0 == 256 * p[3] + p[4]
            &&& e.dssd_pulses[0].1 == 256 * p[5] + p[6]
            &&& e.dssd_pulses[1].0 == 256 * p[8] + p[9]
            &&& e.dssd_pulses[1].1 == 256 * p[10] + p[11]
            &&& e.dssd_pulses[2].0 == 256 * p[25] + p[26]
            &&& e.dssd_pulses[2].1 == 256 * p[27] + p[28]
            &&& e.dssd_pulses[3].0 == 256 * p[30] + p[31]
            &&& e.dssd_pulses[3].1 == 256 * p[32] + p[33]
            &&& e.bgo_pulses.len() == 3
            &&& e.bgo_pulses[0].0 == 256 * p[12] + p[13]
            &&& e.bgo_pulses[0].1 == 256 * p[14] + p[15]
            &&& e.bgo_pulses[1].0 == 256 * p[16] + p[17]
            &&& e.bgo_pulses[1].1 == 256 * p[18] + p[19]
            &&& e.bgo_pulses[2].0 == 256 * p[20] + p[21]
            &&& e.bgo_pulses[2].1 == 256 * p[22] + p[23]
            &&& e.header == header
            &&& e.tail == tail
        }),
{
}

/// What a particle reports for a layer is what it adds to the layer's series:
/// of L1, L2, L6 and L7 both axes, of L3, L4 and L5 both gains, each at the end
/// of what was there.
#[verifier::spinoff_prover]
#[verifier::rlimit(60)]
pub proof fn reported_is_recorded(
    s: SignalsView,
    p: Seq<u8>,
    index: int,
    line_time: int,
    header: HeaderView,
    tail: Seq<TailView>,
)
    ensures
        ({
            let e = decoded_particle(p, index, line_time, header, tail);
            let after = s.record(p);
            &&& after.l1.pulse_x == s.l1.pulse_x.push(e.dssd_pulses[0].0)
            &&& after.l1.pulse_y == s.l1.pulse_y.push(e.dssd_pulses[0].1)
            &&& after.l2.pulse_x == s.l2.pulse_x.push(e.dssd_pulses[1].0)
            &&& after.l2.pulse_y == s.l2.pulse_y.push(e.dssd_pulses[1].1)
            &&& after.l6.pulse_x == s.l6.pulse_x.push(e.dssd_pulses[2].0)
            &&& after.l6.pulse_y == s.l6.pulse_y.push(e.dssd_pulses[2].1)
            &&& after.l7.pulse_x == s.l7.pulse_x.push(e.dssd_pulses[3].0)
            &&& after.l7.pulse_y == s.l7.pulse_y.push(e.dssd_pulses[3].1)
            &&& after.l3.high_gain == s.l3.high_gain.push(e.bgo_pulses[0].0)
            &&& after.l3.low_gain == s.l3.low_gain.push(e.bgo_pulses[0].1)
            &&& after.l4.high_gain == s.l4.high_gain.push(e.bgo_pulses[1].0)
            &&& after.l4.low_gain == s.l4.low_gain.push(e.bgo_pulses[1].1)
            &&& after.l5.high_gain == s.l5.high_gain.push(e.bgo_pulses[2].0)
            &&& after.l5.low_gain == s.l5.low_gain.push(e.bgo_pulses[2].1)
        }),
{
}

/// The strip that half of a position byte names: the eighth value is strip 0,
/// any smaller value the strip after it.
pub open spec fn named_strip(half: int) -> int {
    (half + 1) % 9
}

/// A strip with a further value where half of a position byte names it.
pub open spec fn put_on_strip(before: Seq<i32>, strip: int, half: int, value: int) -> Seq<i32> {
    if strip == named_strip(half) {
        before.push(value as i32)
    } else {
        before
    }
}

/// A particle adds its X pulse height to the strip that the upper half of its
/// position byte names, its Y pulse height to the strip that the lower half
/// names, and changes no other strip.
#[verifier::spinoff_prover]
#[verifier::rlimit(60)]
pub proof fn one_strip_per_axis(s: SignalsView, p: Seq<u8>, strip: int)
    requires
        s.wf(),
        p[2] / 16 <= 8 && p[2] % 16 <= 8,
        p[7] / 16 <= 8 && p[7] % 16 <= 8,
        p[24] / 16 <= 8 && p[24] % 16 <= 8,
        p[29] / 16 <= 8 && p[29] % 16 <= 8,
        0 <= strip < 9,
    ensures
        ({
            let after = s.record(p);
            &&& after.wf()
            &&& after.l1.strip_x[strip] == put_on_strip(
                s.l1.strip_x[strip],
                strip,
                p[2] as int / 16,
                word(p, 3),
            )
            &&& after.l1.strip_y[strip] == put_on_strip(
                s.l1.strip_y[strip],
                strip,
                p[2] as int % 16,
                word(p, 5),
            )
            &&& after.l2.strip_x[strip] == put_on_strip(
                s.l2.strip_x[strip],
                strip,
                p[7] as int / 16,
                word(p, 8),
            )
            &&& after.l2.strip_y[strip] == put_on_strip(
                s.l2.strip_y[strip],
                strip,
                p[7] as int % 16,
                word(p, 10),
            )
            &&& after.l6.strip_x[strip] == put_on_strip(
                s.l6.strip_x[strip],
                strip,
                p[24] as int / 16,
                word(p, 25),
            )
            &&& after.l6.strip_y[strip] == put_on_strip(
                s.l6.strip_y[strip],
                strip,
                p[24] as int % 16,
                word(p, 27),
            )
            &&& after.l7.strip_x[strip] == put_on_strip(
                s.l7.strip_x[strip],
                strip,
                p[29] as int / 16,
                word(p, 30),
            )
            &&& after.l7.strip_y[strip] == put_on_strip(
                s.l7.strip_y[strip],
                strip,
                p[29] as int % 16,
                word(p, 32),
            )
        }),
{
    hit_on_layer(s.l1, p, 2, 3, 5, strip);
    hit_on_layer(s.l2, p, 7, 8, 10, strip);
    hit_on_layer(s.l6, p, 24, 25, 27, strip);
    hit_on_layer(s.l7, p, 29, 30, 32, strip);
}

proof fn hit_on_layer(layer: LayerView, p: Seq<u8>, pos: int, x: int, y: int, strip: int)
    requires
        layer.wf(),
        p[pos] / 16 <= 8 && p[pos] % 16 <= 8,
        0 <= strip < 9,
    ensures
        ({
            let after = with_hit(layer, p, pos, x, y);
            &&& after.wf()
            &&& after.strip_x[strip] == put_on_strip(
                layer.strip_x[strip],
                strip,
                p[pos] as int / 16,
                word(p, x),
            )
            &&& after.strip_y[strip] == put_on_strip(
                layer.strip_y[strip],
                strip,
                p[pos] as int % 16,
                word(p, y),
            )
        }),
{
    strips_by_halves(p[pos] as int / 16);
    strips_by_halves(p[pos] as int % 16);
}

proof fn strips_by_halves(half: int)
    requires
        0 <= half <= 8,
    ensures
        strip_of(half) == named_strip(half),
        0 <= strip_of(half) < 9,
{
}

/// Nothing is recorded at first.
pub proof fn nothing_recorded_at_first(strip: int)
    requires
        0 <= strip < 9,
    ensures
        ({
            let s = SignalsView::empty();
            &&& s.wf()
            &&& s.l1.pulse_x.len() == 0 && s.l1.pulse_y.len() == 0
            &&& s.l2.pulse_x.len() == 0 && s.l2.pulse_y.len() == 0
            &&& s.l6.pulse_x.len() == 0 && s.l6.pulse_y.len() == 0
            &&& s.l7.pulse_x.len() == 0 && s.l7.pulse_y.len() == 0
            &&& s.l3.high_gain.len() == 0 && s.l3.low_gain.len() == 0
            &&& s.l4.high_gain.len() == 0 && s.l4.low_gain.len() == 0
            &&& s.l5.high_gain.len() == 0 && s.l5.low_gain.len() == 0
            &&& s.l1.strip_x[strip].len() == 0 && s.l1.strip_y[strip].len() == 0
            &&& s.l2.strip_x[strip].len() == 0 && s.l2.strip_y[strip].len() == 0
            &&& s.l6.strip_x[strip].len() == 0 && s.l6.strip_y[strip].len() == 0
            &&& s.l7.strip_x[strip].len() == 0 && s.l7.strip_y[strip].len() == 0
        }),
{
}

/// The header and the time of a frame, from its bytes: package id, sequence
/// number and data length are big-endian, the time counts seconds and
/// milliseconds from 2024-10-01 00:00:00 UTC.
pub proof fn frame_fields(frame: Seq<u8>)
    requires
        frame.len() == 256,
    ensures
        frame_header(frame).packet_sync == "E225"@,
        frame_header(frame).package_id == 256 * frame[2] + frame[3],
        frame_header(frame).packet_sequence == 256 * frame[4] + frame[5],
        frame_header(frame).packet_data_length == 256 * frame[6] + frame[7],
        frame_header(frame).data_type == "00AD"@,
        frame_time(frame) == 1_727_740_800_000 + 1000 * (0x100_0000 * frame[8] + 0x1_0000 * frame[9]
            + 0x100 * frame[10] + frame[11]) + (256 * frame[12] + frame[13]),
{
}

/// The header of an accepted frame: E2 25, one of the two data lengths, and the
/// data type 00 AD.
pub proof fn accepted_headers(bytes: Seq<u8>)
    ensures
        header_bytes_ok(bytes) == (bytes.len() >= 16 && bytes[0] == 0xE2 && bytes[1] == 0x25
            && bytes[6] == 0 && (bytes[7] == 0xF7 || bytes[7] == 0x2D) && bytes[14] == 0
            && bytes[15] == 0xAD),
{
}

/// The positions of an accepted particle: no half of a position byte exceeds
/// eight.
pub proof fn accepted_positions(p: Seq<u8>)
    ensures
        detectors_ok(p) == (p[2] <= 0x88 && p[2] % 16 <= 8 && p[7] <= 0x88 && p[7] % 16 <= 8
            && p[24] <= 0x88 && p[24] % 16 <= 8 && p[29] <= 0x88 && p[29] % 16 <= 8),
{
}

/// Particle `k` of a frame is the 34 bytes from byte 16 + 34 k on.
pub proof fn particles_in_a_frame(frame: Seq<u8>, k: int, j: int)
    requires
        frame.len() == 256,
        0 <= k < 5,
        0 <= j < 34,
    ensures
        particle_of(frame, k).len() == 34,
        particle_of(frame, k)[j] == frame[16 + 34 * k + j],
{
}

/// Event `n` of frames is that of particle `n % 5` of frame `n / 5`, and the
/// same particle stands at `n` among the particles that were recorded.
pub proof fn events_in_order(frames: Seq<Seq<u8>>, n: int)
    requires
        0 <= n < 5 * frames.len(),
    ensures
        frames_results(frames).len() == 5 * frames.len(),
        frames_particles(frames).len() == 5 * frames.len(),
        frames_results(frames)[n] == frame_results(frames[n / 5])[n % 5],
        frames_particles(frames)[n] == particle_of(frames[n / 5], n % 5),
    decreases frames.len(),
{
    particles_count(frames);
    let front = frames.drop_last();
    particles_count(front);
    if n < 5 * front.len() {
        events_in_order(front, n);
        assert(front[n / 5] == frames[n / 5]);
    } else {
        assert(n / 5 == front.len() && n % 5 == n - 5 * front.len());
    }
}

/// Every series holds at `n` the pulse height of particle `n`.
pub proof fn series_entry(particles: Seq<Seq<u8>>, n: int)
    requires
        0 <= n < particles.len(),
    ensures
        ({
            let s = SignalsView::empty().record_all(particles);
            let p = particles[n];
            &&& s.l1.pulse_x[n] == word(p, 3)
            &&& s.l1.pulse_y[n] == word(p, 5)
            &&& s.l2.pulse_x[n] == word(p, 8)
            &&& s.l2.pulse_y[n] == word(p, 10)
            &&& s.l6.pulse_x[n] == word(p, 25)
            &&& s.l6.pulse_y[n] == word(p, 27)
            &&& s.l7.pulse_x[n] == word(p, 30)
            &&& s.l7.pulse_y[n] == word(p, 32)
            &&& s.l3.high_gain[n] == word(p, 12)
            &&& s.l3.low_gain[n] == word(p, 14)
            &&& s.l4.high_gain[n] == word(p, 16)
            &&& s.l4.low_gain[n] == word(p, 18)
            &&& s.l5.high_gain[n] == word(p, 20)
            &&& s.l5.low_gain[n] == word(p, 22)
        }),
{
    one_pulse_per_particle(particles);
    let p = particles[n];
    assert(0 <= word(p, 3) < 65536 && 0 <= word(p, 5) < 65536);
}

proof fn words_of_a_particle(frame: Seq<u8>, k: int)
    requires
        frame.len() == 256,
        0 <= k < 5,
    ensures
        particle_of(frame, k).len() == 34,
        forall|j: int|
            0 <= j < 33 ==> #[trigger] word(particle_of(frame, k), j) == word(
                frame,
                16 + 34 * k + j,
            ),
        forall|j: int|
            0 <= j < 34 ==> #[trigger] particle_of(frame, k)[j] == frame[16 + 34 * k + j],
{
}

/// Every frame of a recording has its 256 bytes.
pub proof fn frames_are_whole(contents: Seq<Seq<u8>>, f: int)
    requires
        0 <= f < files_frames(contents).len(),
    ensures
        files_frames(contents)[f].len() == 256,
    decreases contents.len(),
{
    let before = files_frames(contents.drop_last());
    if f < before.len() {
        frames_are_whole(contents.drop_last(), f);
    } else {
        let nibbles = nibbles_of(contents.last());
        let offsets = good_offsets(nibbles, nibbles.len() as int);
        assert(files_frames(contents)[f] == frame_at(nibbles, offsets[f - before.len()]));
    }
}

#[verifier::spinoff_prover]
#[verifier::rlimit(60)]
proof fn event_of_frame(frame: Seq<u8>, k: int)
    requires
        frame.len() == 256,
        0 <= k < 5,
    ensures
        ({
            let at = 16 + 34 * k;
            let e = frame_results(frame)[k];
            &&& e.number == k + 1
            &&& e.time_raw == word(frame, at)
            &&& e.time == frame_time(frame) + word(frame, at) / 1000
            &&& e.header == frame_header(frame)
            &&& e.tail == frame_tail(frame)
            &&& e.dssd_positions[0] == frame[at + 2]
            &&& e.dssd_positions[1] == frame[at + 7]
            &&& e.dssd_positions[2] == frame[at + 24]
            &&& e.dssd_positions[3] == frame[at + 29]
            &&& e.dssd_pulses[0].0 == word(frame, at + 3)
            &&& e.dssd_pulses[0].1 == word(frame, at + 5)
            &&& e.dssd_pulses[1].0 == word(frame, at + 8)
            &&& e.dssd_pulses[1].1 == word(frame, at + 10)
            &&& e.dssd_pulses[2].0 == word(frame, at + 25)
            &&& e.dssd_pulses[2].1 == word(frame, at + 27)
            &&& e.dssd_pulses[3].0 == word(frame, at + 30)
            &&& e.dssd_pulses[3].1 == word(frame, at + 32)
            &&& e.bgo_pulses[0].0 == word(frame, at + 12)
            &&& e.bgo_pulses[0].1 == word(frame, at + 14)
            &&& e.bgo_pulses[1].0 == word(frame, at + 16)
            &&& e.bgo_pulses[1].1 == word(frame, at + 18)
            &&& e.bgo_pulses[2].0 == word(frame, at + 20)
            &&& e.bgo_pulses[2].1 == word(frame, at + 22)
        }),
{
    let p = particle_of(frame, k);
    words_of_a_particle(frame, k);
    particle_fields(p, k, frame_time(frame), frame_header(frame), frame_tail(frame));
    assert(word(p, 0) == word(frame, 16 + 34 * k));
    assert(word(p, 3) == word(frame, 16 + 34 * k + 3));
    assert(word(p, 5) == word(frame, 16 + 34 * k + 5));
    assert(word(p, 8) == word(frame, 16 + 34 * k + 8));
    assert(word(p, 10) == word(frame, 16 + 34 * k + 10));
    assert(word(p, 25) == word(frame, 16 + 34 * k + 25));
    assert(word(p, 27) == word(frame, 16 + 34 * k + 27));
    assert(word(p, 30) == word(frame, 16 + 34 * k + 30));
    assert(word(p, 32) == word(frame, 16 + 34 * k + 32));
    assert(word(p, 12) == word(frame, 16 + 34 * k + 12));
    assert(word(p, 14) == word(frame, 16 + 34 * k + 14));
    assert(word(p, 16) == word(frame, 16 + 34 * k + 16));
    assert(word(p, 18) == word(frame, 16 + 34 * k + 18));
    assert(word(p, 20) == word(frame, 16 + 34 * k + 20));
    assert(word(p, 22) == word(frame, 16 + 34 * k + 22));
}

/// The events of a recording and the series that its spectra count agree, entry
/// by entry, and both are what the bytes of the frame say: event `n` comes from
/// the 34 bytes of particle `n % 5` of frame `n / 5`.
#[verifier::spinoff_prover]
#[verifier::rlimit(60)]
pub proof fn events_agree_with_series(contents: Seq<Seq<u8>>, n: int)
    requires
        0 <= n < 5 * files_frames(contents).len(),
    ensures
        ({
            let done = ProcessorView::empty().add_frames(files_frames(contents));
            let frame = files_frames(contents)[n / 5];
            let at = 16 + 34 * (n % 5);
            let e = done.results[n];
            let s = done.signals;
            &&& done.results.len() == 5 * files_frames(contents).len()
            &&& frame.len() == 256
            &&& e.number == n % 5 + 1
            &&& e.time_raw == word(frame, at)
            &&& e.time == frame_time(frame) + word(frame, at) / 1000
            &&& e.header == frame_header(frame)
            &&& e.tail == frame_tail(frame)
            &&& e.dssd_positions[0] == frame[at + 2]
            &&& e.dssd_positions[1] == frame[at + 7]
            &&& e.dssd_positions[2] == frame[at + 24]
            &&& e.dssd_positions[3] == frame[at + 29]
            &&& s.l1.pulse_x[n] == e.dssd_pulses[0].0 && e.dssd_pulses[0].0 == word(frame, at + 3)
            &&& s.l1.pulse_y[n] == e.dssd_pulses[0].1 && e.dssd_pulses[0].1 == word(frame, at + 5)
            &&& s.l2.pulse_x[n] == e.dssd_pulses[1].0 && e.dssd_pulses[1].0 == word(frame, at + 8)
            &&& s.l2.pulse_y[n] == e.dssd_pulses[1].1 && e.dssd_pulses[1].1 == word(frame, at + 10)
            &&& s.l6.pulse_x[n] == e.dssd_pulses[2].0 && e.dssd_pulses[2].0 == word(frame, at + 25)
            &&& s.l6.pulse_y[n] == e.dssd_pulses[2].1 && e.dssd_pulses[2].1 == word(frame, at + 27)
            &&& s.l7.pulse_x[n] == e.dssd_pulses[3].0 && e.dssd_pulses[3].0 == word(frame, at + 30)
            &&& s.l7.pulse_y[n] == e.dssd_pulses[3].1 && e.dssd_pulses[3].1 == word(frame, at + 32)
            &&& s.l3.high_gain[n] == e.bgo_pulses[0].0 && e.bgo_pulses[0].0 == word(frame, at + 12)
            &&& s.l3.low_gain[n] == e.bgo_pulses[0].1 && e.bgo_pulses[0].1 == word(frame, at + 14)
            &&& s.l4.high_gain[n] == e.bgo_pulses[1].0 && e.bgo_pulses[1].0 == word(frame, at + 16)
            &&& s.l4.low_gain[n] == e.bgo_pulses[1].1 && e.bgo_pulses[1].1 == word(frame, at + 18)
            &&& s.l5.high_gain[n] == e.bgo_pulses[2].0 && e.bgo_pulses[2].0 == word(frame, at + 20)
            &&& s.l5.low_gain[n] == e.bgo_pulses[2].1 && e.bgo_pulses[2].1 == word(frame, at + 22)
        }),
{
    let frames = files_frames(contents);
    let frame = frames[n / 5];
    let k = n % 5;
    frames_are_whole(contents, n / 5);
    events_in_order(frames, n);
    series_entry(frames_particles(frames), n);
    words_of_a_particle(frame, k);
    event_of_frame(frame, k);
    let p = particle_of(frame, k);
    assert(word(p, 3) == word(frame, 16 + 34 * k + 3));
    assert(word(p, 5) == word(frame, 16 + 34 * k + 5));
    assert(word(p, 8) == word(frame, 16 + 34 * k + 8));
    assert(word(p, 10) == word(frame, 16 + 34 * k + 10));
    assert(word(p, 25) == word(frame, 16 + 34 * k + 25));
    assert(word(p, 27) == word(frame, 16 + 34 * k + 27));
    assert(word(p, 30) == word(frame, 16 + 34 * k + 30));
    assert(word(p, 32) == word(frame, 16 + 34 * k + 32));
    assert(word(p, 12) == word(frame, 16 + 34 * k + 12));
    assert(word(p, 14) == word(frame, 16 + 34 * k + 14));
    assert(word(p, 16) == word(frame, 16 + 34 * k + 16));
    assert(word(p, 18) == word(frame, 16 + 34 * k + 18));
    assert(word(p, 20) == word(frame, 16 + 34 * k + 20));
    assert(word(p, 22) == word(frame, 16 + 34 * k + 22));
    let done = ProcessorView::empty().add_frames(frames);
    assert(done.results =~= frames_results(frames));
}

/// Bytes are written as their digits, upper half first.
pub proof fn frames_are_written_as_digits(bytes: Seq<u8>, k: int)
    requires
        0 <= k < 2 * bytes.len(),
    ensures
        frame_digits(bytes).len() == 2 * bytes.len(),
        frame_digits(bytes)[k] == wire_chars(bytes)[k] as u8,
{
    wire_text_is_byte_text(bytes[k / 2]);
}

/// The value of a digit, in either case, and that nothing else is one.
pub proof fn digits_have_their_values(b: u8)
    ensures
        match nibble_of(b) {
            Some(d) => d < 16 && (b == "0123456789ABCDEF"@[d as int] as u8 || b
                == "0123456789abcdef"@[d as int] as u8),
            None => forall|d: int|
                0 <= d < 16 ==> b != #[trigger] "0123456789ABCDEF"@[d] as u8 && b
                    != "0123456789abcdef"@[d] as u8,
        },
        is_space(b) == (b == 32 || b == 9 || b == 10 || b == 12 || b == 13),
{
    reveal_strlit("0123456789ABCDEF");
    reveal_strlit("0123456789abcdef");
}

/// A header among digits: E 2 2 5, four digits of which 0 0 F 7 or 0 0 2 D are
/// the data length, and 0 0 A D at the end of its 32 digits.
pub proof fn headers_among_digits(nibbles: Seq<Option<u8>>, o: int)
    requires
        nibbles_small(nibbles),
    ensures
        header_at(nibbles, o) == (0 <= o && o + 32 <= nibbles.len() && (forall|k: int|
            o <= k < o + 32 ==> (#[trigger] nibbles[k]) is Some) && nibbles[o] == Some(0xEu8)
            && nibbles[o + 1] == Some(2u8) && nibbles[o + 2] == Some(2u8) && nibbles[o + 3] == Some(
            5u8,
        ) && nibbles[o + 12] == Some(0u8) && nibbles[o + 13] == Some(0u8) && ((nibbles[o + 14]
            == Some(0xFu8) && nibbles[o + 15] == Some(7u8)) || (nibbles[o + 14] == Some(2u8)
            && nibbles[o + 15] == Some(0xDu8))) && nibbles[o + 28] == Some(0u8) && nibbles[o + 29]
            == Some(0u8) && nibbles[o + 30] == Some(0xAu8) && nibbles[o + 31] == Some(0xDu8)),
{
    if 0 <= o && o + 32 <= nibbles.len() && (forall|k: int|
        o <= k < o + 32 ==> (#[trigger] nibbles[k]) is Some) {
        assert(nibbles[o] is Some && nibbles[o + 1] is Some && nibbles[o + 2] is Some
            && nibbles[o + 3] is Some);
        assert(nibbles[o + 12] is Some && nibbles[o + 13] is Some && nibbles[o + 14] is Some
            && nibbles[o + 15] is Some);
        assert(nibbles[o + 28] is Some && nibbles[o + 29] is Some && nibbles[o + 30] is Some
            && nibbles[o + 31] is Some);
    }
}

/// A frame is accepted exactly where a header stands, no other header follows
/// within its 512 digits, and no digit of the position bytes of its particles
/// exceeds eight.
#[verifier::spinoff_prover]
#[verifier::rlimit(60)]
pub proof fn accepted_frames(nibbles: Seq<Option<u8>>, o: int)
    requires
        nibbles_small(nibbles),
        0 <= o,
        o + 512 <= nibbles.len(),
        forall|k: int| o <= k < o + 512 ==> (#[trigger] nibbles[k]) is Some,
    ensures
        good_frame(nibbles, o) == (header_at(nibbles, o) && (forall|other: int|
            o < other < o + 512 ==> !#[trigger] header_at(nibbles, other)) && (forall|p: int|
            0 <= p < 5 ==> positions_small(nibbles, #[trigger] particle_digits(o, p)))),
{
    let frame = frame_at(nibbles, o);
    assert forall|p: int| 0 <= p < 5 implies #[trigger] detectors_ok(particle_of(frame, p))
        == positions_small(nibbles, particle_digits(o, p)) by {
        let at = particle_digits(o, p);
        half_digits(nibbles, o, 16 + 34 * p + 2);
        half_digits(nibbles, o, 16 + 34 * p + 7);
        half_digits(nibbles, o, 16 + 34 * p + 24);
        half_digits(nibbles, o, 16 + 34 * p + 29);
        assert(particle_of(frame, p)[2] == frame[16 + 34 * p + 2]);
        assert(particle_of(frame, p)[7] == frame[16 + 34 * p + 7]);
        assert(particle_of(frame, p)[24] == frame[16 + 34 * p + 24]);
        assert(particle_of(frame, p)[29] == frame[16 + 34 * p + 29]);
    }
    if forall|p: int| 0 <= p < 5 ==> positions_small(nibbles, #[trigger] particle_digits(o, p)) {
        assert forall|p: int| 0 <= p < 5 implies detectors_ok(#[trigger] particle_of(frame, p)) by {
            assert(positions_small(nibbles, particle_digits(o, p)));
        }
    }
    if forall|p: int| 0 <= p < 5 ==> detectors_ok(#[trigger] particle_of(frame, p)) {
        assert forall|p: int| 0 <= p < 5 implies positions_small(
            nibbles,
            #[trigger] particle_digits(o, p),
        ) by {
            assert(detectors_ok(particle_of(frame, p)));
        }
    }
}

/// Where the digits of particle `p` of a frame begin.
pub open spec fn particle_digits(offset: int, p: int) -> int {
    offset + 32 + 68 * p
}

/// The digits of the four position bytes of a particle are at most eight.
pub open spec fn positions_small(nibbles: Seq<Option<u8>>, at: int) -> bool {
    &&& nibbles[at + 4]->0 <= 8 && nibbles[at + 5]->0 <= 8
    &&& nibbles[at + 14]->0 <= 8 && nibbles[at + 15]->0 <= 8
    &&& nibbles[at + 48]->0 <= 8 && nibbles[at + 49]->0 <= 8
    &&& nibbles[at + 58]->0 <= 8 && nibbles[at + 59]->0 <= 8
}

proof fn half_digits(nibbles: Seq<Option<u8>>, o: int, k: int)
    requires
        nibbles_small(nibbles),
        0 <= o,
        o + 512 <= nibbles.len(),
        forall|j: int| o <= j < o + 512 ==> (#[trigger] nibbles[j]) is Some,
        0 <= k < 256,
    ensures
        frame_at(nibbles, o)[k] / 16 == nibbles[o + 2 * k]->0,
        frame_at(nibbles, o)[k] % 16 == nibbles[o + 2 * k + 1]->0,
{
    assert(nibbles[o + 2 * k] is Some && nibbles[o + 2 * k + 1] is Some);
}

/// A frame at `offset` of the digits holds their bytes, in order.
pub proof fn frame_bytes_are_digit_pairs(nibbles: Seq<Option<u8>>, o: int, k: int)
    requires
        nibbles_small(nibbles),
        0 <= o,
        o + 512 <= nibbles.len(),
        forall|j: int| o <= j < o + 512 ==> (#[trigger] nibbles[j]) is Some,
        0 <= k < 256,
    ensures
        frame_at(nibbles, o).len() == 256,
        frame_at(nibbles, o)[k] == 16 * nibbles[o + 2 * k]->0 + nibbles[o + 2 * k + 1]->0,
{
    half_digits(nibbles, o, k);
}

/// Every frame that can be accepted is found, once, and nothing else is.
pub proof fn every_good_frame_is_found(nibbles: Seq<Option<u8>>, end: int, o: int)
    ensures
        good_offsets(nibbles, end).contains(o) == (0 <= o < end && good_frame(nibbles, o)),
    decreases end,
{
    if end > 0 {
        every_good_frame_is_found(nibbles, end - 1, o);
        let before = good_offsets(nibbles, end - 1);
        if good_frame(nibbles, end - 1) {
            let after = before.push(end - 1);
            assert(after[before.len() as int] == end - 1);
            if before.contains(o) {
                let i = choose|i: int| 0 <= i < before.len() && before[i] == o;
                assert(after[i] == o);
            }
            if after.contains(o) {
                let i = choose|i: int| 0 <= i < after.len() && after[i] == o;
                if i < before.len() {
                    assert(before[i] == o);
                }
            }
        }
    }
}

/// The characters of a recording are read one by one: whitespace is passed
/// over, any other character gives its digit, or none.
pub proof fn characters_are_read_in_order(content: Seq<u8>, b: u8)
    ensures
        nibbles_of(Seq::empty()).len() == 0,
        nibbles_of(content.push(b)) == (if is_space(b) {
            nibbles_of(content)
        } else {
            nibbles_of(content).push(nibble_of(b))
        }),
{
    let keep = |c: u8| !is_space(c);
    let value = |c: u8| nibble_of(c);
    reveal(Seq::filter);
    assert(content.push(b).drop_last() =~= content);
    if !is_space(b) {
        assert(content.filter(keep).push(b).map_values(value) =~= content.filter(keep).map_values(
            value,
        ).push(nibble_of(b)));
    }
}

/// The frames of a recording are those that were found, in order.
pub proof fn frames_stand_where_they_are_found(content: Seq<u8>, i: int)
    requires
        0 <= i < frames_of(content).len(),
    ensures
        ({
            let nibbles = nibbles_of(content);
            let offsets = good_offsets(nibbles, nibbles.len() as int);
            &&& frames_of(content).len() == offsets.len()
            &&& frames_of(content)[i] == frame_at(nibbles, offsets[i])
        }),
{
}

/// The frames of several recordings follow one another.
pub proof fn recordings_follow_one_another(contents: Seq<Seq<u8>>, content: Seq<u8>)
    ensures
        files_frames(Seq::empty()).len() == 0,
        files_frames(contents.push(content)) == files_frames(contents) + frames_of(content),
{
    assert(contents.push(content).drop_last() =~= contents);
}

/// A processor that has collected frames has five particles for each of them
/// more, and counts them.
pub proof fn frames_are_counted(p: ProcessorView, frames: Seq<Seq<u8>>)
    ensures
        p.add_frames(frames).packets == p.packets + frames.len(),
        p.add_frames(frames).results == p.results + frames_results(frames),
        p.add_frames(frames).signals == p.signals.record_all(frames_particles(frames)),
        ProcessorView::empty().packets == 0,
        ProcessorView::empty().results.len() == 0,
        ProcessorView::empty().signals == SignalsView::empty(),
{
}

/// Particles are recorded one after the other.
pub proof fn particles_are_recorded_in_order(s: SignalsView, particles: Seq<Seq<u8>>, p: Seq<u8>)
    ensures
        s.record_all(Seq::empty()) == s,
        s.record_all(particles.push(p)) == s.record_all(particles).record(p),
{
    assert(particles.push(p).drop_last() =~= particles);
}

} // verus!
