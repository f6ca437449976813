//! What holds of observation recordings as a whole.

use crate::hex::{byte_text, digit_of};
use crate::models::observation::LayerView;
use crate::observation::data_processor::{
    files_frames, frame_results, frames_particles, particles_count, ProcessorView,
};
use crate::observation::frame::{
    byte_from, detector_ok, detectors_ok, digits_at, frame_at, frame_header, frame_time,
    frames_do_not_overlap, frames_of, good_frame, good_offsets, header_at, header_bytes_ok, is_space,
    nibble_of, nibbles_of, particle_of, word_at,
};
use crate::observation::histogram::histogram;
use crate::observation::particle::{pulse, strip_of, with_hit, SignalsView};
use crate::observation::tail_fields::frame_tail;
use crate::series::{no_values, with_value};
use vstd::prelude::*;

verus! {

/// Whitespace between and inside bytes makes no difference.
pub proof fn whitespace_is_ignored(content: Seq<u8>)
    ensures
        frames_of(content.filter(|b: u8| !is_space(b))) == frames_of(content),
{
    let keep = |b: u8| !is_space(b);
    filter_twice(content, keep);
}

proof fn filter_twice(s: Seq<u8>, keep: spec_fn(u8) -> bool)
    ensures
        s.filter(keep).filter(keep) == s.filter(keep),
    decreases s.len(),
{
    reveal(Seq::filter);
    if s.len() > 0 {
        filter_twice(s.drop_last(), keep);
        let front = s.drop_last().filter(keep);
        if keep(s.last()) {
            assert(front.push(s.last()).drop_last() =~= front);
        }
    }
}

/// A byte in lower case where it is an upper-case letter.
pub open spec fn lower_byte(b: u8) -> u8 {
    if 0x41 <= b <= 0x5A {
        (b + 0x20) as u8
    } else {
        b
    }
}

/// The case of the digits makes no difference.
pub proof fn digit_case_is_ignored(content: Seq<u8>)
    ensures
        frames_of(content.map_values(|b: u8| lower_byte(b))) == frames_of(content),
{
    lower_nibbles(content);
}

proof fn lower_nibbles(content: Seq<u8>)
    ensures
        nibbles_of(content.map_values(|b: u8| lower_byte(b))) == nibbles_of(content),
    decreases content.len(),
{
    let lower = |b: u8| lower_byte(b);
    let keep = |b: u8| !is_space(b);
    let value = |b: u8| nibble_of(b);
    let lowered = content.map_values(lower);
    reveal(Seq::filter);
    if content.len() > 0 {
        lower_nibbles(content.drop_last());
        assert(lowered.drop_last() =~= content.drop_last().map_values(lower));
        let last = content.last();
        assert(lowered.last() == lower_byte(last));
        assert(keep(lower_byte(last)) == keep(last));
        assert(nibble_of(lower_byte(last)) == nibble_of(last));
        assert(lowered.drop_last().filter(keep).push(lower_byte(last)).map_values(value)
            =~= nibbles_of(lowered.drop_last()).push(nibble_of(last)));
        assert(content.drop_last().filter(keep).push(last).map_values(value) =~= nibbles_of(
            content.drop_last(),
        ).push(nibble_of(last)));
    } else {
        assert(nibbles_of(lowered) =~= nibbles_of(content));
    }
}

proof fn header_after_prefix(prefix: Seq<Option<u8>>, rest: Seq<Option<u8>>, offset: int)
    requires
        0 <= offset,
    ensures
        header_at(prefix + rest, prefix.len() + offset) == header_at(rest, offset),
{
    let whole = prefix + rest;
    let n = prefix.len();
    if offset + 32 <= rest.len() {
        assert forall|k: int| 0 <= k < rest.len() implies whole[n + k] == #[trigger] rest[k] by {}
        assert(digits_at(whole, n + offset, 32) == digits_at(rest, offset, 32)) by {
            if digits_at(rest, offset, 32) {
                assert forall|k: int| n + offset <= k < n + offset + 32 implies (
                #[trigger] whole[k]) is Some by {
                    assert(rest[k - n] is Some);
                }
            }
            if digits_at(whole, n + offset, 32) {
                assert forall|k: int| offset <= k < offset + 32 implies (
                #[trigger] rest[k]) is Some by {
                    assert(whole[n + k] is Some);
                }
            }
        }
    }
}

/// What stands before a frame does not matter: a frame is accepted behind any
/// digits, odd in number or not, exactly where it is accepted without them.
pub proof fn prefix_does_not_shift(prefix: Seq<Option<u8>>, rest: Seq<Option<u8>>, offset: int)
    requires
        0 <= offset,
    ensures
        good_frame(prefix + rest, prefix.len() + offset) == good_frame(rest, offset),
        digits_at(rest, offset, 512) ==> frame_at(prefix + rest, prefix.len() + offset) == frame_at(
            rest,
            offset,
        ),
{
    let whole = prefix + rest;
    let n = prefix.len();
    header_after_prefix(prefix, rest, offset);
    assert((forall|other: int|
        n + offset < other < n + offset + 512 ==> !#[trigger] header_at(whole, other)) == (forall|
        other: int,
    |
        offset < other < offset + 512 ==> !#[trigger] header_at(rest, other))) by {
        if forall|other: int|
            n + offset < other < n + offset + 512 ==> !#[trigger] header_at(whole, other) {
            assert forall|other: int| offset < other < offset + 512 implies !#[trigger] header_at(
                rest,
                other,
            ) by {
                header_after_prefix(prefix, rest, other);
                assert(!header_at(whole, n + other));
            }
        }
        if forall|other: int| offset < other < offset + 512 ==> !#[trigger] header_at(rest, other) {
            assert forall|other: int|
                n + offset < other < n + offset + 512 implies !#[trigger] header_at(whole, other) by {
                header_after_prefix(prefix, rest, other - n);
                assert(!header_at(rest, other - n));
            }
        }
    }
    assert(digits_at(whole, n + offset, 512) == digits_at(rest, offset, 512)) by {
        if digits_at(rest, offset, 512) {
            assert forall|k: int| n + offset <= k < n + offset + 512 implies (
            #[trigger] whole[k]) is Some by {
                assert(rest[k - n] is Some);
            }
        }
        if digits_at(whole, n + offset, 512) {
            assert forall|k: int| offset <= k < offset + 512 implies (#[trigger] rest[k]) is Some by {
                assert(whole[n + k] is Some);
            }
        }
    }
    if digits_at(rest, offset, 512) {
        assert(frame_at(whole, n + offset) =~= frame_at(rest, offset));
    }
}

/// The frames of a recording come last, in the same order, in every recording
/// that ends with it: nothing that comes before can hide or shift them.
pub proof fn frames_survive_prefix(prefix: Seq<Option<u8>>, rest: Seq<Option<u8>>, end: int)
    requires
        0 <= end <= rest.len(),
    ensures
        good_offsets(prefix + rest, prefix.len() + end) == good_offsets(
            prefix + rest,
            prefix.len() as int,
        ) + good_offsets(rest, end).map_values(|o: int| prefix.len() + o),
    decreases end,
{
    let n = prefix.len() as int;
    let shift = |o: int| prefix.len() + o;
    if end == 0 {
        assert(good_offsets(prefix + rest, n) + Seq::<int>::empty().map_values(shift)
            =~= good_offsets(prefix + rest, n));
    } else {
        frames_survive_prefix(prefix, rest, end - 1);
        prefix_does_not_shift(prefix, rest, end - 1);
        if good_frame(rest, end - 1) {
            assert(good_offsets(rest, end - 1).push(end - 1).map_values(shift) =~= good_offsets(
                rest,
                end - 1,
            ).map_values(shift).push(n + end - 1));
            assert(good_offsets(prefix + rest, n) + good_offsets(rest, end - 1).map_values(
                shift,
            ).push(n + end - 1) =~= (good_offsets(prefix + rest, n) + good_offsets(
                rest,
                end - 1,
            ).map_values(shift)).push(n + end - 1));
        }
    }
}

/// The bytes of a frame as upper-case digits.
pub open spec fn frame_digits(frame: Seq<u8>) -> Seq<u8> {
    Seq::new(
        2 * frame.len(),
        |k: int|
            if k % 2 == 0 {
                byte_text(frame[k / 2])[0] as u8
            } else {
                byte_text(frame[k / 2])[1] as u8
            },
    )
}

/// The nibbles of a frame.
pub open spec fn frame_nibbles(frame: Seq<u8>) -> Seq<Option<u8>> {
    Seq::new(
        2 * frame.len(),
        |k: int|
            if k % 2 == 0 {
                Some((frame[k / 2] / 16) as u8)
            } else {
                Some((frame[k / 2] % 16) as u8)
            },
    )
}

proof fn digit_is_nibble(n: int)
    requires
        0 <= n < 16,
    ensures
        nibble_of(digit_of(n) as u8) == Some(n as u8),
        !is_space(digit_of(n) as u8),
{
}

proof fn digits_are_nibbles(digits: Seq<u8>)
    requires
        forall|k: int|
            0 <= k < digits.len() ==> !is_space(#[trigger] digits[k]),
    ensures
        nibbles_of(digits) == digits.map_values(|b: u8| nibble_of(b)),
    decreases digits.len(),
{
    let keep = |b: u8| !is_space(b);
    reveal(Seq::filter);
    assert(digits.filter(keep) =~= digits) by {
        keep_all(digits, keep);
    }
}

proof fn keep_all(s: Seq<u8>, keep: spec_fn(u8) -> bool)
    requires
        forall|k: int| 0 <= k < s.len() ==> keep(#[trigger] s[k]),
    ensures
        s.filter(keep) == s,
    decreases s.len(),
{
    reveal(Seq::filter);
    if s.len() > 0 {
        assert forall|k: int| 0 <= k < s.drop_last().len() implies keep(
            #[trigger] s.drop_last()[k],
        ) by {
            assert(s.drop_last()[k] == s[k]);
        }
        keep_all(s.drop_last(), keep);
        assert(s.drop_last().push(s.last()) =~= s);
    }
}

/// Frame `k` of bytes that are frames one after the other.
pub open spec fn frame_number(bytes: Seq<u8>, k: int) -> Seq<u8> {
    bytes.subrange(256 * k, 256 * k + 256)
}

/// The bytes are acceptable frames one after the other, and no further header
/// appears among their digits.
pub open spec fn clean_recording(bytes: Seq<u8>) -> bool {
    &&& bytes.len() % 256 == 0
    &&& forall|k: int|
        0 <= k < bytes.len() / 256 ==> header_bytes_ok(#[trigger] frame_number(bytes, k))
    &&& forall|k: int, p: int|
        0 <= k < bytes.len() / 256 && 0 <= p < 5 ==> detectors_ok(
            #[trigger] particle_of(frame_number(bytes, k), p),
        )
    &&& forall|o: int|
        0 <= o < 2 * bytes.len() && o % 512 != 0 ==> !#[trigger] header_at(frame_nibbles(bytes), o)
}

/// Frames that are written as digits read back: a clean recording holds
/// exactly its frames, in order.
pub proof fn recording_reads_back(bytes: Seq<u8>)
    requires
        clean_recording(bytes),
    ensures
        frames_of(frame_digits(bytes)) == Seq::new(
            bytes.len() / 256,
            |k: int| frame_number(bytes, k),
        ),
{
    let digits = frame_digits(bytes);
    let nibbles = frame_nibbles(bytes);
    assert forall|k: int| 0 <= k < digits.len() implies !is_space(#[trigger] digits[k])
        && nibble_of(digits[k]) == nibbles[k] by {
        let b = bytes[k / 2];
        digit_is_nibble(b as int / 16);
        digit_is_nibble(b as int % 16);
    }
    digits_are_nibbles(digits);
    assert(nibbles_of(digits) =~= nibbles);
    let count = (bytes.len() / 256) as int;
    assert forall|k: int| 0 <= k < count implies #[trigger] good_frame(nibbles, 512 * k)
        && frame_at(nibbles, 512 * k) == frame_number(bytes, k) by {
        clean_frame(bytes, k);
    }
    multiples_only(bytes, 2 * bytes.len() as int);
    let at = |o: int| frame_at(nibbles, o);
    let offsets = good_offsets(nibbles, 2 * bytes.len() as int);
    assert(offsets.len() == count);
    assert forall|k: int| 0 <= k < count implies #[trigger] offsets.map_values(at)[k]
        == frame_number(bytes, k) by {
        assert(offsets[k] == 512 * k);
        assert(good_frame(nibbles, 512 * k));
    }
    assert(offsets.map_values(at) =~= Seq::new(
        bytes.len() / 256,
        |k: int| frame_number(bytes, k),
    ));
}

proof fn clean_frame(bytes: Seq<u8>, k: int)
    requires
        clean_recording(bytes),
        0 <= k < bytes.len() / 256,
    ensures
        good_frame(frame_nibbles(bytes), 512 * k),
        frame_at(frame_nibbles(bytes), 512 * k) == frame_number(bytes, k),
{
    let nibbles = frame_nibbles(bytes);
    let frame = frame_number(bytes, k);
    assert forall|j: int| 0 <= j < 256 implies byte_from(nibbles, 512 * k + 2 * j)
        == #[trigger] frame[j] by {
        assert((512 * k + 2 * j) / 2 == 256 * k + j);
        assert((512 * k + 2 * j + 1) / 2 == 256 * k + j);
        assert(nibbles[512 * k + 2 * j] == Some((frame[j] / 16) as u8));
        assert(nibbles[512 * k + 2 * j + 1] == Some((frame[j] % 16) as u8));
    }
    assert(frame_at(nibbles, 512 * k) =~= frame);
    assert(header_bytes_ok(frame));
    assert(header_at(nibbles, 512 * k)) by {
        assert(frame[0] == 0xE2 && frame[1] == 0x25 && frame[14] == 0 && frame[15] == 0xAD);
        assert(word_at(frame, 6) == 256 * frame[6] + frame[7]);
    }
    assert forall|other: int| 512 * k < other < 512 * k + 512 implies !#[trigger] header_at(
        nibbles,
        other,
    ) by {
        assert(other % 512 != 0);
    }
    assert forall|p: int| 0 <= p < 5 implies detectors_ok(
        #[trigger] particle_of(frame_at(nibbles, 512 * k), p),
    ) by {
        assert(detectors_ok(particle_of(frame_number(bytes, k), p)));
    }
}

proof fn multiples_only(bytes: Seq<u8>, end: int)
    requires
        clean_recording(bytes),
        0 <= end <= 2 * bytes.len(),
    ensures
        good_offsets(frame_nibbles(bytes), end).len() == (end + 511) / 512,
        forall|i: int|
            0 <= i < (end + 511) / 512 ==> #[trigger] good_offsets(frame_nibbles(bytes), end)[i]
                == 512 * i,
    decreases end,
{
    if end > 0 {
        multiples_only(bytes, end - 1);
        let o = end - 1;
        if o % 512 == 0 {
            clean_frame(bytes, o / 512);
        } else {
            assert(!header_at(frame_nibbles(bytes), o));
        }
    }
}

/// Recordings do not join: those of two lists together hold the frames of the
/// first list, then those of the second.
pub proof fn files_do_not_join(a: Seq<Seq<u8>>, b: Seq<Seq<u8>>)
    ensures
        files_frames(a + b) == files_frames(a) + files_frames(b),
    decreases b.len(),
{
    if b.len() == 0 {
        assert(a + b =~= a);
        assert(files_frames(a) + Seq::<Seq<u8>>::empty() =~= files_frames(a));
    } else {
        files_do_not_join(a, b.drop_last());
        assert((a + b).drop_last() =~= a + b.drop_last());
        assert(files_frames(a) + (files_frames(b.drop_last()) + frames_of(b.last())) =~= (
        files_frames(a) + files_frames(b.drop_last())) + frames_of(b.last()));
    }
}

/// The layers hold exactly one pulse height of each axis and gain per particle.
pub proof fn one_pulse_per_particle(particles: Seq<Seq<u8>>)
    ensures
        ({
            let s = SignalsView::empty().record_all(particles);
            &&& s.l1.pulse_x == particles.map_values(|p: Seq<u8>| pulse(p, 3))
            &&& s.l1.pulse_y == particles.map_values(|p: Seq<u8>| pulse(p, 5))
            &&& s.l2.pulse_x == particles.map_values(|p: Seq<u8>| pulse(p, 8))
            &&& s.l2.pulse_y == particles.map_values(|p: Seq<u8>| pulse(p, 10))
            &&& s.l6.pulse_x == particles.map_values(|p: Seq<u8>| pulse(p, 25))
            &&& s.l6.pulse_y == particles.map_values(|p: Seq<u8>| pulse(p, 27))
            &&& s.l7.pulse_x == particles.map_values(|p: Seq<u8>| pulse(p, 30))
            &&& s.l7.pulse_y == particles.map_values(|p: Seq<u8>| pulse(p, 32))
            &&& s.l3.high_gain == particles.map_values(|p: Seq<u8>| pulse(p, 12))
            &&& s.l3.low_gain == particles.map_values(|p: Seq<u8>| pulse(p, 14))
            &&& s.l4.high_gain == particles.map_values(|p: Seq<u8>| pulse(p, 16))
            &&& s.l4.low_gain == particles.map_values(|p: Seq<u8>| pulse(p, 18))
            &&& s.l5.high_gain == particles.map_values(|p: Seq<u8>| pulse(p, 20))
            &&& s.l5.low_gain == particles.map_values(|p: Seq<u8>| pulse(p, 22))
        }),
    decreases particles.len(),
{
    if particles.len() > 0 {
        let front = particles.drop_last();
        one_pulse_per_particle(front);
        assert forall|i: int| #![auto]
            front.map_values(|p: Seq<u8>| pulse(p, i)).push(pulse(particles.last(), i))
                =~= particles.map_values(|p: Seq<u8>| pulse(p, i)) by {}
    }
}

/// How many values several series hold together.
pub open spec fn values_held(series: Seq<Seq<i32>>) -> nat
    decreases series.len(),
{
    if series.len() == 0 {
        0
    } else {
        values_held(series.drop_last()) + series.last().len()
    }
}

proof fn nothing_held(n: nat)
    ensures
        values_held(no_values(n)) == 0,
    decreases n,
{
    if n > 0 {
        nothing_held((n - 1) as nat);
        assert(no_values(n).drop_last() =~= no_values((n - 1) as nat));
    }
}

proof fn one_more_held(series: Seq<Seq<i32>>, i: int, value: i32)
    requires
        0 <= i < series.len(),
    ensures
        with_value(series, i, value).len() == series.len(),
        values_held(with_value(series, i, value)) == values_held(series) + 1,
    decreases series.len(),
{
    let more = with_value(series, i, value);
    if i == series.len() - 1 {
        assert(more.drop_last() =~= series.drop_last());
    } else {
        one_more_held(series.drop_last(), i, value);
        assert(more.drop_last() =~= with_value(series.drop_last(), i, value));
        assert(more.last() == series.last());
    }
}

/// The nine strips of each axis of a layer together hold `n` values.
pub open spec fn strips_hold(layer: LayerView, n: nat) -> bool {
    &&& layer.wf()
    &&& values_held(layer.strip_x) == n
    &&& values_held(layer.strip_y) == n
}

proof fn hit_on_strips(layer: LayerView, particle: Seq<u8>, pos: int, x: int, y: int, n: nat)
    requires
        strips_hold(layer, n),
        detector_ok(particle[pos]),
    ensures
        strips_hold(with_hit(layer, particle, pos, x, y), n + 1),
{
    one_more_held(layer.strip_x, strip_of(particle[pos] as int / 16), pulse(particle, x));
    one_more_held(layer.strip_y, strip_of(particle[pos] as int % 16), pulse(particle, y));
}

/// Each particle whose positions name strips leaves one value on the strips of
/// each axis of every layer.
pub proof fn one_strip_per_particle(particles: Seq<Seq<u8>>)
    requires
        forall|i: int| 0 <= i < particles.len() ==> detectors_ok(#[trigger] particles[i]),
    ensures
        ({
            let s = SignalsView::empty().record_all(particles);
            &&& strips_hold(s.l1, particles.len())
            &&& strips_hold(s.l2, particles.len())
            &&& strips_hold(s.l6, particles.len())
            &&& strips_hold(s.l7, particles.len())
        }),
    decreases particles.len(),
{
    if particles.len() == 0 {
        nothing_held(9);
    } else {
        let front = particles.drop_last();
        let last = particles.last();
        let n = front.len();
        assert forall|i: int| 0 <= i < front.len() implies detectors_ok(#[trigger] front[i]) by {
            assert(front[i] == particles[i]);
        }
        assert(detectors_ok(particles[n as int]));
        one_strip_per_particle(front);
        let s = SignalsView::empty().record_all(front);
        hit_on_strips(s.l1, last, 2, 3, 5, n);
        hit_on_strips(s.l2, last, 7, 8, 10, n);
        hit_on_strips(s.l6, last, 24, 25, 27, n);
        hit_on_strips(s.l7, last, 29, 30, 32, n);
    }
}

/// Where the positions of all frames name strips, so do those of all their
/// particles.
pub proof fn positions_name_strips(frames: Seq<Seq<u8>>)
    requires
        forall|k: int, p: int|
            0 <= k < frames.len() && 0 <= p < 5 ==> detectors_ok(
                #[trigger] particle_of(frames[k], p),
            ),
    ensures
        forall|i: int|
            0 <= i < frames_particles(frames).len() ==> detectors_ok(
                #[trigger] frames_particles(frames)[i],
            ),
    decreases frames.len(),
{
    if frames.len() > 0 {
        let front = frames.drop_last();
        let last = frames.len() - 1;
        assert forall|k: int, p: int| 0 <= k < front.len() && 0 <= p < 5 implies detectors_ok(
            #[trigger] particle_of(front[k], p),
        ) by {
            assert(particle_of(frames[k], p) == particle_of(front[k], p));
        }
        positions_name_strips(front);
        let before = frames_particles(front);
        assert forall|i: int| 0 <= i < frames_particles(frames).len() implies detectors_ok(
            #[trigger] frames_particles(frames)[i],
        ) by {
            if i < before.len() {
                assert(frames_particles(frames)[i] == before[i]);
            } else {
                assert(frames_particles(frames)[i] == particle_of(frames[last], i - before.len()));
            }
        }
    }
}

/// The positions of accepted frames name strips.
pub proof fn accepted_frames_name_strips(contents: Seq<Seq<u8>>)
    ensures
        forall|k: int, p: int|
            0 <= k < files_frames(contents).len() && 0 <= p < 5 ==> detectors_ok(
                #[trigger] particle_of(files_frames(contents)[k], p),
            ),
    decreases contents.len(),
{
    if contents.len() > 0 {
        accepted_frames_name_strips(contents.drop_last());
        let before = files_frames(contents.drop_last());
        let nibbles = nibbles_of(contents.last());
        let offsets = good_offsets(nibbles, nibbles.len() as int);
        frames_do_not_overlap(nibbles, nibbles.len() as int);
        assert forall|k: int, p: int|
            0 <= k < files_frames(contents).len() && 0 <= p < 5 implies detectors_ok(
            #[trigger] particle_of(files_frames(contents)[k], p),
        ) by {
            if k < before.len() {
                assert(files_frames(contents)[k] == before[k]);
            } else {
                let o = offsets[k - before.len()];
                assert(files_frames(contents)[k] == frame_at(nibbles, o));
                assert(good_frame(nibbles, o));
            }
        }
    }
}

/// A recording's particles are five for each of its frames, all or none: the
/// results, every series of pulse heights, and the strips of each axis
/// together agree in number.
pub proof fn no_partial_results(contents: Seq<Seq<u8>>)
    ensures
        ({
            let p = ProcessorView::empty().add_frames(files_frames(contents));
            &&& p.results.len() == 5 * p.packets
            &&& p.signals.l1.pulse_x.len() == 5 * p.packets
            &&& p.signals.l1.pulse_y.len() == 5 * p.packets
            &&& p.signals.l2.pulse_x.len() == 5 * p.packets
            &&& p.signals.l2.pulse_y.len() == 5 * p.packets
            &&& p.signals.l6.pulse_x.len() == 5 * p.packets
            &&& p.signals.l6.pulse_y.len() == 5 * p.packets
            &&& p.signals.l7.pulse_x.len() == 5 * p.packets
            &&& p.signals.l7.pulse_y.len() == 5 * p.packets
            &&& p.signals.l3.high_gain.len() == 5 * p.packets
            &&& p.signals.l3.low_gain.len() == 5 * p.packets
            &&& p.signals.l4.high_gain.len() == 5 * p.packets
            &&& p.signals.l4.low_gain.len() == 5 * p.packets
            &&& p.signals.l5.high_gain.len() == 5 * p.packets
            &&& p.signals.l5.low_gain.len() == 5 * p.packets
            &&& strips_hold(p.signals.l1, 5 * p.packets)
            &&& strips_hold(p.signals.l2, 5 * p.packets)
            &&& strips_hold(p.signals.l6, 5 * p.packets)
            &&& strips_hold(p.signals.l7, 5 * p.packets)
        }),
{
    let frames = files_frames(contents);
    particles_count(frames);
    one_pulse_per_particle(frames_particles(frames));
    accepted_frames_name_strips(contents);
    positions_name_strips(frames);
    one_strip_per_particle(frames_particles(frames));
}

/// Leaving zeros out empties the first channel and changes no other.
pub proof fn zeros_only_differ(values: Seq<i32>, size: nat)
    ensures
        histogram(values, size, true).len() == histogram(values, size, false).len(),
        size > 0 ==> histogram(values, size, true)[0] == 0,
        forall|b: int|
            0 < b < size ==> #[trigger] histogram(values, size, true)[b] == histogram(
                values,
                size,
                false,
            )[b],
{
}

/// The particles of a line carry the line's header and tail, are numbered from
/// one, and come at most 65 milliseconds after the line's time.
pub proof fn particles_belong_to_their_line(frame: Seq<u8>, i: int)
    requires
        frame.len() == 256,
        0 <= i < 5,
    ensures
        frame_results(frame)[i].header == frame_header(frame),
        frame_results(frame)[i].tail == frame_tail(frame),
        frame_results(frame)[i].number == i + 1,
        frame_time(frame) <= frame_results(frame)[i].time <= frame_time(frame) + 65,
{
    assert(0 <= word_at(particle_of(frame, i), 0) <= 65535);
}

} // verus!
