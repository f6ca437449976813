//! Lines of text and frames of bytes give the same particles.

use crate::line::HeaderView;
use crate::observation::data_processor::{
    after_particle, after_particles, particle_error, particle_tokens, token_bytes, ProcessorView,
};
use crate::observation::frame::{detectors_ok, particle_of, particles_of};
use crate::observation::particle::decoded_particle;
use crate::observation::tail_fields::{frame_tail, tails_agree, token_tail};
use crate::hex::byte_text;
use crate::wire::{byte_reads_back, no_bad_byte, wire_line, wire_text_is_byte_text};
use vstd::prelude::*;

verus! {

/// The 34 bytes of a particle read back from their texts. They are a particle
/// exactly where every half of the bytes 2, 7, 24 and 29 is at most eight.
pub proof fn particle_texts(bytes: Seq<u8>)
    ensures
        token_bytes(wire_line(bytes)) == bytes,
        bytes.len() != 34 ==> particle_error(wire_line(bytes)) == Some(
            "Particle data must contain exactly 34 bytes"@,
        ),
        bytes.len() == 34 ==> particle_error(wire_line(bytes)) == (if bytes[2] / 16 <= 8 && bytes[2]
            % 16 <= 8 && bytes[7] / 16 <= 8 && bytes[7] % 16 <= 8 && bytes[24] / 16 <= 8 && bytes[24]
            % 16 <= 8 && bytes[29] / 16 <= 8 && bytes[29] % 16 <= 8 {
            None
        } else {
            Some("Invalid detector nibble"@)
        }),
{
    assert forall|i: int| 0 <= i < bytes.len() implies #[trigger] token_bytes(wire_line(bytes))[i]
        == bytes[i] by {
        byte_reads_back(bytes, i);
    }
    assert(token_bytes(wire_line(bytes)) =~= bytes);
    if bytes.len() == 34 {
        no_bad_byte(bytes, 0, 34);
    }
}

/// A particle that a line cuts off adds nothing, and so does one with an error.
pub proof fn what_adds_nothing(
    before: ProcessorView,
    tokens: Seq<Seq<char>>,
    line_time: int,
    header: HeaderView,
    index: int,
)
    requires
        0 <= index,
        tokens.len() < 50 + 34 * index || particle_error(
            tokens.subrange(16 + 34 * index, 50 + 34 * index),
        ) is Some,
    ensures
        after_particle(before, tokens, line_time, header, index) == before,
{
}

proof fn line_tail_of_frame(frame: Seq<u8>)
    ensures
        token_tail(wire_line(frame)) == frame_tail(frame),
{
    assert forall|i: int| 0 <= i < frame.len() implies #[trigger] wire_line(frame)[i]
        == frame.map_values(|b: u8| byte_text(b))[i] by {
        wire_text_is_byte_text(frame[i]);
    }
    assert(wire_line(frame) =~= frame.map_values(|b: u8| byte_text(b)));
    tails_agree(frame);
}

/// The line of a frame gives its five particles, each with its own bytes, in
/// the order of the frame, and the layers get what the frame gives them.
#[verifier::spinoff_prover]
#[verifier::rlimit(60)]
pub proof fn lines_and_frames_agree(
    start: ProcessorView,
    frame: Seq<u8>,
    line_time: int,
    header: HeaderView,
    n: nat,
)
    requires
        frame.len() == 256,
        n <= 5,
        forall|p: int| 0 <= p < 5 ==> detectors_ok(#[trigger] particle_of(frame, p)),
    ensures
        ({
            let after = after_particles(start, wire_line(frame), line_time, header, n);
            &&& after.packets == start.packets
            &&& after.results == start.results + Seq::new(
                n,
                |i: int|
                    decoded_particle(
                        frame.subrange(16 + 34 * i, 50 + 34 * i),
                        i,
                        line_time,
                        header,
                        frame_tail(frame),
                    ),
            )
            &&& after.signals == start.signals.record_all(particles_of(frame).take(n as int))
        }),
    decreases n,
{
    let tokens = wire_line(frame);
    let all = Seq::new(
        n,
        |i: int|
            decoded_particle(
                frame.subrange(16 + 34 * i, 50 + 34 * i),
                i,
                line_time,
                header,
                frame_tail(frame),
            ),
    );
    if n == 0 {
        assert(start.results + all =~= start.results);
        assert(particles_of(frame).take(0) =~= Seq::<Seq<u8>>::empty());
    } else {
        let i = n - 1;
        lines_and_frames_agree(start, frame, line_time, header, (n - 1) as nat);
        line_tail_of_frame(frame);
        let bytes = frame.subrange(16 + 34 * i, 50 + 34 * i);
        assert(particle_of(frame, i) =~= bytes);
        assert(detectors_ok(particle_of(frame, i)));
        assert(particle_tokens(tokens, i) =~= wire_line(bytes));
        particle_texts(bytes);
        let before = after_particles(start, tokens, line_time, header, (n - 1) as nat);
        assert(start.results + all =~= (start.results + all.drop_last()).push(all.last()));
        assert(all.drop_last() =~= Seq::new(
            (n - 1) as nat,
            |i: int|
                decoded_particle(
                    frame.subrange(16 + 34 * i, 50 + 34 * i),
                    i,
                    line_time,
                    header,
                    frame_tail(frame),
                ),
        ));
        let particles = particles_of(frame);
        assert(particles.take(n as int).drop_last() =~= particles.take(n - 1));
        assert(particles.take(n as int).last() == bytes);
    }
}

} // verus!
