//! What the spectra of a recording count, name by name.

use crate::models::observation::{BgoLayer, BgoView, DetectorLayer, LayerView};
use crate::observation::data_processor::{files_frames, frames_particles};
use crate::observation::event_laws::named_strip;
use crate::observation::frame::detectors_ok;
use crate::observation::histogram::{
    all_entries, axis_key, bgo_entries, bgo_layer_text, gain_key, histogram, layer_entries,
    layer_text, lookup, occurrences, occurrences_bounded, signals_within, strip_entries, strip_key,
};
use crate::observation::histogram_laws::{histogram_is_found, histogram_names};
use crate::observation::laws::{
    accepted_frames_name_strips, one_pulse_per_particle, positions_name_strips,
};
use crate::observation::particle::{with_hit, SignalsView};
use crate::text::int_text;
use crate::wire::word;
use vstd::prelude::*;

verus! {

/// How many particles are such.
pub open spec fn particles_where(particles: Seq<Seq<u8>>, such: spec_fn(Seq<u8>) -> bool) -> nat
    decreases particles.len(),
{
    if particles.len() == 0 {
        0
    } else {
        particles_where(particles.drop_last(), such) + if such(particles.last()) {
            1nat
        } else {
            0nat
        }
    }
}

/// A strip layer in the names of its spectra, and where a particle holds its
/// position and its X and Y pulse height.
pub open spec fn layer_place(layer: DetectorLayer) -> (Seq<char>, int, int, int) {
    match layer {
        DetectorLayer::L1 => ("DSSDL1"@, 2, 3, 5),
        DetectorLayer::L2 => ("DSSDL2"@, 7, 8, 10),
        DetectorLayer::L6 => ("DSSDL6"@, 24, 25, 27),
        DetectorLayer::L7 => ("DSSDL7"@, 29, 30, 32),
    }
}

/// A scintillator layer in the names of its spectra, and where a particle holds
/// its high and low gain.
pub open spec fn bgo_place(layer: BgoLayer) -> (Seq<char>, int, int) {
    match layer {
        BgoLayer::L3 => ("BGOL3"@, 12, 14),
        BgoLayer::L4 => ("BGOL4"@, 16, 18),
        BgoLayer::L5 => ("BGOL5"@, 20, 22),
    }
}

/// The spectrum under `name` has `size` channels, and each counts the particles
/// that are such; the first is empty where zeros are left out.
pub open spec fn counts_particles(
    spectra: Seq<(Seq<char>, Seq<i32>)>,
    name: Seq<char>,
    size: nat,
    zeros: bool,
    particles: Seq<Seq<u8>>,
    such: spec_fn(Seq<u8>, int) -> bool,
) -> bool {
    &&& lookup(spectra, name) is Some
    &&& lookup(spectra, name)->0.len() == size
    &&& forall|b: int|
        0 <= b < size ==> #[trigger] lookup(spectra, name)->0[b] == (if b == 0 && !zeros {
            0
        } else {
            particles_where(particles, |p: Seq<u8>| such(p, b)) as int
        })
}

/// The particles of a recording.
pub open spec fn recorded(contents: Seq<Seq<u8>>) -> Seq<Seq<u8>> {
    frames_particles(files_frames(contents))
}

/// The spectra of a recording.
pub open spec fn spectra(contents: Seq<Seq<u8>>, zeros: bool) -> Seq<(Seq<char>, Seq<i32>)> {
    all_entries(SignalsView::empty().record_all(recorded(contents)), zeros)
}

proof fn occurrences_are_particles(particles: Seq<Seq<u8>>, values: Seq<i32>, i: int, b: int)
    requires
        values.len() == particles.len(),
        forall|k: int| 0 <= k < values.len() ==> #[trigger] values[k] == word(particles[k], i),
    ensures
        occurrences(values, b) == particles_where(particles, |p: Seq<u8>| word(p, i) == b),
    decreases particles.len(),
{
    if particles.len() > 0 {
        assert forall|k: int| 0 <= k < values.drop_last().len() implies #[trigger] values.drop_last()[k]
            == word(particles.drop_last()[k], i) by {
            assert(values.drop_last()[k] == values[k]);
        }
        assert(values[values.len() - 1] == word(particles[particles.len() - 1], i));
        occurrences_are_particles(particles.drop_last(), values.drop_last(), i, b);
    }
}

/// One strip layer after particles, given where they hold its position and
/// pulse heights.
spec fn layer_after(particles: Seq<Seq<u8>>, pos: int, x: int, y: int) -> LayerView
    decreases particles.len(),
{
    if particles.len() == 0 {
        LayerView::empty()
    } else {
        with_hit(layer_after(particles.drop_last(), pos, x, y), particles.last(), pos, x, y)
    }
}

proof fn layers_after(particles: Seq<Seq<u8>>)
    ensures
        ({
            let s = SignalsView::empty().record_all(particles);
            &&& s.l1 == layer_after(particles, 2, 3, 5)
            &&& s.l2 == layer_after(particles, 7, 8, 10)
            &&& s.l6 == layer_after(particles, 24, 25, 27)
            &&& s.l7 == layer_after(particles, 29, 30, 32)
        }),
    decreases particles.len(),
{
    if particles.len() > 0 {
        layers_after(particles.drop_last());
    }
}

#[verifier::spinoff_prover]
#[verifier::rlimit(60)]
proof fn strip_counts(
    particles: Seq<Seq<u8>>,
    pos: int,
    x: int,
    y: int,
    strip: int,
    b: int,
)
    requires
        0 <= strip < 9,
        forall|k: int|
            0 <= k < particles.len() ==> (#[trigger] particles[k])[pos] / 16 <= 8
                && particles[k][pos] % 16 <= 8,
    ensures
        layer_after(particles, pos, x, y).wf(),
        layer_after(particles, pos, x, y).strip_x[strip].len() <= particles.len(),
        layer_after(particles, pos, x, y).strip_y[strip].len() <= particles.len(),
        occurrences(layer_after(particles, pos, x, y).strip_x[strip], b) == particles_where(
            particles,
            |p: Seq<u8>| named_strip(p[pos] as int / 16) == strip && word(p, x) == b,
        ),
        occurrences(layer_after(particles, pos, x, y).strip_y[strip], b) == particles_where(
            particles,
            |p: Seq<u8>| named_strip(p[pos] as int % 16) == strip && word(p, y) == b,
        ),
    decreases particles.len(),
{
    if particles.len() > 0 {
        let front = particles.drop_last();
        let last = particles.last();
        assert forall|k: int| 0 <= k < front.len() implies (#[trigger] front[k])[pos] / 16 <= 8
            && front[k][pos] % 16 <= 8 by {
            assert(front[k] == particles[k]);
        }
        assert(particles[particles.len() - 1][pos] / 16 <= 8);
        strip_counts(front, pos, x, y, strip, b);
        let before = layer_after(front, pos, x, y);
        assert(before.strip_x[strip].push(word(last, x) as i32).drop_last()
            =~= before.strip_x[strip]);
        assert(before.strip_y[strip].push(word(last, y) as i32).drop_last()
            =~= before.strip_y[strip]);
        assert(0 <= word(last, x) < 65536 && 0 <= word(last, y) < 65536);
    }
}

proof fn strip_entry(layer: DetectorLayer, data: LayerView, n: nat, strip: int)
    requires
        1 <= strip <= n,
    ensures
        strip_entries(layer, data, n).len() == 2 * n,
        strip_entries(layer, data, n)[2 * strip - 2] == (
            strip_key(layer, "_StripX"@, strip),
            histogram(data.strip_x[strip], 16384, false),
        ),
        strip_entries(layer, data, n)[2 * strip - 1] == (
            strip_key(layer, "_StripY"@, strip),
            histogram(data.strip_y[strip], 16384, false),
        ),
    decreases n,
{
    if n > 1 {
        strip_entry(layer, data, (n - 1) as nat, if strip < n { strip } else { 1 });
    } else {
        assert(strip_entries(layer, data, 0).len() == 0);
    }
}

/// The place of a strip layer among the strip layers.
spec fn layer_index(layer: DetectorLayer) -> int {
    match layer {
        DetectorLayer::L1 => 0,
        DetectorLayer::L2 => 1,
        DetectorLayer::L6 => 2,
        DetectorLayer::L7 => 3,
    }
}

spec fn layer_in(s: SignalsView, layer: DetectorLayer) -> LayerView {
    match layer {
        DetectorLayer::L1 => s.l1,
        DetectorLayer::L2 => s.l2,
        DetectorLayer::L6 => s.l6,
        DetectorLayer::L7 => s.l7,
    }
}

proof fn entry_in_layer(s: SignalsView, zeros: bool, layer: DetectorLayer, j: int)
    requires
        0 <= j < 18,
    ensures
        layer_entries(layer, layer_in(s, layer), !zeros).len() == 18,
        all_entries(s, zeros).len() == 78,
        all_entries(s, zeros)[18 * layer_index(layer) + j] == layer_entries(
            layer,
            layer_in(s, layer),
            !zeros,
        )[j],
{
    strip_entry(DetectorLayer::L1, s.l1, 8, 1);
    strip_entry(DetectorLayer::L2, s.l2, 8, 1);
    strip_entry(DetectorLayer::L6, s.l6, 8, 1);
    strip_entry(DetectorLayer::L7, s.l7, 8, 1);
    histogram_names(s, zeros);
}

proof fn found_in_layer(s: SignalsView, zeros: bool, layer: DetectorLayer, j: int)
    requires
        0 <= j < 18,
    ensures
        layer_entries(layer, layer_in(s, layer), !zeros).len() == 18,
        lookup(
            all_entries(s, zeros),
            layer_entries(layer, layer_in(s, layer), !zeros)[j].0,
        ) == Some(layer_entries(layer, layer_in(s, layer), !zeros)[j].1),
{
    let i = 18 * layer_index(layer) + j;
    entry_in_layer(s, zeros, layer, j);
    histogram_names(s, zeros);
    histogram_is_found(s, zeros, i);
}

proof fn layer_names(layer: DetectorLayer)
    ensures
        axis_key(layer, "_X"@) == layer_place(layer).0 + "_X"@,
        axis_key(layer, "_Y"@) == layer_place(layer).0 + "_Y"@,
        forall|n: int| #[trigger]
            strip_key(layer, "_StripX"@, n) == layer_place(layer).0 + "_StripX"@ + int_text(n),
        forall|n: int| #[trigger]
            strip_key(layer, "_StripY"@, n) == layer_place(layer).0 + "_StripY"@ + int_text(n),
{
    reveal_strlit("DSSD");
    reveal_strlit("L1");
    reveal_strlit("L2");
    reveal_strlit("L6");
    reveal_strlit("L7");
    reveal_strlit("DSSDL1");
    reveal_strlit("DSSDL2");
    reveal_strlit("DSSDL6");
    reveal_strlit("DSSDL7");
    assert("DSSD"@ + layer_text(layer) =~= layer_place(layer).0);
}

proof fn axis_lens(particles: Seq<Seq<u8>>, layer: DetectorLayer)
    ensures
        ({
            let data = layer_in(SignalsView::empty().record_all(particles), layer);
            let (_, pos, x, y) = layer_place(layer);
            &&& data == layer_after(particles, pos, x, y)
            &&& data.pulse_x.len() == particles.len()
            &&& data.pulse_y.len() == particles.len()
            &&& forall|k: int|
                0 <= k < particles.len() ==> #[trigger] data.pulse_x[k] == word(particles[k], x)
            &&& forall|k: int|
                0 <= k < particles.len() ==> #[trigger] data.pulse_y[k] == word(particles[k], y)
        }),
{
    layers_after(particles);
    one_pulse_per_particle(particles);
    let (_, pos, x, y) = layer_place(layer);
    assert forall|k: int| 0 <= k < particles.len() implies 0 <= #[trigger] word(particles[k], x)
        < 65536 by {}
    assert forall|k: int| 0 <= k < particles.len() implies 0 <= #[trigger] word(particles[k], y)
        < 65536 by {}
}

/// The spectra DSSD<layer>_X and DSSD<layer>_Y of a recording count, in every
/// channel, the particles whose X or Y pulse height in that layer it is.
#[verifier::spinoff_prover]
#[verifier::rlimit(60)]
pub proof fn axis_spectra(contents: Seq<Seq<u8>>, zeros: bool, layer: DetectorLayer)
    requires
        recorded(contents).len() <= i32::MAX,
    ensures
        ({
            let (name, pos, x, y) = layer_place(layer);
            &&& counts_particles(
                spectra(contents, zeros),
                name + "_X"@,
                16384,
                zeros,
                recorded(contents),
                |p: Seq<u8>, b: int| word(p, x) == b,
            )
            &&& counts_particles(
                spectra(contents, zeros),
                name + "_Y"@,
                16384,
                zeros,
                recorded(contents),
                |p: Seq<u8>, b: int| word(p, y) == b,
            )
        }),
{
    let (name, pos, x, y) = layer_place(layer);
    let particles = recorded(contents);
    let s = SignalsView::empty().record_all(particles);
    let data = layer_in(s, layer);
    found_in_layer(s, zeros, layer, 0);
    found_in_layer(s, zeros, layer, 1);
    layer_names(layer);
    axis_lens(particles, layer);
    let such_x = |p: Seq<u8>, b: int| word(p, x) == b;
    let such_y = |p: Seq<u8>, b: int| word(p, y) == b;
    let hx = lookup(spectra(contents, zeros), name + "_X"@)->0;
    let hy = lookup(spectra(contents, zeros), name + "_Y"@)->0;
    assert forall|b: int| 0 <= b < 16384 implies #[trigger] hx[b] == (if b == 0 && !zeros {
        0
    } else {
        particles_where(particles, |p: Seq<u8>| such_x(p, b)) as int
    }) by {
        occurrences_are_particles(particles, data.pulse_x, x, b);
        occurrences_bounded(data.pulse_x, b);
        same_particles(
            particles,
            |p: Seq<u8>| such_x(p, b),
            |p: Seq<u8>| word(p, x) == b,
        );
    }
    assert forall|b: int| 0 <= b < 16384 implies #[trigger] hy[b] == (if b == 0 && !zeros {
        0
    } else {
        particles_where(particles, |p: Seq<u8>| such_y(p, b)) as int
    }) by {
        occurrences_are_particles(particles, data.pulse_y, y, b);
        occurrences_bounded(data.pulse_y, b);
        same_particles(
            particles,
            |p: Seq<u8>| such_y(p, b),
            |p: Seq<u8>| word(p, y) == b,
        );
    }
}

proof fn same_particles(
    particles: Seq<Seq<u8>>,
    f: spec_fn(Seq<u8>) -> bool,
    g: spec_fn(Seq<u8>) -> bool,
)
    requires
        forall|p: Seq<u8>| #[trigger] f(p) == g(p),
    ensures
        particles_where(particles, f) == particles_where(particles, g),
    decreases particles.len(),
{
    if particles.len() > 0 {
        same_particles(particles.drop_last(), f, g);
        assert(f(particles.last()) == g(particles.last()));
    }
}

/// The spectra DSSD<layer>_StripX1 to 8 and _StripY1 to 8 of a recording count,
/// in every channel, the particles that hit that strip in that layer with that
/// pulse height.
#[verifier::spinoff_prover]
#[verifier::rlimit(60)]
pub proof fn strip_spectra(
    contents: Seq<Seq<u8>>,
    zeros: bool,
    layer: DetectorLayer,
    strip: int,
)
    requires
        recorded(contents).len() <= i32::MAX,
        1 <= strip <= 8,
    ensures
        ({
            let (name, pos, x, y) = layer_place(layer);
            &&& counts_particles(
                spectra(contents, zeros),
                name + "_StripX"@ + int_text(strip),
                16384,
                true,
                recorded(contents),
                |p: Seq<u8>, b: int| named_strip(p[pos] as int / 16) == strip && word(p, x) == b,
            )
            &&& counts_particles(
                spectra(contents, zeros),
                name + "_StripY"@ + int_text(strip),
                16384,
                true,
                recorded(contents),
                |p: Seq<u8>, b: int| named_strip(p[pos] as int % 16) == strip && word(p, y) == b,
            )
        }),
{
    let (name, pos, x, y) = layer_place(layer);
    let particles = recorded(contents);
    let s = SignalsView::empty().record_all(particles);
    let data = layer_in(s, layer);
    found_in_layer(s, zeros, layer, 2 * strip);
    found_in_layer(s, zeros, layer, 2 * strip + 1);
    strip_entry(layer, data, 8, strip);
    assert(layer_entries(layer, data, !zeros)[2 * strip] == strip_entries(layer, data, 8)[2 * strip
        - 2]);
    assert(layer_entries(layer, data, !zeros)[2 * strip + 1] == strip_entries(layer, data, 8)[2
        * strip - 1]);
    layer_names(layer);
    axis_lens(particles, layer);
    accepted_frames_name_strips(contents);
    positions_name_strips(files_frames(contents));
    assert forall|k: int| 0 <= k < particles.len() implies (#[trigger] particles[k])[pos] / 16 <= 8
        && particles[k][pos] % 16 <= 8 by {
        assert(detectors_ok(particles[k]));
    }
    let such_x = |p: Seq<u8>, b: int| named_strip(p[pos] as int / 16) == strip && word(p, x) == b;
    let such_y = |p: Seq<u8>, b: int| named_strip(p[pos] as int % 16) == strip && word(p, y) == b;
    let hx = lookup(spectra(contents, zeros), name + "_StripX"@ + int_text(strip))->0;
    let hy = lookup(spectra(contents, zeros), name + "_StripY"@ + int_text(strip))->0;
    assert forall|b: int| 0 <= b < 16384 implies #[trigger] hx[b] == particles_where(
        particles,
        |p: Seq<u8>| such_x(p, b),
    ) as int by {
        strip_counts(particles, pos, x, y, strip, b);
        occurrences_bounded(data.strip_x[strip], b);
        same_particles(
            particles,
            |p: Seq<u8>| such_x(p, b),
            |p: Seq<u8>| named_strip(p[pos] as int / 16) == strip && word(p, x) == b,
        );
    }
    assert forall|b: int| 0 <= b < 16384 implies #[trigger] hy[b] == particles_where(
        particles,
        |p: Seq<u8>| such_y(p, b),
    ) as int by {
        strip_counts(particles, pos, x, y, strip, b);
        occurrences_bounded(data.strip_y[strip], b);
        same_particles(
            particles,
            |p: Seq<u8>| such_y(p, b),
            |p: Seq<u8>| named_strip(p[pos] as int % 16) == strip && word(p, y) == b,
        );
    }
}

spec fn gains_in(s: SignalsView, layer: BgoLayer) -> BgoView {
    match layer {
        BgoLayer::L3 => s.l3,
        BgoLayer::L4 => s.l4,
        BgoLayer::L5 => s.l5,
    }
}

proof fn found_in_bgo(s: SignalsView, zeros: bool, layer: BgoLayer, j: int)
    requires
        0 <= j < 2,
    ensures
        lookup(all_entries(s, zeros), bgo_entries(layer, gains_in(s, layer), !zeros)[j].0) == Some(
            bgo_entries(layer, gains_in(s, layer), !zeros)[j].1,
        ),
{
    let first: int = match layer {
        BgoLayer::L3 => 72,
        BgoLayer::L4 => 74,
        BgoLayer::L5 => 76,
    };
    entry_in_layer(s, zeros, DetectorLayer::L7, 0);
    strip_entry(DetectorLayer::L1, s.l1, 8, 1);
    strip_entry(DetectorLayer::L2, s.l2, 8, 1);
    strip_entry(DetectorLayer::L6, s.l6, 8, 1);
    strip_entry(DetectorLayer::L7, s.l7, 8, 1);
    assert(all_entries(s, zeros)[first + j] == bgo_entries(layer, gains_in(s, layer), !zeros)[j]);
    histogram_names(s, zeros);
    histogram_is_found(s, zeros, first + j);
}

proof fn gain_lens(particles: Seq<Seq<u8>>, layer: BgoLayer)
    ensures
        ({
            let data = gains_in(SignalsView::empty().record_all(particles), layer);
            let (_, high, low) = bgo_place(layer);
            &&& data.high_gain.len() == particles.len()
            &&& data.low_gain.len() == particles.len()
            &&& forall|k: int|
                0 <= k < particles.len() ==> #[trigger] data.high_gain[k] == word(
                    particles[k],
                    high,
                )
            &&& forall|k: int|
                0 <= k < particles.len() ==> #[trigger] data.low_gain[k] == word(particles[k], low)
        }),
{
    one_pulse_per_particle(particles);
    let (_, high, low) = bgo_place(layer);
    assert forall|k: int| 0 <= k < particles.len() implies 0 <= #[trigger] word(particles[k], high)
        < 65536 by {}
    assert forall|k: int| 0 <= k < particles.len() implies 0 <= #[trigger] word(particles[k], low)
        < 65536 by {}
}

/// The spectra BGO<layer>_High and BGO<layer>_Low of a recording count, in every
/// channel, the particles whose high or low gain pulse height in that layer it
/// is.
#[verifier::spinoff_prover]
#[verifier::rlimit(60)]
pub proof fn gain_spectra(contents: Seq<Seq<u8>>, zeros: bool, layer: BgoLayer)
    requires
        recorded(contents).len() <= i32::MAX,
    ensures
        ({
            let (name, high, low) = bgo_place(layer);
            &&& counts_particles(
                spectra(contents, zeros),
                name + "_High"@,
                4096,
                zeros,
                recorded(contents),
                |p: Seq<u8>, b: int| word(p, high) == b,
            )
            &&& counts_particles(
                spectra(contents, zeros),
                name + "_Low"@,
                4096,
                zeros,
                recorded(contents),
                |p: Seq<u8>, b: int| word(p, low) == b,
            )
        }),
{
    let (name, high, low) = bgo_place(layer);
    let particles = recorded(contents);
    let s = SignalsView::empty().record_all(particles);
    let data = gains_in(s, layer);
    found_in_bgo(s, zeros, layer, 0);
    found_in_bgo(s, zeros, layer, 1);
    gain_lens(particles, layer);
    reveal_strlit("BGO");
    reveal_strlit("L3");
    reveal_strlit("L4");
    reveal_strlit("L5");
    reveal_strlit("BGOL3");
    reveal_strlit("BGOL4");
    reveal_strlit("BGOL5");
    assert("BGO"@ + bgo_layer_text(layer) =~= name);
    assert(gain_key(layer, "_High"@) == name + "_High"@);
    let such_high = |p: Seq<u8>, b: int| word(p, high) == b;
    let such_low = |p: Seq<u8>, b: int| word(p, low) == b;
    let hh = lookup(spectra(contents, zeros), name + "_High"@)->0;
    let hl = lookup(spectra(contents, zeros), name + "_Low"@)->0;
    assert forall|b: int| 0 <= b < 4096 implies #[trigger] hh[b] == (if b == 0 && !zeros {
        0
    } else {
        particles_where(particles, |p: Seq<u8>| such_high(p, b)) as int
    }) by {
        occurrences_are_particles(particles, data.high_gain, high, b);
        occurrences_bounded(data.high_gain, b);
        same_particles(
            particles,
            |p: Seq<u8>| such_high(p, b),
            |p: Seq<u8>| word(p, high) == b,
        );
    }
    assert forall|b: int| 0 <= b < 4096 implies #[trigger] hl[b] == (if b == 0 && !zeros {
        0
    } else {
        particles_where(particles, |p: Seq<u8>| such_low(p, b)) as int
    }) by {
        occurrences_are_particles(particles, data.low_gain, low, b);
        occurrences_bounded(data.low_gain, b);
        same_particles(
            particles,
            |p: Seq<u8>| such_low(p, b),
            |p: Seq<u8>| word(p, low) == b,
        );
    }
}

/// A spectrum that is found stands in the set under its name, and one that is
/// not found does not.
pub proof fn found_stands_there(entries: Seq<(Seq<char>, Seq<i32>)>, name: Seq<char>)
    ensures
        match lookup(entries, name) {
            Some(h) => exists|i: int|
                0 <= i < entries.len() && #[trigger] entries[i] == (name, h) && (forall|j: int|
                    0 <= j < i ==> (#[trigger] entries[j]).0 != name),
            None => forall|i: int| 0 <= i < entries.len() ==> (#[trigger] entries[i]).0 != name,
        },
    decreases entries.len(),
{
    if entries.len() > 0 {
        if entries[0].0 == name {
            assert(entries[0] == (name, entries[0].1));
        } else {
            let rest = entries.drop_first();
            found_stands_there(rest, name);
            assert forall|j: int| 0 < j < entries.len() implies #[trigger] entries[j] == rest[j - 1] by {}
            if lookup(rest, name) is Some {
                let h = lookup(rest, name)->0;
                let i = choose|i: int|
                    0 <= i < rest.len() && #[trigger] rest[i] == (name, h) && (forall|j: int|
                        0 <= j < i ==> (#[trigger] rest[j]).0 != name);
                assert(entries[i + 1] == (name, h));
            }
        }
    }
}

/// The series are short enough to be counted where none holds more values than
/// the limit.
pub proof fn series_that_can_be_counted(s: SignalsView, limit: int)
    ensures
        signals_within(s, limit) == (layer_fits(s.l1, limit) && layer_fits(s.l2, limit)
            && layer_fits(s.l6, limit) && layer_fits(s.l7, limit) && s.l3.high_gain.len() <= limit
            && s.l3.low_gain.len() <= limit && s.l4.high_gain.len() <= limit
            && s.l4.low_gain.len() <= limit && s.l5.high_gain.len() <= limit
            && s.l5.low_gain.len() <= limit),
{
}

/// No series of a strip layer holds more values than the limit.
pub open spec fn layer_fits(layer: LayerView, limit: int) -> bool {
    &&& layer.pulse_x.len() <= limit
    &&& layer.pulse_y.len() <= limit
    &&& forall|i: int| 0 <= i < layer.strip_x.len() ==> (#[trigger] layer.strip_x[i]).len() <= limit
    &&& forall|i: int| 0 <= i < layer.strip_y.len() ==> (#[trigger] layer.strip_y[i]).len() <= limit
}

} // verus!
