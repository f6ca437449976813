//! Particles and the pulse heights that they leave in the detector layers.

use crate::clock::Millis;
use crate::line::{be_u16, wrap32, wrap_to_i32, HeaderView, LineHeaderFields};
use crate::models::observation::{BgoData, BgoView, LayerData, LayerView};
use crate::observation::frame::{
    detectors_ok, valid_detector_nibbles, word_at, PARTICLE_DATA_LENGTH,
};
use crate::tail::{cell_views, TailCell, TailView};
use std::sync::Arc;
use vstd::prelude::*;

verus! {

/// One decoded particle.
#[derive(Debug, Clone, Default)]
pub struct ParticleResult {
    pub particle_number: i32,
    /// The particle time field, bytes 0 and 1, in microseconds.
    pub particle_time_raw: i32,
    pub milliseconds: i32,
    pub time: Millis,
    /// X and Y pulse heights in the order L1, L2, L6, L7.
    pub dssd_pulses: [(i32, i32); 4],
    /// Position bytes in the order L1, L2, L6, L7.
    pub dssd_positions: [i32; 4],
    /// High and low gain pulse heights in the order L3, L4, L5.
    pub bgo_pulses: [(i32, i32); 3],
    /// The header of the particle's line. Every particle of a line carries the
    /// same five values.
    pub packet_sync: String,
    pub package_id: i32,
    pub packet_sequence: i32,
    pub packet_data_length: i32,
    pub data_type: String,
    /// The tail of the particle's line, shared by its particles.
    pub line_tail: Arc<Vec<TailCell>>,
}

/// What a particle is.
#[verifier::ext_equal]
pub struct ParticleView {
    pub number: int,
    pub time_raw: int,
    pub milliseconds: int,
    pub time: int,
    pub dssd_pulses: Seq<(i32, i32)>,
    pub dssd_positions: Seq<i32>,
    pub bgo_pulses: Seq<(i32, i32)>,
    pub header: HeaderView,
    pub tail: Seq<TailView>,
}

impl View for ParticleResult {
    type V = ParticleView;

    open spec fn view(&self) -> ParticleView {
        ParticleView {
            number: self.particle_number as int,
            time_raw: self.particle_time_raw as int,
            milliseconds: self.milliseconds as int,
            time: self.time as int,
            dssd_pulses: self.dssd_pulses@,
            dssd_positions: self.dssd_positions@,
            bgo_pulses: self.bgo_pulses@,
            header: HeaderView {
                packet_sync: self.packet_sync@,
                package_id: self.package_id as int,
                packet_sequence: self.packet_sequence as int,
                packet_data_length: self.packet_data_length as int,
                data_type: self.data_type@,
            },
            tail: cell_views(self.line_tail@),
        }
    }
}

/// What a list of particles is.
pub open spec fn particle_views(results: Seq<ParticleResult>) -> Seq<ParticleView> {
    results.map_values(|p: ParticleResult| p@)
}

/// A particle at the end of a list adds what it is at the end.
pub proof fn particle_views_push(results: Seq<ParticleResult>, last: ParticleResult)
    ensures
        particle_views(results.push(last)) == particle_views(results).push(last@),
{
}

/// The pulse height in the bytes `i` and `i + 1` of a particle.
pub open spec fn pulse(particle: Seq<u8>, i: int) -> i32 {
    word_at(particle, i) as i32
}

/// The particle `index` of a line, from its 34 bytes. Its time is the line's,
/// moved on by the whole milliseconds of the particle time.
pub open spec fn decoded_particle(
    particle: Seq<u8>,
    index: int,
    line_time: int,
    header: HeaderView,
    tail: Seq<TailView>,
) -> ParticleView {
    ParticleView {
        number: wrap32(index) + 1,
        time_raw: word_at(particle, 0),
        milliseconds: word_at(particle, 0) / 1000,
        time: line_time + word_at(particle, 0) / 1000,
        dssd_pulses: seq![
            (pulse(particle, 3), pulse(particle, 5)),
            (pulse(particle, 8), pulse(particle, 10)),
            (pulse(particle, 25), pulse(particle, 27)),
            (pulse(particle, 30), pulse(particle, 32)),
        ],
        dssd_positions: seq![
            particle[2] as i32,
            particle[7] as i32,
            particle[24] as i32,
            particle[29] as i32,
        ],
        bgo_pulses: seq![
            (pulse(particle, 12), pulse(particle, 14)),
            (pulse(particle, 16), pulse(particle, 18)),
            (pulse(particle, 20), pulse(particle, 22)),
        ],
        header,
        tail,
    }
}

/// The strip that a half of a position byte names: 8 names strip 0, any other
/// value the strip after it.
pub open spec fn strip_of(detect: int) -> int {
    if detect == 8 {
        0
    } else {
        detect + 1
    }
}

/// The pulse heights of all layers.
pub struct SignalsView {
    pub l1: LayerView,
    pub l2: LayerView,
    pub l6: LayerView,
    pub l7: LayerView,
    pub l3: BgoView,
    pub l4: BgoView,
    pub l5: BgoView,
}

/// A strip layer with one more particle, whose position stands at `pos` and
/// whose pulse heights at `x` and `y`.
pub open spec fn with_hit(layer: LayerView, particle: Seq<u8>, pos: int, x: int, y: int) -> LayerView {
    layer.record(
        pulse(particle, x),
        pulse(particle, y),
        strip_of(particle[pos] as int / 16),
        strip_of(particle[pos] as int % 16),
    )
}

impl SignalsView {
    /// Every strip layer has its nine strips.
    pub open spec fn wf(self) -> bool {
        self.l1.wf() && self.l2.wf() && self.l6.wf() && self.l7.wf()
    }

    /// No pulse heights.
    pub open spec fn empty() -> SignalsView {
        SignalsView {
            l1: LayerView::empty(),
            l2: LayerView::empty(),
            l6: LayerView::empty(),
            l7: LayerView::empty(),
            l3: BgoView::empty(),
            l4: BgoView::empty(),
            l5: BgoView::empty(),
        }
    }

    /// One more particle. It adds to every layer, whether the layer fired or
    /// not.
    pub open spec fn record(self, particle: Seq<u8>) -> SignalsView {
        SignalsView {
            l1: with_hit(self.l1, particle, 2, 3, 5),
            l2: with_hit(self.l2, particle, 7, 8, 10),
            l6: with_hit(self.l6, particle, 24, 25, 27),
            l7: with_hit(self.l7, particle, 29, 30, 32),
            l3: self.l3.record(pulse(particle, 12), pulse(particle, 14)),
            l4: self.l4.record(pulse(particle, 16), pulse(particle, 18)),
            l5: self.l5.record(pulse(particle, 20), pulse(particle, 22)),
        }
    }

    /// More particles, one after the other.
    pub open spec fn record_all(self, particles: Seq<Seq<u8>>) -> SignalsView
        decreases particles.len(),
    {
        if particles.len() == 0 {
            self
        } else {
            self.record_all(particles.drop_last()).record(particles.last())
        }
    }
}

/// The strip layers.
#[derive(Debug, Clone)]
pub struct DssdData {
    pub l1: LayerData,
    pub l2: LayerData,
    pub l6: LayerData,
    pub l7: LayerData,
}

/// The scintillator layers.
#[derive(Debug, Clone)]
pub struct BgoLayers {
    pub l3: BgoData,
    pub l4: BgoData,
    pub l5: BgoData,
}

/// The pulse heights of the strip and scintillator layers.
pub open spec fn signals(dssd: DssdData, bgo: BgoLayers) -> SignalsView {
    SignalsView {
        l1: dssd.l1@,
        l2: dssd.l2@,
        l6: dssd.l6@,
        l7: dssd.l7@,
        l3: bgo.l3@,
        l4: bgo.l4@,
        l5: bgo.l5@,
    }
}

fn strip_index(detect: u8) -> (r: usize)
    ensures
        r == strip_of(detect as int),
{
    if detect == 8 {
        0
    } else {
        detect as usize + 1
    }
}

fn pulse_at(data: &[u8], i: usize) -> (r: i32)
    requires
        i + 1 < data@.len(),
    ensures
        r == pulse(data@, i as int),
{
    be_u16(data[i], data[i + 1]) as i32
}

/// Adds a particle's pulse heights to a strip layer and returns them.
pub fn process_dssd_layer(
    layer: &mut LayerData,
    data: &[u8],
    pos_idx: usize,
    x_ph_idx: usize,
    y_ph_idx: usize,
) -> (r: (i32, i32))
    requires
        pos_idx < data@.len(),
        x_ph_idx + 1 < data@.len(),
        y_ph_idx + 1 < data@.len(),
    ensures
        final(layer)@ == with_hit(
            old(layer)@,
            data@,
            pos_idx as int,
            x_ph_idx as int,
            y_ph_idx as int,
        ),
        r == (pulse(data@, x_ph_idx as int), pulse(data@, y_ph_idx as int)),
{
    let ph_x: i32 = pulse_at(data, x_ph_idx);
    let ph_y: i32 = pulse_at(data, y_ph_idx);
    let strip_x: usize = strip_index(data[pos_idx] / 16);
    let strip_y: usize = strip_index(data[pos_idx] % 16);
    layer.record(ph_x, ph_y, strip_x, strip_y);
    (ph_x, ph_y)
}

/// Adds a particle's pulse heights to a scintillator layer and returns them.
pub fn process_bgo_layer(layer: &mut BgoData, data: &[u8], h_idx: usize, l_idx: usize) -> (r: (i32, i32))
    requires
        h_idx + 1 < data@.len(),
        l_idx + 1 < data@.len(),
    ensures
        final(layer)@ == old(layer)@.record(pulse(data@, h_idx as int), pulse(data@, l_idx as int)),
        r == (pulse(data@, h_idx as int), pulse(data@, l_idx as int)),
{
    let ph_h: i32 = pulse_at(data, h_idx);
    let ph_l: i32 = pulse_at(data, l_idx);
    layer.record(ph_h, ph_l);
    (ph_h, ph_l)
}

/// `Arc::clone`: another handle to the same value.
#[verifier::external_body]
fn share(tail: &Arc<Vec<TailCell>>) -> (r: Arc<Vec<TailCell>>)
    ensures
        r == *tail,
{
    Arc::clone(tail)
}

/// Decodes one particle of a line and adds its pulse heights to the layers.
/// Where the bytes are not 34, or a position names no strip, it changes
/// nothing.
pub fn process_particle_bytes(
    dssd: &mut DssdData,
    bgo: &mut BgoLayers,
    particle_data: &[u8],
    i: usize,
    line_time: Millis,
    header: &LineHeaderFields,
    line_tail: &Arc<Vec<TailCell>>,
) -> (r: Result<ParticleResult, String>)
    requires
        wrap32(i as int) < i32::MAX,
        line_time <= i64::MAX - 65,
    ensures
        match r {
            Ok(p) => particle_data@.len() == 34 && detectors_ok(particle_data@) && p@
                == decoded_particle(
                particle_data@,
                i as int,
                line_time as int,
                header@,
                cell_views(line_tail@),
            ) && signals(*final(dssd), *final(bgo)) == signals(*old(dssd), *old(bgo)).record(
                particle_data@,
            ),
            Err(e) => signals(*final(dssd), *final(bgo)) == signals(*old(dssd), *old(bgo)) && (
            if particle_data@.len() != 34 {
                e@ == "Particle data must contain exactly 34 bytes"@
            } else {
                !detectors_ok(particle_data@) && e@ == "Invalid detector nibble"@
            }),
        },
{
    if particle_data.len() != PARTICLE_DATA_LENGTH {
        return Err(String::from_str("Particle data must contain exactly 34 bytes"));
    }
    if !valid_detector_nibbles(particle_data) {
        return Err(String::from_str("Invalid detector nibble"));
    }
    let particle_time_raw: i32 = be_u16(particle_data[0], particle_data[1]) as i32;
    let milliseconds: i32 = particle_time_raw / 1000;
    let time: i64 = line_time + milliseconds as i64;

    let dssd_pulses = [
        process_dssd_layer(&mut dssd.l1, particle_data, 2, 3, 5),
        process_dssd_layer(&mut dssd.l2, particle_data, 7, 8, 10),
        process_dssd_layer(&mut dssd.l6, particle_data, 24, 25, 27),
        process_dssd_layer(&mut dssd.l7, particle_data, 29, 30, 32),
    ];
    let dssd_positions = [
        particle_data[2] as i32,
        particle_data[7] as i32,
        particle_data[24] as i32,
        particle_data[29] as i32,
    ];
    let bgo_pulses = [
        process_bgo_layer(&mut bgo.l3, particle_data, 12, 14),
        process_bgo_layer(&mut bgo.l4, particle_data, 16, 18),
        process_bgo_layer(&mut bgo.l5, particle_data, 20, 22),
    ];
    let index: i32 = wrap_to_i32((i as u64 % 0x1_0000_0000) as i64);
    Ok(
        ParticleResult {
            particle_number: index + 1,
            particle_time_raw,
            milliseconds,
            time,
            dssd_pulses,
            dssd_positions,
            bgo_pulses,
            packet_sync: header.packet_sync.clone(),
            package_id: header.package_id,
            packet_sequence: header.packet_sequence,
            packet_data_length: header.packet_data_length,
            data_type: header.data_type.clone(),
            line_tail: share(line_tail),
        },
    )
}

/// Recording two lists one after the other records their concatenation.
pub proof fn record_all_concat(s: SignalsView, a: Seq<Seq<u8>>, b: Seq<Seq<u8>>)
    ensures
        s.record_all(a + b) == s.record_all(a).record_all(b),
    decreases b.len(),
{
    if b.len() == 0 {
        assert(a + b == a);
    } else {
        record_all_concat(s, a, b.drop_last());
        assert((a + b).drop_last() == a + b.drop_last());
    }
}

/// Recording particles keeps the layers' strips.
pub proof fn record_all_wf(s: SignalsView, particles: Seq<Seq<u8>>)
    requires
        s.wf(),
    ensures
        s.record_all(particles).wf(),
    decreases particles.len(),
{
    if particles.len() > 0 {
        record_all_wf(s, particles.drop_last());
    }
}

} // verus!
