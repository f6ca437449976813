//! The processor of observation recordings.

use crate::clock::Millis;
use crate::hex::{hex_byte, parse_u8};
use crate::line::{first_bad_byte, wrap32, HeaderView, LineHeaderFields};
use crate::models::observation::{BgoData, LayerData};
use crate::observation::frame::{
    detectors_ok, frame_header, frame_time, frames_fit, frames_of, get_date_time_from_bytes,
    parse_header_bytes, particle_of, particles_of, scan_frames, HEADER_OFFSET, PARTICLES_PER_LINE,
    PARTICLE_DATA_LENGTH,
};
use crate::observation::histogram::{
    all_entries, build_histogram_data, layer_within, signals_within, strips_within,
    HistogramSet,
};
use crate::observation::particle::{
    decoded_particle, particle_views, particle_views_push, process_particle_bytes, record_all_concat,
    record_all_wf, signals, BgoLayers, DssdData, ParticleResult, ParticleView, SignalsView,
};
use crate::observation::tail_fields::{
    frame_tail, parse_line_tail_fields, parse_line_tail_fields_from_bytes, token_tail,
};
use crate::series::series_views;
use crate::tail::{cell_views, TailCell, TailView};
use crate::text::views;
use std::sync::Arc;
use vstd::prelude::*;

verus! {

/// Collects the particles of recordings and the pulse heights that they leave
/// in each layer.
#[derive(Debug, Clone)]
pub struct ObservationDataProcessor {
    pub results: Vec<ParticleResult>,
    pub dssd_data: DssdData,
    pub bgo_data: BgoLayers,
    /// Frames accepted.
    pub valid_packet_count: usize,
}

/// What a processor has collected.
pub struct ProcessorView {
    pub results: Seq<ParticleView>,
    pub signals: SignalsView,
    pub packets: nat,
}

impl View for ObservationDataProcessor {
    type V = ProcessorView;

    open spec fn view(&self) -> ProcessorView {
        ProcessorView {
            results: particle_views(self.results@),
            signals: signals(self.dssd_data, self.bgo_data),
            packets: self.valid_packet_count as nat,
        }
    }
}

/// The particles of a frame.
pub open spec fn frame_results(frame: Seq<u8>) -> Seq<ParticleView> {
    Seq::new(
        5,
        |index: int|
            decoded_particle(
                particle_of(frame, index),
                index,
                frame_time(frame),
                frame_header(frame),
                frame_tail(frame),
            ),
    )
}

/// The particles of all frames, in order.
pub open spec fn frames_results(frames: Seq<Seq<u8>>) -> Seq<ParticleView>
    decreases frames.len(),
{
    if frames.len() == 0 {
        Seq::empty()
    } else {
        frames_results(frames.drop_last()) + frame_results(frames.last())
    }
}

/// The particle bytes of all frames, in order.
pub open spec fn frames_particles(frames: Seq<Seq<u8>>) -> Seq<Seq<u8>>
    decreases frames.len(),
{
    if frames.len() == 0 {
        Seq::empty()
    } else {
        frames_particles(frames.drop_last()) + particles_of(frames.last())
    }
}

/// The frames of several recordings: those of each, one after the other. No
/// frame spans two recordings.
pub open spec fn files_frames(contents: Seq<Seq<u8>>) -> Seq<Seq<u8>>
    decreases contents.len(),
{
    if contents.len() == 0 {
        Seq::empty()
    } else {
        files_frames(contents.drop_last()) + frames_of(contents.last())
    }
}

/// What several recordings hold.
pub open spec fn contents_views(contents: Seq<Vec<u8>>) -> Seq<Seq<u8>> {
    contents.map_values(|c: Vec<u8>| c@)
}

/// The bytes of several recordings together.
pub open spec fn total_length(contents: Seq<Seq<u8>>) -> nat
    decreases contents.len(),
{
    if contents.len() == 0 {
        0
    } else {
        total_length(contents.drop_last()) + contents.last().len()
    }
}

impl ProcessorView {
    /// Every strip layer has its strips, and every packet its five particles.
    pub open spec fn wf(self) -> bool {
        self.signals.wf() && 5 * self.packets <= self.results.len()
    }

    /// Nothing collected.
    pub open spec fn empty() -> ProcessorView {
        ProcessorView { results: Seq::empty(), signals: SignalsView::empty(), packets: 0 }
    }

    /// With the particles of more frames.
    pub open spec fn add_frames(self, frames: Seq<Seq<u8>>) -> ProcessorView {
        ProcessorView {
            results: self.results + frames_results(frames),
            signals: self.signals.record_all(frames_particles(frames)),
            packets: self.packets + frames.len(),
        }
    }
}

/// The 34 byte texts of particle `index` of a line, as far as the line has
/// them.
pub open spec fn particle_tokens(tokens: Seq<Seq<char>>, index: int) -> Seq<Seq<char>> {
    tokens.subrange(16 + 34 * index, 16 + 34 * index + 34)
}

/// The bytes that byte texts write.
pub open spec fn token_bytes(tokens: Seq<Seq<char>>) -> Seq<u8> {
    tokens.map_values(|t: Seq<char>| hex_byte(t)->Ok_0)
}

/// Why byte texts are no particle.
pub open spec fn particle_error(tokens: Seq<Seq<char>>) -> Option<Seq<char>> {
    if tokens.len() != 34 {
        Some("Particle data must contain exactly 34 bytes"@)
    } else {
        match first_bad_byte(tokens, 0, 34) {
            Some(e) => Some(e.text()),
            None => if detectors_ok(token_bytes(tokens)) {
                None
            } else {
                Some("Invalid detector nibble"@)
            },
        }
    }
}

/// A processor after one more particle of a line. A particle that the line
/// cuts off, or one with an error, adds nothing.
pub open spec fn after_particle(
    before: ProcessorView,
    tokens: Seq<Seq<char>>,
    line_time: int,
    header: HeaderView,
    index: int,
) -> ProcessorView {
    let particle = particle_tokens(tokens, index);
    if 16 + 34 * index + 34 <= tokens.len() && particle_error(particle) is None {
        ProcessorView {
            results: before.results.push(
                decoded_particle(
                    token_bytes(particle),
                    index,
                    line_time,
                    header,
                    token_tail(tokens),
                ),
            ),
            signals: before.signals.record(token_bytes(particle)),
            packets: before.packets,
        }
    } else {
        before
    }
}

/// A processor after the first `n` particles of a line.
pub open spec fn after_particles(
    start: ProcessorView,
    tokens: Seq<Seq<char>>,
    line_time: int,
    header: HeaderView,
    n: nat,
) -> ProcessorView
    decreases n,
{
    if n == 0 {
        start
    } else {
        after_particle(
            after_particles(start, tokens, line_time, header, (n - 1) as nat),
            tokens,
            line_time,
            header,
            n - 1,
        )
    }
}

impl Default for ObservationDataProcessor {
    fn default() -> (r: ObservationDataProcessor)
        ensures
            r@ == ProcessorView::empty(),
    {
        let results: Vec<ParticleResult> = Vec::new();
        assert(particle_views(results@) == Seq::<ParticleView>::empty());
        ObservationDataProcessor {
            results,
            dssd_data: DssdData {
                l1: LayerData::default(),
                l2: LayerData::default(),
                l6: LayerData::default(),
                l7: LayerData::default(),
            },
            bgo_data: BgoLayers {
                l3: BgoData::default(),
                l4: BgoData::default(),
                l5: BgoData::default(),
            },
            valid_packet_count: 0,
        }
    }
}

impl ObservationDataProcessor {
    /// A processor that has collected nothing.
    pub fn new() -> (r: Self)
        ensures
            r@ == ProcessorView::empty(),
    {
        Self::default()
    }

    /// Forgets everything collected.
    pub fn clear_data(&mut self)
        ensures
            final(self)@ == ProcessorView::empty(),
    {
        self.results.clear();
        assert(particle_views(self.results@) == Seq::<ParticleView>::empty());
        self.valid_packet_count = 0;
        self.dssd_data.l1.clear();
        self.dssd_data.l2.clear();
        self.dssd_data.l6.clear();
        self.dssd_data.l7.clear();
        self.bgo_data.l3.clear();
        self.bgo_data.l4.clear();
        self.bgo_data.l5.clear();
    }

    /// The number of frames accepted.
    pub fn valid_packet_count(&self) -> (r: usize)
        ensures
            r == self@.packets,
    {
        self.valid_packet_count
    }

    fn process_frame(&mut self, frame: &[u8])
        requires
            old(self)@.wf(),
            frame@.len() == 256,
            crate::observation::frame::header_bytes_ok(frame@),
            forall|p: int| 0 <= p < 5 ==> detectors_ok(#[trigger] particle_of(frame@, p)),
        ensures
            final(self)@ == old(self)@.add_frames(seq![frame@]),
            final(self)@.wf(),
    {
        let header = match parse_header_bytes(frame) {
            Some(header) => header,
            None => {
                return;
            },
        };
        let line_tail = Arc::new(parse_line_tail_fields_from_bytes(frame));
        let line_time: i64 = match get_date_time_from_bytes(frame) {
            Ok(t) => t,
            Err(_) => 0,
        };
        let ghost start = self@;
        for index in 0..PARTICLES_PER_LINE
            invariant
                frame@.len() == 256,
                start.wf(),
                header@ == frame_header(frame@),
                cell_views(line_tail@) == frame_tail(frame@),
                line_time == frame_time(frame@),
                forall|p: int| 0 <= p < 5 ==> detectors_ok(#[trigger] particle_of(frame@, p)),
                self@.results == start.results + frame_results(frame@).take(index as int),
                self@.signals == start.signals.record_all(particles_of(frame@).take(index as int)),
                self@.packets == start.packets,
        {
            let at: usize = HEADER_OFFSET + PARTICLE_DATA_LENGTH * index;
            let particle = &frame[at..at + PARTICLE_DATA_LENGTH];
            assert(particle@ == particle_of(frame@, index as int));
            let ghost before = self@;
            match process_particle_bytes(
                &mut self.dssd_data,
                &mut self.bgo_data,
                particle,
                index,
                line_time,
                &header,
                &line_tail,
            ) {
                Ok(result) => {
                    proof {
                        particle_views_push(self.results@, result);
                        assert(result@ == frame_results(frame@)[index as int]);
                        assert(frame_results(frame@).take(index + 1) == frame_results(frame@).take(
                            index as int,
                        ).push(result@));
                        let next = particles_of(frame@).take(index + 1);
                        assert(next.drop_last() == particles_of(frame@).take(index as int));
                        assert(next.last() == particle@);
                    }
                    self.results.push(result);
                    assert(self@.results =~= start.results + frame_results(frame@).take(index + 1));
                },
                Err(_) => {
                    assert(false);
                },
            }
        }
        proof {
            assert(frame_results(frame@).take(5) == frame_results(frame@));
            assert(particles_of(frame@).take(5) == particles_of(frame@));
            one_frame(frame@);
            record_all_wf(start.signals, particles_of(frame@));
            assert(self@.results.len() == self.results.len());
        }
        self.valid_packet_count = self.valid_packet_count + 1;
    }

    /// Collects the particles of one recording: those of its accepted frames,
    /// in order.
    pub fn process_file_bytes(&mut self, content: &[u8])
        requires
            old(self)@.wf(),
        ensures
            final(self)@ == old(self)@.add_frames(frames_of(content@)),
            final(self)@.wf(),
    {
        let frames = scan_frames(content);
        let ghost start = self@;
        let ghost all = frames_of(content@);
        proof {
            add_no_frames(start);
            assert(all.take(0) == Seq::<Seq<u8>>::empty());
        }
        for i in 0..frames.len()
            invariant
                all == frames@.map_values(|f: Vec<u8>| f@),
                all.len() == frames@.len(),
                self@.wf(),
                self@ == start.add_frames(all.take(i as int)),
                forall|k: int|
                    0 <= k < frames@.len() ==> (#[trigger] frames@[k])@.len() == 256
                        && crate::observation::frame::header_bytes_ok(frames@[k]@) && (forall|p: int|
                        0 <= p < 5 ==> detectors_ok(#[trigger] particle_of(frames@[k]@, p))),
        {
            assert(all[i as int] == frames@[i as int]@);
            self.process_frame(frames[i].as_slice());
            proof {
                add_frames_concat(start, all.take(i as int), seq![all[i as int]]);
                assert(all.take(i as int) + seq![all[i as int]] == all.take(i + 1));
            }
        }
        assert(all.take(all.len() as int) == all);
    }

    /// Whether the series are short enough to be counted in histograms.
    pub fn histograms_fit(&self) -> (r: bool)
        requires
            self@.wf(),
        ensures
            r == signals_within(self@.signals, i32::MAX as int),
    {
        layer_fits(&self.dssd_data.l1) && layer_fits(&self.dssd_data.l2) && layer_fits(
            &self.dssd_data.l6,
        ) && layer_fits(&self.dssd_data.l7) && bgo_fits(&self.bgo_data.l3) && bgo_fits(
            &self.bgo_data.l4,
        ) && bgo_fits(&self.bgo_data.l5)
    }

    /// The histograms of all layers, without the zeros of the axes and gains.
    pub fn get_histogram_data(&self) -> (r: HistogramSet)
        requires
            self@.wf(),
            signals_within(self@.signals, i32::MAX as int),
        ensures
            r@ == all_entries(self@.signals, false),
    {
        build_histogram_data(&self.dssd_data, &self.bgo_data, false)
    }

    /// The histograms of all layers, with all zeros.
    pub fn raw_histogram_data(&self) -> (r: HistogramSet)
        requires
            self@.wf(),
            signals_within(self@.signals, i32::MAX as int),
        ensures
            r@ == all_entries(self@.signals, true),
    {
        build_histogram_data(&self.dssd_data, &self.bgo_data, true)
    }

    /// Collects the particles of several recordings, after forgetting what was
    /// there, and counts their pulse heights.
    pub fn process_files(&mut self, contents: &[Vec<u8>]) -> (r: HistogramSet)
        requires
            5 * (total_length(contents_views(contents@)) / 512) <= i32::MAX,
        ensures
            final(self)@ == ProcessorView::empty().add_frames(files_frames(contents_views(contents@))),
            final(self)@.wf(),
            r@ == all_entries(final(self)@.signals, false),
    {
        let ghost all = contents_views(contents@);
        self.clear_data();
        proof {
            add_no_frames(ProcessorView::empty());
            assert(all.take(0) == Seq::<Seq<u8>>::empty());
        }
        for i in 0..contents.len()
            invariant
                all == contents_views(contents@),
                self@.wf(),
                self@ == ProcessorView::empty().add_frames(files_frames(all.take(i as int))),
        {
            assert(all[i as int] == contents@[i as int]@);
            self.process_file_bytes(contents[i].as_slice());
            proof {
                let next = all.take(i + 1);
                assert(next.drop_last() == all.take(i as int));
                add_frames_concat(
                    ProcessorView::empty(),
                    files_frames(all.take(i as int)),
                    frames_of(all[i as int]),
                );
            }
        }
        proof {
            assert(all.take(all.len() as int) == all);
            files_within(all);
        }
        self.get_histogram_data()
    }

    /// Decodes one particle of a line and adds its pulse heights to the layers.
    /// The particle itself is not kept; its tail is empty.
    pub fn process_particle_data(
        &mut self,
        particle_data: &[String],
        i: usize,
        line_time: Millis,
        header: &LineHeaderFields,
    ) -> (r: Result<ParticleResult, String>)
        requires
            old(self)@.wf(),
            wrap32(i as int) < i32::MAX,
            line_time <= i64::MAX - 65,
        ensures
            final(self)@.wf(),
            final(self)@.results == old(self)@.results,
            final(self)@.packets == old(self)@.packets,
            match r {
                Ok(p) => particle_error(views(particle_data@)) is None && p@ == decoded_particle(
                    token_bytes(views(particle_data@)),
                    i as int,
                    line_time as int,
                    header@,
                    Seq::empty(),
                ) && final(self)@.signals == old(self)@.signals.record(
                    token_bytes(views(particle_data@)),
                ),
                Err(e) => particle_error(views(particle_data@)) == Some(e@) && final(self)@.signals
                    == old(self)@.signals,
            },
    {
        let no_tail: Vec<TailCell> = Vec::new();
        assert(cell_views(no_tail@) =~= Seq::<TailView>::empty());
        self.process_particle_data_with_tail(particle_data, i, line_time, header, &Arc::new(no_tail))
    }

    fn process_particle_data_with_tail(
        &mut self,
        particle_data: &[String],
        i: usize,
        line_time: Millis,
        header: &LineHeaderFields,
        line_tail: &Arc<Vec<TailCell>>,
    ) -> (r: Result<ParticleResult, String>)
        requires
            old(self)@.wf(),
            wrap32(i as int) < i32::MAX,
            line_time <= i64::MAX - 65,
        ensures
            final(self)@.wf(),
            final(self)@.results == old(self)@.results,
            final(self).results == old(self).results,
            final(self)@.packets == old(self)@.packets,
            match r {
                Ok(p) => particle_error(views(particle_data@)) is None && p@ == decoded_particle(
                    token_bytes(views(particle_data@)),
                    i as int,
                    line_time as int,
                    header@,
                    cell_views(line_tail@),
                ) && final(self)@.signals == old(self)@.signals.record(
                    token_bytes(views(particle_data@)),
                ),
                Err(e) => particle_error(views(particle_data@)) == Some(e@) && final(self)@.signals
                    == old(self)@.signals,
            },
    {
        if particle_data.len() != PARTICLE_DATA_LENGTH {
            return Err(String::from_str("Particle data must contain exactly 34 bytes"));
        }
        let ghost tokens = views(particle_data@);
        let mut bytes: Vec<u8> = Vec::new();
        for k in 0..PARTICLE_DATA_LENGTH
            invariant
                particle_data@.len() == 34,
                tokens == views(particle_data@),
                *self == *old(self),
                self@.wf(),
                bytes@ == token_bytes(tokens).take(k as int),
                first_bad_byte(tokens, 0, 34) == first_bad_byte(tokens, k as int, 34),
        {
            match parse_u8(particle_data[k].as_str()) {
                Ok(b) => {
                    bytes.push(b);
                    assert(token_bytes(tokens).take(k + 1) == token_bytes(tokens).take(k as int).push(
                        b,
                    ));
                },
                Err(e) => {
                    return Err(String::from_str(e.message()));
                },
            }
        }
        assert(token_bytes(tokens).take(34) == token_bytes(tokens));
        process_particle_bytes(
            &mut self.dssd_data,
            &mut self.bgo_data,
            bytes.as_slice(),
            i,
            line_time,
            header,
            line_tail,
        )
    }

    fn process_line_particle(
        &mut self,
        hex_data: &[String],
        i: usize,
        line_time: Millis,
        header: &LineHeaderFields,
        line_tail: &Arc<Vec<TailCell>>,
    )
        requires
            old(self)@.wf(),
            i < 5,
            line_time <= i64::MAX - 65,
            cell_views(line_tail@) == token_tail(views(hex_data@)),
        ensures
            final(self)@ == after_particle(
                old(self)@,
                views(hex_data@),
                line_time as int,
                header@,
                i as int,
            ),
            final(self)@.wf(),
    {
        let at: usize = HEADER_OFFSET + PARTICLE_DATA_LENGTH * i;
        if at + PARTICLE_DATA_LENGTH > hex_data.len() {
            return;
        }
        let particle_data = &hex_data[at..at + PARTICLE_DATA_LENGTH];
        assert(views(particle_data@) == particle_tokens(views(hex_data@), i as int));
        match self.process_particle_data_with_tail(particle_data, i, line_time, header, line_tail) {
            Ok(processed) => {
                proof {
                    particle_views_push(self.results@, processed);
                }
                self.results.push(processed);
            },
            Err(_) => {},
        }
    }

    /// Collects the particles of a line that is split into byte texts. A
    /// particle with an error is left out, and so is one that the line cuts
    /// off.
    pub fn process_particles(
        &mut self,
        hex_data: &[String],
        line_time: Millis,
        header: &LineHeaderFields,
    )
        requires
            old(self)@.wf(),
            line_time <= i64::MAX - 65,
        ensures
            final(self)@ == after_particles(
                old(self)@,
                views(hex_data@),
                line_time as int,
                header@,
                5,
            ),
            final(self)@.wf(),
    {
        let line_tail = Arc::new(parse_line_tail_fields(hex_data));
        for i in 0..PARTICLES_PER_LINE
            invariant
                cell_views(line_tail@) == token_tail(views(hex_data@)),
                line_time <= i64::MAX - 65,
                self@.wf(),
                self@ == after_particles(
                    old(self)@,
                    views(hex_data@),
                    line_time as int,
                    header@,
                    i as nat,
                ),
        {
            self.process_line_particle(hex_data, i, line_time, header, &line_tail);
        }
    }
}

fn layer_fits(layer: &LayerData) -> (r: bool)
    ensures
        r == layer_within(layer@, i32::MAX as int),
{
    lens_fit(&layer.strip_x) && lens_fit(&layer.strip_y) && layer.pulse_height_x.len()
        <= 0x7FFF_FFFF && layer.pulse_height_y.len() <= 0x7FFF_FFFF
}

fn lens_fit(strips: &Vec<Vec<i32>>) -> (r: bool)
    ensures
        r == strips_within(series_views(strips@), i32::MAX as int),
{
    let ghost lens = series_views(strips@);
    for i in 0..strips.len()
        invariant
            lens == series_views(strips@),
            forall|k: int| 0 <= k < i ==> (#[trigger] lens[k]).len() <= i32::MAX,
    {
        assert(lens[i as int] == strips@[i as int]@);
        if strips[i].len() > 0x7FFF_FFFF {
            return false;
        }
    }
    true
}

fn bgo_fits(layer: &BgoData) -> (r: bool)
    ensures
        r == (layer@.high_gain.len() <= i32::MAX && layer@.low_gain.len() <= i32::MAX),
{
    layer.high_gain.len() <= 0x7FFF_FFFF && layer.low_gain.len() <= 0x7FFF_FFFF
}

proof fn one_frame(frame: Seq<u8>)
    ensures
        frames_results(seq![frame]) == frame_results(frame),
        frames_particles(seq![frame]) == particles_of(frame),
{
    let one = seq![frame];
    assert(one.drop_last() == Seq::<Seq<u8>>::empty());
    assert(frames_results(one.drop_last()) == Seq::<ParticleView>::empty());
    assert(frames_particles(one.drop_last()) == Seq::<Seq<u8>>::empty());
    assert(frames_results(one) == frames_results(one.drop_last()) + frame_results(frame));
    assert(frames_particles(one) == frames_particles(one.drop_last()) + particles_of(frame));
}

proof fn add_no_frames(start: ProcessorView)
    ensures
        start.add_frames(Seq::empty()) == start,
{
    assert(start.results + Seq::<ParticleView>::empty() == start.results);
}

/// Adding frames in two steps adds them all.
pub proof fn add_frames_concat(start: ProcessorView, a: Seq<Seq<u8>>, b: Seq<Seq<u8>>)
    ensures
        start.add_frames(a + b) == start.add_frames(a).add_frames(b),
{
    frames_results_concat(a, b);
    frames_particles_concat(a, b);
    record_all_concat(start.signals, frames_particles(a), frames_particles(b));
    assert(start.add_frames(a + b).results == start.add_frames(a).add_frames(b).results);
}

proof fn frames_results_concat(a: Seq<Seq<u8>>, b: Seq<Seq<u8>>)
    ensures
        frames_results(a + b) == frames_results(a) + frames_results(b),
    decreases b.len(),
{
    if b.len() == 0 {
        assert(a + b == a);
    } else {
        frames_results_concat(a, b.drop_last());
        assert((a + b).drop_last() == a + b.drop_last());
    }
}

proof fn frames_particles_concat(a: Seq<Seq<u8>>, b: Seq<Seq<u8>>)
    ensures
        frames_particles(a + b) == frames_particles(a) + frames_particles(b),
    decreases b.len(),
{
    if b.len() == 0 {
        assert(a + b == a);
    } else {
        frames_particles_concat(a, b.drop_last());
        assert((a + b).drop_last() == a + b.drop_last());
    }
}

proof fn files_frames_fit(contents: Seq<Seq<u8>>)
    ensures
        512 * files_frames(contents).len() <= total_length(contents),
    decreases contents.len(),
{
    if contents.len() > 0 {
        files_frames_fit(contents.drop_last());
        frames_fit(contents.last());
    }
}

proof fn files_within(contents: Seq<Seq<u8>>)
    requires
        5 * (total_length(contents) / 512) <= i32::MAX,
    ensures
        signals_within(
            ProcessorView::empty().add_frames(files_frames(contents)).signals,
            i32::MAX as int,
        ),
{
    files_frames_fit(contents);
    let frames = files_frames(contents);
    particles_count(frames);
    recorded_within(frames_particles(frames));
    signals_within_more(
        SignalsView::empty().record_all(frames_particles(frames)),
        5 * frames.len() as int,
        i32::MAX as int,
    );
}

/// Every accepted frame gives exactly five particles: there are no partial
/// results.
pub proof fn particles_count(frames: Seq<Seq<u8>>)
    ensures
        frames_results(frames).len() == 5 * frames.len(),
        frames_particles(frames).len() == 5 * frames.len(),
    decreases frames.len(),
{
    if frames.len() > 0 {
        particles_count(frames.drop_last());
    }
}

/// No series outgrows the particles that were recorded.
proof fn recorded_within(particles: Seq<Seq<u8>>)
    ensures
        signals_within(SignalsView::empty().record_all(particles), particles.len() as int),
    decreases particles.len(),
{
    if particles.len() > 0 {
        recorded_within(particles.drop_last());
        let before = SignalsView::empty().record_all(particles.drop_last());
        signals_within_more(before, particles.len() - 1, particles.len() as int);
    }
}

proof fn signals_within_more(s: SignalsView, n: int, more: int)
    requires
        signals_within(s, n),
        n <= more,
    ensures
        signals_within(s, more),
{
}

} // verus!
