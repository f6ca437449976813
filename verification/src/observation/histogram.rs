//! Count histograms of pulse heights.

use crate::observation::particle::{signals, BgoLayers, DssdData, SignalsView};
use crate::models::observation::{BgoLayer, BgoView, DetectorLayer, LayerView, LayerData, BgoData};
use crate::text::{natural, int_text, same_text};
use vstd::prelude::*;
use vstd::string::StringExecFns;

verus! {

/// Channels of a strip layer.
pub const DSSD_HISTOGRAM_SIZE: usize = 16384;

/// Channels of a scintillator layer.
pub const BGO_HISTOGRAM_SIZE: usize = 4096;

/// How often `v` occurs among `values`.
pub open spec fn occurrences(values: Seq<i32>, v: int) -> nat
    decreases values.len(),
{
    if values.len() == 0 {
        0
    } else {
        occurrences(values.drop_last(), v) + if values.last() == v { 1nat } else { 0nat }
    }
}

/// The count of each channel among `values`; channel 0 is left at zero where
/// only positive values count. Values beyond the channels do not count.
pub open spec fn histogram(values: Seq<i32>, size: nat, positive_only: bool) -> Seq<i32> {
    Seq::new(
        size,
        |b: int|
            if positive_only && b == 0 {
                0i32
            } else {
                occurrences(values, b) as i32
            },
    )
}

/// A value occurs at most as often as there are values.
pub proof fn occurrences_bounded(values: Seq<i32>, v: int)
    ensures
        occurrences(values, v) <= values.len(),
    decreases values.len(),
{
    if values.len() > 0 {
        occurrences_bounded(values.drop_last(), v);
    }
}

/// The count of each channel among `values`.
pub fn histogram_of_values(values: &[i32], size: usize, positive_only: bool) -> (r: Vec<i32>)
    requires
        values@.len() <= i32::MAX,
    ensures
        r@ == histogram(values@, size as nat, positive_only),
{
    let mut hist: Vec<i32> = vec![0; size];
    assert(hist@ == histogram(values@.take(0), size as nat, positive_only));
    for i in 0..values.len()
        invariant
            values@.len() <= i32::MAX,
            hist@ == histogram(values@.take(i as int), size as nat, positive_only),
    {
        let value: i32 = values[i];
        proof {
            assert(values@.take(i + 1).drop_last() == values@.take(i as int));
            assert(values@.take(i + 1).last() == value);
            occurrences_bounded(values@.take(i as int), value as int);
        }
        if value >= 0 && (!positive_only || value > 0) && (value as usize) < size {
            let count: i32 = hist[value as usize];
            hist[value as usize] = count + 1;
        }
        proof {
            let next = histogram(values@.take(i + 1), size as nat, positive_only);
            assert forall|b: int| 0 <= b < size implies #[trigger] hist@[b] == next[b] by {
                occurrences_bounded(values@.take(i + 1), b);
                occurrences_bounded(values@.take(i as int), b);
            }
            assert(hist@ == next);
        }
    }
    assert(values@.take(values@.len() as int) == values@);
    hist
}

/// The count of each channel among `values`, zeros included.
pub fn histogram_of_i32(values: &[i32], size: usize) -> (r: Vec<i32>)
    requires
        values@.len() <= i32::MAX,
    ensures
        r@ == histogram(values@, size as nat, false),
{
    histogram_of_values(values, size, false)
}

/// The name of a strip layer.
pub open spec fn layer_text(layer: DetectorLayer) -> Seq<char> {
    match layer {
        DetectorLayer::L1 => "L1"@,
        DetectorLayer::L2 => "L2"@,
        DetectorLayer::L6 => "L6"@,
        DetectorLayer::L7 => "L7"@,
    }
}

/// The name of a strip layer.
pub fn layer_name(layer: DetectorLayer) -> (r: &'static str)
    ensures
        r@ == layer_text(layer),
{
    match layer {
        DetectorLayer::L1 => "L1",
        DetectorLayer::L2 => "L2",
        DetectorLayer::L6 => "L6",
        DetectorLayer::L7 => "L7",
    }
}

/// The name of a scintillator layer.
pub open spec fn bgo_layer_text(layer: BgoLayer) -> Seq<char> {
    match layer {
        BgoLayer::L3 => "L3"@,
        BgoLayer::L4 => "L4"@,
        BgoLayer::L5 => "L5"@,
    }
}

/// The name of a scintillator layer.
pub fn bgo_layer_name(layer: BgoLayer) -> (r: &'static str)
    ensures
        r@ == bgo_layer_text(layer),
{
    match layer {
        BgoLayer::L3 => "L3",
        BgoLayer::L4 => "L4",
        BgoLayer::L5 => "L5",
    }
}

/// Histograms by name.
#[derive(Debug, Clone)]
pub struct HistogramSet {
    pub entries: Vec<(String, Vec<i32>)>,
}

/// What the entries of a set of histograms hold.
pub open spec fn entry_views(entries: Seq<(String, Vec<i32>)>) -> Seq<(Seq<char>, Seq<i32>)> {
    entries.map_values(|e: (String, Vec<i32>)| (e.0@, e.1@))
}

impl View for HistogramSet {
    type V = Seq<(Seq<char>, Seq<i32>)>;

    open spec fn view(&self) -> Seq<(Seq<char>, Seq<i32>)> {
        entry_views(self.entries@)
    }
}

/// The histogram under `key`.
pub open spec fn lookup(entries: Seq<(Seq<char>, Seq<i32>)>, key: Seq<char>) -> Option<Seq<i32>>
    decreases entries.len(),
{
    if entries.len() == 0 {
        None
    } else if entries[0].0 == key {
        Some(entries[0].1)
    } else {
        lookup(entries.drop_first(), key)
    }
}

impl HistogramSet {
    /// The histogram under `key`.
    pub fn get(&self, key: &str) -> (r: Option<&Vec<i32>>)
        ensures
            match r {
                Some(v) => lookup(self@, key@) == Some(v@),
                None => lookup(self@, key@) is None,
            },
    {
        let mut i: usize = 0;
        assert(self@.skip(0) == self@);
        while i < self.entries.len()
            invariant
                i <= self.entries@.len(),
                lookup(self@.skip(i as int), key@) == lookup(self@, key@),
            decreases self.entries@.len() - i,
        {
            assert(self@.skip(i as int)[0] == self@[i as int]);
            assert(self@.skip(i as int).drop_first() == self@.skip(i + 1));
            if same_text(self.entries[i].0.as_str(), key) {
                return Some(&self.entries[i].1);
            }
            i = i + 1;
        }
        None
    }
}

/// The name of one axis of a strip layer.
pub open spec fn axis_key(layer: DetectorLayer, axis: Seq<char>) -> Seq<char> {
    "DSSD"@ + layer_text(layer) + axis
}

/// The name of one strip of a layer.
pub open spec fn strip_key(layer: DetectorLayer, axis: Seq<char>, strip: int) -> Seq<char> {
    axis_key(layer, axis) + int_text(strip)
}

/// The name of one gain of a scintillator layer.
pub open spec fn gain_key(layer: BgoLayer, gain: Seq<char>) -> Seq<char> {
    "BGO"@ + bgo_layer_text(layer) + gain
}

/// The histograms of the strips 1 to `n` of a layer.
pub open spec fn strip_entries(layer: DetectorLayer, data: LayerView, n: nat) -> Seq<
    (Seq<char>, Seq<i32>),
>
    decreases n,
{
    if n == 0 {
        Seq::empty()
    } else {
        strip_entries(layer, data, (n - 1) as nat).push(
            (strip_key(layer, "_StripX"@, n as int), histogram(data.strip_x[n as int], 16384, false)),
        ).push(
            (strip_key(layer, "_StripY"@, n as int), histogram(data.strip_y[n as int], 16384, false)),
        )
    }
}

/// The histograms of a strip layer: both axes, then its strips 1 to 8.
pub open spec fn layer_entries(layer: DetectorLayer, data: LayerView, positive_only: bool) -> Seq<
    (Seq<char>, Seq<i32>),
> {
    seq![
        (axis_key(layer, "_X"@), histogram(data.pulse_x, 16384, positive_only)),
        (axis_key(layer, "_Y"@), histogram(data.pulse_y, 16384, positive_only)),
    ] + strip_entries(layer, data, 8)
}

/// The histograms of a scintillator layer: both gains.
pub open spec fn bgo_entries(layer: BgoLayer, data: BgoView, positive_only: bool) -> Seq<
    (Seq<char>, Seq<i32>),
> {
    seq![
        (gain_key(layer, "_High"@), histogram(data.high_gain, 4096, positive_only)),
        (gain_key(layer, "_Low"@), histogram(data.low_gain, 4096, positive_only)),
    ]
}

/// The histograms of all layers. Zeros of the axes and of the gains are kept
/// where asked for; those of the strips always are.
pub open spec fn all_entries(s: SignalsView, retain_zero_main_values: bool) -> Seq<
    (Seq<char>, Seq<i32>),
> {
    let positive_only = !retain_zero_main_values;
    layer_entries(DetectorLayer::L1, s.l1, positive_only) + layer_entries(
        DetectorLayer::L2,
        s.l2,
        positive_only,
    ) + layer_entries(DetectorLayer::L6, s.l6, positive_only) + layer_entries(
        DetectorLayer::L7,
        s.l7,
        positive_only,
    ) + bgo_entries(BgoLayer::L3, s.l3, positive_only) + bgo_entries(
        BgoLayer::L4,
        s.l4,
        positive_only,
    ) + bgo_entries(BgoLayer::L5, s.l5, positive_only)
}

/// No strip holds more than `n` values.
pub open spec fn strips_within(strips: Seq<Seq<i32>>, n: int) -> bool {
    forall|i: int| 0 <= i < strips.len() ==> (#[trigger] strips[i]).len() <= n
}

/// No series of the layer is longer than `n`.
pub open spec fn layer_within(layer: LayerView, n: int) -> bool {
    &&& layer.pulse_x.len() <= n
    &&& layer.pulse_y.len() <= n
    &&& strips_within(layer.strip_x, n)
    &&& strips_within(layer.strip_y, n)
}

/// No series of any layer is longer than `n`.
pub open spec fn signals_within(s: SignalsView, n: int) -> bool {
    &&& layer_within(s.l1, n)
    &&& layer_within(s.l2, n)
    &&& layer_within(s.l6, n)
    &&& layer_within(s.l7, n)
    &&& s.l3.high_gain.len() <= n
    &&& s.l3.low_gain.len() <= n
    &&& s.l4.high_gain.len() <= n
    &&& s.l4.low_gain.len() <= n
    &&& s.l5.high_gain.len() <= n
    &&& s.l5.low_gain.len() <= n
}

/// The name of one axis of a strip layer; `axis` is "_X" or "_Y".
pub fn axis_name(layer: DetectorLayer, axis: &str) -> (r: String)
    ensures
        r@ == axis_key(layer, axis@),
{
    let mut key = String::from_str("DSSD");
    key.append(layer_name(layer));
    key.append(axis);
    key
}

/// The name of one strip of a layer; `axis` is "_StripX" or "_StripY".
pub fn strip_name(layer: DetectorLayer, axis: &str, strip: usize) -> (r: String)
    ensures
        r@ == strip_key(layer, axis@, strip as int),
{
    let mut key = axis_name(layer, axis);
    key.append(natural(strip as u64).as_str());
    key
}

/// The name of one gain of a scintillator layer; `gain` is "_High" or "_Low".
pub fn gain_name(layer: BgoLayer, gain: &str) -> (r: String)
    ensures
        r@ == gain_key(layer, gain@),
{
    let mut key = String::from_str("BGO");
    key.append(bgo_layer_name(layer));
    key.append(gain);
    key
}

fn push_entry(entries: &mut Vec<(String, Vec<i32>)>, key: String, values: Vec<i32>)
    ensures
        entry_views(final(entries)@) == entry_views(old(entries)@).push((key@, values@)),
{
    proof {
        assert(entry_views(entries@.push((key, values))) == entry_views(entries@).push(
            (key@, values@),
        ));
    }
    entries.push((key, values));
}

fn push_layer(
    entries: &mut Vec<(String, Vec<i32>)>,
    layer: DetectorLayer,
    data: &LayerData,
    positive_only: bool,
)
    requires
        data@.wf(),
        layer_within(data@, i32::MAX as int),
    ensures
        entry_views(final(entries)@) == entry_views(old(entries)@) + layer_entries(
            layer,
            data@,
            positive_only,
        ),
{
    let ghost start = entry_views(entries@);
    push_entry(
        entries,
        axis_name(layer, "_X"),
        histogram_of_values(data.pulse_height_x.as_slice(), DSSD_HISTOGRAM_SIZE, positive_only),
    );
    push_entry(
        entries,
        axis_name(layer, "_Y"),
        histogram_of_values(data.pulse_height_y.as_slice(), DSSD_HISTOGRAM_SIZE, positive_only),
    );
    let ghost main = entry_views(entries@);
    assert(main + strip_entries(layer, data@, 0) == main);
    for n in 0..8usize
        invariant
            data@.wf(),
            layer_within(data@, i32::MAX as int),
            entry_views(entries@) == main + strip_entries(layer, data@, n as nat),
    {
        let strip: usize = n + 1;
        assert(data@.strip_x[strip as int] == data.strip_x@[strip as int]@);
        assert(data@.strip_y[strip as int] == data.strip_y@[strip as int]@);
        push_entry(
            entries,
            strip_name(layer, "_StripX", strip),
            histogram_of_i32(data.strip_x[strip].as_slice(), DSSD_HISTOGRAM_SIZE),
        );
        push_entry(
            entries,
            strip_name(layer, "_StripY", strip),
            histogram_of_i32(data.strip_y[strip].as_slice(), DSSD_HISTOGRAM_SIZE),
        );
        assert(entry_views(entries@) =~= main + strip_entries(layer, data@, (n + 1) as nat));
    }
    assert(entry_views(entries@) =~= start + layer_entries(layer, data@, positive_only));
}

fn push_bgo(
    entries: &mut Vec<(String, Vec<i32>)>,
    layer: BgoLayer,
    data: &BgoData,
    positive_only: bool,
)
    requires
        data@.high_gain.len() <= i32::MAX,
        data@.low_gain.len() <= i32::MAX,
    ensures
        entry_views(final(entries)@) == entry_views(old(entries)@) + bgo_entries(
            layer,
            data@,
            positive_only,
        ),
{
    let ghost start = entry_views(entries@);
    push_entry(
        entries,
        gain_name(layer, "_High"),
        histogram_of_values(data.high_gain.as_slice(), BGO_HISTOGRAM_SIZE, positive_only),
    );
    push_entry(
        entries,
        gain_name(layer, "_Low"),
        histogram_of_values(data.low_gain.as_slice(), BGO_HISTOGRAM_SIZE, positive_only),
    );
    assert(entry_views(entries@) =~= start + bgo_entries(layer, data@, positive_only));
}

/// The histograms of all layers.
///
/// Every particle adds a pulse height to every layer, a zero where the layer
/// did not fire. The histograms of the axes and gains leave those zeros out
/// unless asked to keep them.
pub fn build_histogram_data(dssd: &DssdData, bgo: &BgoLayers, retain_zero_main_values: bool) -> (r:
    HistogramSet)
    requires
        signals(*dssd, *bgo).wf(),
        signals_within(signals(*dssd, *bgo), i32::MAX as int),
    ensures
        r@ == all_entries(signals(*dssd, *bgo), retain_zero_main_values),
{
    let positive_only = !retain_zero_main_values;
    let mut entries: Vec<(String, Vec<i32>)> = Vec::new();
    push_layer(&mut entries, DetectorLayer::L1, &dssd.l1, positive_only);
    push_layer(&mut entries, DetectorLayer::L2, &dssd.l2, positive_only);
    push_layer(&mut entries, DetectorLayer::L6, &dssd.l6, positive_only);
    push_layer(&mut entries, DetectorLayer::L7, &dssd.l7, positive_only);
    push_bgo(&mut entries, BgoLayer::L3, &bgo.l3, positive_only);
    push_bgo(&mut entries, BgoLayer::L4, &bgo.l4, positive_only);
    push_bgo(&mut entries, BgoLayer::L5, &bgo.l5, positive_only);
    HistogramSet { entries }
}

} // verus!
