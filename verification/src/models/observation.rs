//! Data of observation mode.

use crate::clock::Millis;
use crate::series::{empty_series, no_values, push_value, series_views, with_value};
use vstd::prelude::*;

verus! {

/// The silicon strip layers.
#[derive(Debug, Clone, Copy, PartialEq, Eq, Hash, Structural)]
pub enum DetectorLayer {
    L1,
    L2,
    L6,
    L7,
}

/// The scintillator layers.
#[derive(Debug, Clone, Copy, PartialEq, Eq, Hash, Structural)]
pub enum BgoLayer {
    L3,
    L4,
    L5,
}

/// The shape of a peak fit.
#[derive(Debug, Clone, Copy, PartialEq, Eq, Hash, Structural)]
pub enum FitMethod {
    Gaussian,
    Lorentzian,
}

/// Pulse heights of one scintillator layer, one of each gain per particle.
#[derive(Debug, Clone)]
pub struct BgoData {
    pub high_gain: Vec<i32>,
    pub low_gain: Vec<i32>,
}

/// Pulse heights of one scintillator layer.
#[verifier::ext_equal]
pub struct BgoView {
    pub high_gain: Seq<i32>,
    pub low_gain: Seq<i32>,
}

impl View for BgoData {
    type V = BgoView;

    open spec fn view(&self) -> BgoView {
        BgoView { high_gain: self.high_gain@, low_gain: self.low_gain@ }
    }
}

impl BgoView {
    /// No pulse heights.
    pub open spec fn empty() -> BgoView {
        BgoView { high_gain: Seq::empty(), low_gain: Seq::empty() }
    }

    /// One more particle.
    pub open spec fn record(self, high: i32, low: i32) -> BgoView {
        BgoView { high_gain: self.high_gain.push(high), low_gain: self.low_gain.push(low) }
    }
}

impl Default for BgoData {
    fn default() -> (r: BgoData)
        ensures
            r@ == BgoView::empty(),
    {
        BgoData { high_gain: Vec::new(), low_gain: Vec::new() }
    }
}

impl BgoData {
    /// Forgets all pulse heights.
    pub fn clear(&mut self)
        ensures
            final(self)@ == BgoView::empty(),
    {
        self.high_gain.clear();
        self.low_gain.clear();
    }

    /// Adds the pulse heights of one particle.
    pub fn record(&mut self, high: i32, low: i32)
        ensures
            final(self)@ == old(self)@.record(high, low),
    {
        self.high_gain.push(high);
        self.low_gain.push(low);
    }
}

/// Pulse heights of one strip layer: one of each axis per particle, and again
/// under the strip of that axis that fired (0 to 8).
#[derive(Debug, Clone)]
pub struct LayerData {
    pub pulse_height_x: Vec<i32>,
    pub pulse_height_y: Vec<i32>,
    pub strip_x: Vec<Vec<i32>>,
    pub strip_y: Vec<Vec<i32>>,
}

/// Pulse heights of one strip layer.
#[verifier::ext_equal]
pub struct LayerView {
    pub pulse_x: Seq<i32>,
    pub pulse_y: Seq<i32>,
    pub strip_x: Seq<Seq<i32>>,
    pub strip_y: Seq<Seq<i32>>,
}

impl View for LayerData {
    type V = LayerView;

    open spec fn view(&self) -> LayerView {
        LayerView {
            pulse_x: self.pulse_height_x@,
            pulse_y: self.pulse_height_y@,
            strip_x: series_views(self.strip_x@),
            strip_y: series_views(self.strip_y@),
        }
    }
}

impl LayerView {
    /// The layer has its nine strips.
    pub open spec fn wf(self) -> bool {
        self.strip_x.len() == 9 && self.strip_y.len() == 9
    }

    /// No pulse heights.
    pub open spec fn empty() -> LayerView {
        LayerView {
            pulse_x: Seq::empty(),
            pulse_y: Seq::empty(),
            strip_x: no_values(9),
            strip_y: no_values(9),
        }
    }

    /// One more particle, with the strips that fired.
    pub open spec fn record(self, x: i32, y: i32, strip_x: int, strip_y: int) -> LayerView {
        LayerView {
            pulse_x: self.pulse_x.push(x),
            pulse_y: self.pulse_y.push(y),
            strip_x: with_value(self.strip_x, strip_x, x),
            strip_y: with_value(self.strip_y, strip_y, y),
        }
    }
}

impl Default for LayerData {
    fn default() -> (r: LayerData)
        ensures
            r@ == LayerView::empty(),
    {
        LayerData {
            pulse_height_x: Vec::new(),
            pulse_height_y: Vec::new(),
            strip_x: empty_series(9),
            strip_y: empty_series(9),
        }
    }
}

impl LayerData {
    /// Forgets all pulse heights.
    pub fn clear(&mut self)
        ensures
            final(self)@ == LayerView::empty(),
    {
        self.pulse_height_x.clear();
        self.pulse_height_y.clear();
        self.strip_x = empty_series(9);
        self.strip_y = empty_series(9);
    }

    /// Adds the pulse heights of one particle, also to the strips that fired.
    pub fn record(&mut self, x: i32, y: i32, strip_x: usize, strip_y: usize)
        ensures
            final(self)@ == old(self)@.record(x, y, strip_x as int, strip_y as int),
    {
        self.pulse_height_x.push(x);
        self.pulse_height_y.push(y);
        push_value(&mut self.strip_x, strip_x, x);
        push_value(&mut self.strip_y, strip_y, y);
    }
}

/// How far the processing of a recording has come.
#[derive(Debug, Clone, Default)]
pub struct ObservationProcessReport {
    pub current_step: i32,
    pub total_steps: i32,
    pub message: String,
    pub current_time: Option<Millis>,
    pub is_complete: bool,
    pub last_hex_data: Option<Vec<String>>,
}

} // verus!
