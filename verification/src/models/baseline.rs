//! Data of baseline mode.

use vstd::prelude::*;

verus! {

/// One sample of baseline mode: the sixteen channel values of each strip
/// layer.
#[derive(Debug, Clone, Copy, PartialEq, Eq)]
pub struct BaselineData {
    pub sampling_packet_no: i32,
    pub sampling_no: i32,
    pub l1: [i32; 16],
    pub l2: [i32; 16],
    pub l6: [i32; 16],
    pub l7: [i32; 16],
}

/// What a sample says.
#[verifier::ext_equal]
pub struct BaselineView {
    pub packet: int,
    pub number: int,
    pub l1: Seq<i32>,
    pub l2: Seq<i32>,
    pub l6: Seq<i32>,
    pub l7: Seq<i32>,
}

impl View for BaselineData {
    type V = BaselineView;

    open spec fn view(&self) -> BaselineView {
        BaselineView {
            packet: self.sampling_packet_no as int,
            number: self.sampling_no as int,
            l1: self.l1@,
            l2: self.l2@,
            l6: self.l6@,
            l7: self.l7@,
        }
    }
}

/// What a list of samples says.
pub open spec fn baseline_views(data: Seq<BaselineData>) -> Seq<BaselineView> {
    data.map_values(|d: BaselineData| d@)
}

/// A sample at the end of a list adds what it says at the end.
pub proof fn baseline_views_push(data: Seq<BaselineData>, last: BaselineData)
    ensures
        baseline_views(data.push(last)) == baseline_views(data).push(last@),
{
}

impl Default for BaselineData {
    fn default() -> (r: BaselineData)
        ensures
            r.sampling_packet_no == 0,
            r.sampling_no == 0,
            r@.l1 == Seq::new(16, |i: int| 0i32),
            r@.l2 == Seq::new(16, |i: int| 0i32),
            r@.l6 == Seq::new(16, |i: int| 0i32),
            r@.l7 == Seq::new(16, |i: int| 0i32),
    {
        BaselineData {
            sampling_packet_no: 0,
            sampling_no: 0,
            l1: [0; 16],
            l2: [0; 16],
            l6: [0; 16],
            l7: [0; 16],
        }
    }
}

/// The algorithm of a peak fit.
#[derive(Debug, Clone, Copy, PartialEq, Eq, Structural, Default)]
pub enum FittingAlgorithm {
    #[default]
    LevenbergMarquardt,
    NelderMead,
    GradientDescentLegacy,
}

/// The shape of a peak with exponential tails.
#[derive(Debug, Clone, Copy, PartialEq, Eq, Structural, Default)]
pub enum HemgMode {
    Gaussian,
    Lorentzian,
    LeftTailed,
    RightTailed,
    #[default]
    DoubleSided,
}

} // verus!
