//! Where a peak is fitted.

use vstd::prelude::*;

verus! {

/// Bins on either side of the peak that a fit takes in.
pub const FIT_WINDOW: usize = 100;

/// Bins that a fit needs.
pub const MIN_FIT_BINS: usize = 5;

/// The fits that are drawn over a histogram.
#[derive(Debug, Clone, Copy, PartialEq, Eq, Structural, Default)]
pub struct FitOverlayFlags {
    pub gaussian: bool,
    pub lorentzian: bool,
    pub hemg_single: bool,
    pub hemg_double: bool,
}

impl FitOverlayFlags {
    /// Whether any fit is drawn.
    pub fn any(&self) -> (r: bool)
        ensures
            r == (self.gaussian || self.lorentzian || self.hemg_single || self.hemg_double),
    {
        self.gaussian || self.lorentzian || self.hemg_single || self.hemg_double
    }
}

/// The bin with the greatest count in `start..end`, the last one where several
/// share it.
pub open spec fn last_peak(counts: Seq<i64>, start: int, end: int) -> int
    decreases end - start,
{
    if end <= start + 1 {
        start
    } else {
        let before = last_peak(counts, start, end - 1);
        if counts[end - 1] >= counts[before] {
            end - 1
        } else {
            before
        }
    }
}

/// The bins of `start..end` that a fit takes in: up to 100 on either side of
/// the peak. `None` where nothing is counted or the bins are too few.
pub open spec fn window(counts: Seq<i64>, start: int, end: int) -> Option<(int, int)> {
    let peak = last_peak(counts, start, end);
    let low = if peak - 100 > start { peak - 100 } else { start };
    let high = if peak + 101 < end { peak + 101 } else { end };
    if end <= start || counts[peak] <= 0 || high - low < 5 {
        None
    } else {
        Some((low, high))
    }
}

/// The peak is in range, no bin counts more, and every later one counts less.
pub proof fn last_peak_is_greatest(counts: Seq<i64>, start: int, end: int)
    requires
        0 <= start < end <= counts.len(),
    ensures
        start <= last_peak(counts, start, end) < end,
        forall|i: int|
            start <= i < end ==> #[trigger] counts[i] <= counts[last_peak(counts, start, end)],
        forall|i: int|
            last_peak(counts, start, end) < i < end ==> #[trigger] counts[i] < counts[last_peak(
                counts,
                start,
                end,
            )],
    decreases end - start,
{
    if start + 1 < end {
        last_peak_is_greatest(counts, start, end - 1);
    }
}

/// The window of a fit lies in range, holds the peak, and has at least five and
/// at most 201 bins.
pub proof fn window_holds_peak(counts: Seq<i64>, start: int, end: int)
    requires
        0 <= start <= end <= counts.len(),
    ensures
        window(counts, start, end) matches Some(w) ==> start <= w.0 <= last_peak(counts, start, end)
            < w.1 <= end && 5 <= w.1 - w.0 <= 201,
{
    if start < end {
        last_peak_is_greatest(counts, start, end);
    }
}

/// The bins of `start..end` that a fit takes in.
pub fn fit_window(counts: &[i64], start: usize, end: usize) -> (r: Option<(usize, usize)>)
    requires
        end <= counts@.len(),
        counts@.len() <= usize::MAX - 101,
    ensures
        match r {
            Some((low, high)) => window(counts@, start as int, end as int) == Some(
                (low as int, high as int),
            ),
            None => window(counts@, start as int, end as int) is None,
        },
{
    if end <= start {
        return None;
    }
    let mut peak: usize = start;
    let mut i: usize = start + 1;
    while i < end
        invariant
            start <= peak < i <= end <= counts@.len(),
            peak == last_peak(counts@, start as int, i as int),
        decreases end - i,
    {
        if counts[i] >= counts[peak] {
            peak = i;
        }
        i = i + 1;
    }
    if counts[peak] <= 0 {
        return None;
    }
    let low: usize = if peak >= FIT_WINDOW && peak - FIT_WINDOW > start {
        peak - FIT_WINDOW
    } else {
        start
    };
    let high: usize = if peak + FIT_WINDOW + 1 < end { peak + FIT_WINDOW + 1 } else { end };
    if high - low < MIN_FIT_BINS {
        return None;
    }
    Some((low, high))
}

/// The bins of a whole histogram that a fit takes in.
pub fn crop_around_peak(counts: &[i64]) -> (r: Option<(usize, usize)>)
    requires
        counts@.len() <= usize::MAX - 101,
    ensures
        match r {
            Some((low, high)) => window(counts@, 0, counts@.len() as int) == Some(
                (low as int, high as int),
            ),
            None => window(counts@, 0, counts@.len() as int) is None,
        },
{
    fit_window(counts, 0, counts.len())
}

/// The shape that is fitted to a peak.
#[derive(Debug, Clone, Copy, PartialEq, Eq, Structural)]
pub enum FitKind {
    Gaussian,
    HemgSingle,
    HemgDouble,
    Lorentzian,
}

impl FitKind {
    /// The name of the fit in the legend.
    pub fn label(self) -> (r: &'static str)
        ensures
            r@ == (match self {
                FitKind::Gaussian => "Gaussian"@,
                FitKind::HemgSingle => "HEMG single"@,
                FitKind::HemgDouble => "HEMG double"@,
                FitKind::Lorentzian => "Lorentzian"@,
            }),
    {
        match self {
            FitKind::Gaussian => "Gaussian",
            FitKind::HemgSingle => "HEMG single",
            FitKind::HemgDouble => "HEMG double",
            FitKind::Lorentzian => "Lorentzian",
        }
    }
}

/// The fit alone where it is wanted, else nothing.
pub open spec fn only_if(wanted: bool, kind: FitKind) -> Seq<FitKind> {
    if wanted {
        seq![kind]
    } else {
        seq![]
    }
}

/// The fits that are drawn, in the order in which they are solved.
pub open spec fn fit_order(flags: FitOverlayFlags) -> Seq<FitKind> {
    only_if(flags.gaussian, FitKind::Gaussian) + only_if(flags.hemg_single, FitKind::HemgSingle)
        + only_if(flags.hemg_double, FitKind::HemgDouble) + only_if(
        flags.lorentzian,
        FitKind::Lorentzian,
    )
}

/// The fits that are drawn, in the order in which they are solved.
pub fn requested_fits(flags: &FitOverlayFlags) -> (r: Vec<FitKind>)
    ensures
        r@ == fit_order(*flags),
{
    let mut kinds: Vec<FitKind> = Vec::new();
    if flags.gaussian {
        kinds.push(FitKind::Gaussian);
    }
    if flags.hemg_single {
        kinds.push(FitKind::HemgSingle);
    }
    if flags.hemg_double {
        kinds.push(FitKind::HemgDouble);
    }
    if flags.lorentzian {
        kinds.push(FitKind::Lorentzian);
    }
    assert(kinds@ =~= fit_order(*flags));
    kinds
}

/// The first and the last bin of a histogram that count anything.
pub fn populated_range(counts: &[i64]) -> (r: Option<(usize, usize)>)
    ensures
        match r {
            Some((first, last)) => {
                &&& first <= last < counts@.len()
                &&& counts@[first as int] > 0
                &&& counts@[last as int] > 0
                &&& forall|i: int| 0 <= i < first ==> #[trigger] counts@[i] <= 0
                &&& forall|i: int| last < i < counts@.len() ==> #[trigger] counts@[i] <= 0
            },
            None => forall|i: int| 0 <= i < counts@.len() ==> #[trigger] counts@[i] <= 0,
        },
{
    let mut first: usize = 0;
    while first < counts.len() && counts[first] <= 0
        invariant
            first <= counts@.len(),
            forall|i: int| 0 <= i < first ==> #[trigger] counts@[i] <= 0,
        decreases counts@.len() - first,
    {
        first = first + 1;
    }
    if first == counts.len() {
        return None;
    }
    let mut last: usize = counts.len() - 1;
    while counts[last] <= 0
        invariant
            first <= last < counts@.len(),
            counts@[first as int] > 0,
            forall|i: int| last < i < counts@.len() ==> #[trigger] counts@[i] <= 0,
        decreases last,
    {
        last = last - 1;
    }
    Some((first, last))
}

} // verus!
