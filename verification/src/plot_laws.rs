//! Which bins a fit takes in, which pixels a crop keeps, and what the
//! statistics of a histogram count.

use crate::fit_overlay::{fit_order, last_peak, last_peak_is_greatest, window, FitKind, FitOverlayFlags};
use crate::observation_mode::{selected, stats_line, total};
use crate::plot_export::{clamped, cropped, file_name, CropBox};
use crate::text::int_text;
use vstd::prelude::*;

verus! {

/// The bin is the last of those in `start..end` that count the most.
pub open spec fn is_last_peak(counts: Seq<i64>, start: int, end: int, peak: int) -> bool {
    &&& start <= peak < end
    &&& forall|i: int| start <= i < end ==> #[trigger] counts[i] <= counts[peak]
    &&& forall|i: int| peak < i < end ==> #[trigger] counts[i] < counts[peak]
}

/// A fit takes in the hundred bins on either side of the peak, as far as they
/// lie in range, where the peak counts anything and there are five bins.
pub proof fn fits_lie_around_the_peak(counts: Seq<i64>, start: int, end: int, peak: int)
    requires
        0 <= start,
        end <= counts.len(),
    ensures
        end <= start ==> window(counts, start, end) is None,
        is_last_peak(counts, start, end, peak) ==> match window(counts, start, end) {
            Some((low, high)) => {
                &&& counts[peak] > 0
                &&& 5 <= high - low
                &&& low == start || (low == peak - 100 && start <= low)
                &&& peak - 100 <= low
                &&& high == end || (high == peak + 101 && high <= end)
                &&& high <= peak + 101
            },
            None => counts[peak] <= 0 || end - start < 5 || (peak + 101 < start + 5) || (end < peak
                - 100 + 5),
        },
{
    if is_last_peak(counts, start, end, peak) {
        last_peak_is_greatest(counts, start, end);
        let found = last_peak(counts, start, end);
        assert(counts[found] <= counts[peak]);
        assert(counts[peak] <= counts[found]);
        assert(found == peak);
    }
}

/// The fits that are drawn are exactly those that are asked for, each once.
#[verifier::spinoff_prover]
#[verifier::rlimit(60)]
pub proof fn fits_that_are_asked_for(flags: FitOverlayFlags)
    ensures
        fit_order(flags).contains(FitKind::Gaussian) == flags.gaussian,
        fit_order(flags).contains(FitKind::HemgSingle) == flags.hemg_single,
        fit_order(flags).contains(FitKind::HemgDouble) == flags.hemg_double,
        fit_order(flags).contains(FitKind::Lorentzian) == flags.lorentzian,
        fit_order(flags).len() == (if flags.gaussian {
            1int
        } else {
            0
        }) + (if flags.hemg_single {
            1int
        } else {
            0
        }) + (if flags.hemg_double {
            1int
        } else {
            0
        }) + (if flags.lorentzian {
            1int
        } else {
            0
        }),
        flags.gaussian ==> fit_order(flags)[0] == FitKind::Gaussian,
        flags.lorentzian ==> fit_order(flags).last() == FitKind::Lorentzian,
        flags.hemg_single && flags.hemg_double ==> fit_order(flags)[if flags.gaussian {
            1
        } else {
            0
        }] == FitKind::HemgSingle,
{
    let all = fit_order(flags);
    let a: int = if flags.gaussian { 1 } else { 0 };
    let b: int = if flags.hemg_single { 1 } else { 0 };
    let c: int = if flags.hemg_double { 1 } else { 0 };
    assert(flags.gaussian ==> all[0] == FitKind::Gaussian);
    assert(flags.hemg_single ==> all[a] == FitKind::HemgSingle);
    assert(flags.hemg_double ==> all[a + b] == FitKind::HemgDouble);
    assert(flags.lorentzian ==> all[a + b + c] == FitKind::Lorentzian);
}

/// A number that is moved into a range: one in it stays, any other goes to the
/// nearest end.
pub proof fn nearest_in_range(v: int, low: int, high: int)
    requires
        low <= high,
    ensures
        low <= clamped(v, low, high) <= high,
        low <= v <= high ==> clamped(v, low, high) == v,
        v <= low ==> clamped(v, low, high) == low,
        v >= high ==> clamped(v, low, high) == high,
{
}

/// Every pixel of a crop is the one of the image that lies as far right of and
/// below the crop's corner.
#[verifier::spinoff_prover]
#[verifier::rlimit(60)]
pub proof fn crops_keep_their_pixels<T>(
    pixels: Seq<T>,
    img_w: int,
    part: CropBox,
    rows: nat,
    row: int,
    column: int,
)
    requires
        rows <= part.height,
        part.x + part.width <= img_w,
        (part.y + part.height) * img_w <= pixels.len(),
        0 <= row < rows,
        0 <= column < part.width,
    ensures
        cropped(pixels, img_w, part, rows).len() == rows * part.width,
        cropped(pixels, img_w, part, rows)[row * part.width + column] == pixels[(part.y + row)
            * img_w + part.x + column],
    decreases rows,
{
    rows_have_width(pixels, img_w, part, rows);
    rows_have_width(pixels, img_w, part, (rows - 1) as nat);
    let front = cropped(pixels, img_w, part, (rows - 1) as nat);
    let w = part.width as int;
    assert(row * w >= 0) by (nonlinear_arith)
        requires
            row >= 0,
            w >= 0,
    ;
    if row < rows - 1 {
        crops_keep_their_pixels(pixels, img_w, part, (rows - 1) as nat, row, column);
        assert(row * w + column < (rows - 1) * w) by (nonlinear_arith)
            requires
                row < rows - 1,
                0 <= column < w,
        ;
    } else {
        let start = (part.y + rows - 1) * img_w + part.x;
        assert(start + w <= (part.y + part.height) * img_w && 0 <= start) by (nonlinear_arith)
            requires
                start == (part.y + rows - 1) * img_w + part.x,
                part.x + w <= img_w,
                rows <= part.height,
                rows >= 1,
                part.x >= 0,
                part.y >= 0,
                w >= 0,
        ;
        assert(row * w + column == front.len() + column);
    }
}

proof fn rows_have_width<T>(pixels: Seq<T>, img_w: int, part: CropBox, rows: nat)
    requires
        rows <= part.height,
        part.x + part.width <= img_w,
        (part.y + part.height) * img_w <= pixels.len(),
    ensures
        cropped(pixels, img_w, part, rows).len() == rows * part.width,
    decreases rows,
{
    let w = part.width as int;
    if rows > 0 {
        rows_have_width(pixels, img_w, part, (rows - 1) as nat);
        let start = (part.y + rows - 1) * img_w + part.x;
        assert(start + w <= (part.y + part.height) * img_w && 0 <= start) by (nonlinear_arith)
            requires
                start == (part.y + rows - 1) * img_w + part.x,
                part.x + w <= img_w,
                rows <= part.height,
                rows >= 1,
                part.x >= 0,
                part.y >= 0,
                w >= 0,
        ;
        assert(rows * w == (rows - 1) * w + w) by (nonlinear_arith);
    } else {
        assert(0 * w == 0) by (nonlinear_arith);
    }
}

/// A file name keeps every character but nine, in whose place an underscore
/// stands.
pub proof fn file_names_keep_their_characters(name: Seq<char>, i: int)
    requires
        0 <= i < name.len(),
    ensures
        file_name(name).len() == name.len(),
        (exists|k: int| 0 <= k < 9 && name[i] == #[trigger] "<>:\"/\\|?*"@[k]) ==> file_name(name)[i]
            == '_',
        !(exists|k: int| 0 <= k < 9 && name[i] == #[trigger] "<>:\"/\\|?*"@[k]) ==> file_name(
            name,
        )[i] == name[i],
{
    reveal_strlit("<>:\"/\\|?*");
    let bad = "<>:\"/\\|?*"@;
    assert(bad[0] == '<' && bad[1] == '>' && bad[2] == ':' && bad[3] == '"' && bad[4] == '/'
        && bad[5] == '\\' && bad[6] == '|' && bad[7] == '?' && bad[8] == '*');
}

/// The counts of a histogram add up channel by channel.
pub proof fn counts_add_up(counts: Seq<i32>, more: i32)
    ensures
        total(Seq::empty()) == 0,
        total(counts.push(more)) == total(counts) + more,
{
    assert(counts.push(more).drop_last() =~= counts);
}

/// The channels of a histogram that a range selects: those from its first to
/// its last value that there are; all where there is no range.
pub proof fn channels_in_range(len: int, range: Option<(usize, usize)>, channel: int)
    requires
        0 <= channel < len,
    ensures
        ({
            let (start, end) = selected(len, range);
            &&& 0 <= start <= len
            &&& 0 <= end <= len
            &&& (start <= channel < end) == (match range {
                Some((low, high)) => low <= channel <= high,
                None => true,
            })
        }),
{
}

/// The line with the statistics of a histogram shows its six values in their
/// places.
pub proof fn statistics_in_their_places(
    peak: Seq<char>,
    counts: int,
    mean: Seq<char>,
    rms: Seq<char>,
    fwhm: Seq<char>,
    resolution: Seq<char>,
)
    ensures
        stats_line(peak, counts, mean, rms, fwhm, resolution) == "Peak: "@ + peak + "   Counts: "@
            + int_text(counts) + "   Mean: "@ + mean + "   RMS: "@ + rms + "   FWHM: "@ + fwhm
            + "   Res: "@ + resolution,
{
}

} // verus!
