//! What holds of the histograms of all layers.

use crate::models::observation::{BgoLayer, DetectorLayer, LayerView};
use crate::observation::histogram::{
    all_entries, axis_key, bgo_entries, gain_key, histogram, layer_entries, lookup, occurrences,
    occurrences_bounded, strip_entries, strip_key,
};
use crate::observation::particle::SignalsView;
use crate::text::{digit_char, int_text};
use vstd::prelude::*;

verus! {

/// The strip layers in the order of their histograms.
pub open spec fn layer_number(i: int) -> DetectorLayer {
    if i == 0 {
        DetectorLayer::L1
    } else if i == 1 {
        DetectorLayer::L2
    } else if i == 2 {
        DetectorLayer::L6
    } else {
        DetectorLayer::L7
    }
}

/// The scintillator layers in the order of their histograms.
pub open spec fn bgo_number(i: int) -> BgoLayer {
    if i == 0 {
        BgoLayer::L3
    } else if i == 1 {
        BgoLayer::L4
    } else {
        BgoLayer::L5
    }
}

/// The name of histogram `j` of a strip layer: both axes, then both axes of
/// each strip.
pub open spec fn layer_histogram_key(layer: DetectorLayer, j: int) -> Seq<char> {
    if j == 0 {
        axis_key(layer, "_X"@)
    } else if j == 1 {
        axis_key(layer, "_Y"@)
    } else if j % 2 == 0 {
        strip_key(layer, "_StripX"@, j / 2)
    } else {
        strip_key(layer, "_StripY"@, j / 2)
    }
}

/// The name of histogram `i`: eighteen for each strip layer, two for each
/// scintillator layer.
pub open spec fn histogram_key(i: int) -> Seq<char> {
    if i < 72 {
        layer_histogram_key(layer_number(i / 18), i % 18)
    } else if i % 2 == 0 {
        gain_key(bgo_number((i - 72) / 2), "_High"@)
    } else {
        gain_key(bgo_number((i - 72) / 2), "_Low"@)
    }
}

proof fn strip_keys(layer: DetectorLayer, data: LayerView, n: nat)
    ensures
        strip_entries(layer, data, n).len() == 2 * n,
        forall|j: int|
            0 <= j < 2 * n ==> (#[trigger] strip_entries(layer, data, n)[j]).0
                == layer_histogram_key(layer, j + 2),
    decreases n,
{
    if n > 0 {
        strip_keys(layer, data, (n - 1) as nat);
        let before = strip_entries(layer, data, (n - 1) as nat);
        assert forall|j: int| 0 <= j < 2 * n implies (#[trigger] strip_entries(layer, data, n)[j]).0
            == layer_histogram_key(layer, j + 2) by {
            if j < 2 * n - 2 {
                assert(strip_entries(layer, data, n)[j] == before[j]);
            } else if j == 2 * n - 2 {
                assert((j + 2) / 2 == n);
            } else {
                assert((j + 2) / 2 == n);
            }
        }
    }
}

proof fn layer_keys(layer: DetectorLayer, data: LayerView, positive_only: bool)
    ensures
        layer_entries(layer, data, positive_only).len() == 18,
        forall|j: int|
            0 <= j < 18 ==> (#[trigger] layer_entries(layer, data, positive_only)[j]).0
                == layer_histogram_key(layer, j),
{
    strip_keys(layer, data, 8);
    assert forall|j: int| 0 <= j < 18 implies (#[trigger] layer_entries(
        layer,
        data,
        positive_only,
    )[j]).0 == layer_histogram_key(layer, j) by {
        if j >= 2 {
            assert(layer_entries(layer, data, positive_only)[j] == strip_entries(layer, data, 8)[j
                - 2]);
        }
    }
}

/// There are 78 histograms, under their names in a fixed order.
pub proof fn histogram_names(s: SignalsView, retain_zero_main_values: bool)
    ensures
        all_entries(s, retain_zero_main_values).len() == 78,
        forall|i: int|
            0 <= i < 78 ==> (#[trigger] all_entries(s, retain_zero_main_values)[i]).0
                == histogram_key(i),
{
    let positive_only = !retain_zero_main_values;
    layer_keys(DetectorLayer::L1, s.l1, positive_only);
    layer_keys(DetectorLayer::L2, s.l2, positive_only);
    layer_keys(DetectorLayer::L6, s.l6, positive_only);
    layer_keys(DetectorLayer::L7, s.l7, positive_only);
    let e1 = layer_entries(DetectorLayer::L1, s.l1, positive_only);
    let e2 = layer_entries(DetectorLayer::L2, s.l2, positive_only);
    let e6 = layer_entries(DetectorLayer::L6, s.l6, positive_only);
    let e7 = layer_entries(DetectorLayer::L7, s.l7, positive_only);
    let b3 = bgo_entries(BgoLayer::L3, s.l3, positive_only);
    let b4 = bgo_entries(BgoLayer::L4, s.l4, positive_only);
    let b5 = bgo_entries(BgoLayer::L5, s.l5, positive_only);
    let all = all_entries(s, retain_zero_main_values);
    assert forall|i: int| 0 <= i < 78 implies (#[trigger] all[i]).0 == histogram_key(i) by {
        if i < 18 {
            assert(all[i] == e1[i]);
            assert(i / 18 == 0 && i % 18 == i);
        } else if i < 36 {
            assert(all[i] == e2[i - 18]);
            assert(i / 18 == 1 && i % 18 == i - 18);
        } else if i < 54 {
            assert(all[i] == e6[i - 36]);
            assert(i / 18 == 2 && i % 18 == i - 36);
        } else if i < 72 {
            assert(all[i] == e7[i - 54]);
            assert(i / 18 == 3 && i % 18 == i - 54);
        } else if i < 74 {
            assert(all[i] == b3[i - 72]);
        } else if i < 76 {
            assert(all[i] == b4[i - 74]);
        } else {
            assert(all[i] == b5[i - 76]);
        }
    }
}

/// The digit of a strip layer's name.
spec fn layer_digit(i: int) -> char {
    if i == 0 {
        '1'
    } else if i == 1 {
        '2'
    } else if i == 2 {
        '6'
    } else {
        '7'
    }
}

proof fn layer_key_shape(i: int)
    requires
        0 <= i < 72,
    ensures
        ({
            let key = histogram_key(i);
            let j = i % 18;
            &&& key[0] == 'D'
            &&& key[5] == layer_digit(i / 18)
            &&& j < 2 ==> key.len() == 8 && key[7] == if j == 0 { 'X' } else { 'Y' }
            &&& j >= 2 ==> key.len() == 14 && key[12] == (if j % 2 == 0 { 'X' } else { 'Y' })
                && key[13] == digit_char(j / 2)
        }),
{
    reveal_strlit("DSSD");
    reveal_strlit("L1");
    reveal_strlit("L2");
    reveal_strlit("L6");
    reveal_strlit("L7");
    reveal_strlit("_X");
    reveal_strlit("_Y");
    reveal_strlit("_StripX");
    reveal_strlit("_StripY");
    let n = (i % 18) / 2;
    assert(0 <= n < 9);
    assert(int_text(n) =~= seq![digit_char(n)]);
}

proof fn gain_key_shape(i: int)
    requires
        72 <= i < 78,
    ensures
        ({
            let key = histogram_key(i);
            &&& key[0] == 'B'
            &&& key[4] == (if i < 74 { '3' } else if i < 76 { '4' } else { '5' })
            &&& key.len() == (if i % 2 == 0 { 10int } else { 9int })
        }),
{
    reveal_strlit("BGO");
    reveal_strlit("L3");
    reveal_strlit("L4");
    reveal_strlit("L5");
    reveal_strlit("_High");
    reveal_strlit("_Low");
}

/// No two histograms have the same name.
pub proof fn histogram_names_differ(i: int, j: int)
    requires
        0 <= i < j < 78,
    ensures
        histogram_key(i) != histogram_key(j),
{
    if i < 72 {
        layer_key_shape(i);
        if j < 72 {
            layer_key_shape(j);
            if i / 18 == j / 18 {
                assert(i % 18 < j % 18);
                let a = i % 18;
                let b = j % 18;
                if a >= 2 && a % 2 == b % 2 {
                    assert(a / 2 < b / 2 < 9);
                }
            }
        } else {
            gain_key_shape(j);
        }
    } else {
        gain_key_shape(i);
        gain_key_shape(j);
    }
}

/// Every histogram is found under its name.
pub proof fn histogram_is_found(s: SignalsView, retain_zero_main_values: bool, i: int)
    requires
        0 <= i < 78,
    ensures
        lookup(all_entries(s, retain_zero_main_values), histogram_key(i)) == Some(
            all_entries(s, retain_zero_main_values)[i].1,
        ),
{
    let all = all_entries(s, retain_zero_main_values);
    histogram_names(s, retain_zero_main_values);
    assert(all.skip(0) =~= all);
    found_from(all, i, 0);
}

proof fn found_from(all: Seq<(Seq<char>, Seq<i32>)>, i: int, from: int)
    requires
        all.len() == 78,
        forall|k: int| 0 <= k < 78 ==> (#[trigger] all[k]).0 == histogram_key(k),
        0 <= from <= i < 78,
    ensures
        lookup(all.skip(from), histogram_key(i)) == Some(all[i].1),
    decreases i - from,
{
    assert(all.skip(from)[0] == all[from]);
    if from < i {
        histogram_names_differ(from, i);
        assert(all.skip(from).drop_first() =~= all.skip(from + 1));
        found_from(all, i, from + 1);
    }
}

/// Histogram `i` counts one strip: it is neither that of an axis nor that of a
/// gain.
pub open spec fn is_strip_histogram(i: int) -> bool {
    i < 72 && i % 18 >= 2
}

/// One histogram with and without its zeros: of `size` channels, alike where
/// zeros always count, else alike but for the first channel, which is empty
/// without the zeros.
pub open spec fn zeros_apart(
    without: Seq<i32>,
    with: Seq<i32>,
    size: int,
    zeros_count: bool,
) -> bool {
    &&& without.len() == size
    &&& with.len() == size
    &&& zeros_count ==> without == with
    &&& !zeros_count ==> without[0] == 0
    &&& forall|b: int| 1 <= b < size ==> #[trigger] without[b] == with[b]
}

proof fn strip_sizes(layer: DetectorLayer, data: LayerView, n: nat)
    ensures
        forall|j: int|
            0 <= j < strip_entries(layer, data, n).len() ==> (#[trigger] strip_entries(
                layer,
                data,
                n,
            )[j]).1.len() == 16384,
    decreases n,
{
    if n > 0 {
        strip_sizes(layer, data, (n - 1) as nat);
        let before = strip_entries(layer, data, (n - 1) as nat);
        assert forall|j: int| 0 <= j < strip_entries(layer, data, n).len() implies (
        #[trigger] strip_entries(layer, data, n)[j]).1.len() == 16384 by {
            if j < before.len() {
                assert(strip_entries(layer, data, n)[j] == before[j]);
            }
        }
    }
}

proof fn layer_zeros(layer: DetectorLayer, data: LayerView)
    ensures
        layer_entries(layer, data, true).len() == 18,
        layer_entries(layer, data, false).len() == 18,
        forall|j: int|
            0 <= j < 18 ==> zeros_apart(
                (#[trigger] layer_entries(layer, data, true)[j]).1,
                layer_entries(layer, data, false)[j].1,
                16384,
                j >= 2,
            ),
{
    strip_keys(layer, data, 8);
    strip_sizes(layer, data, 8);
    let without = layer_entries(layer, data, true);
    let with = layer_entries(layer, data, false);
    assert forall|j: int| 0 <= j < 18 implies zeros_apart(
        (#[trigger] without[j]).1,
        with[j].1,
        16384,
        j >= 2,
    ) by {
        if j >= 2 {
            assert(without[j] == strip_entries(layer, data, 8)[j - 2]);
            assert(with[j] == strip_entries(layer, data, 8)[j - 2]);
        }
    }
}

/// The histograms without and with the zeros: the same 78 names, 16384 channels
/// for a strip layer and 4096 for a scintillator layer. The strips keep their
/// zeros in both; those of the axes and gains differ in the first channel only,
/// which is empty without the zeros.
pub proof fn histograms_differ_in_zeros(s: SignalsView, i: int)
    requires
        0 <= i < 78,
    ensures
        all_entries(s, false).len() == 78,
        all_entries(s, true).len() == 78,
        all_entries(s, false)[i].0 == histogram_key(i),
        all_entries(s, true)[i].0 == histogram_key(i),
        zeros_apart(
            all_entries(s, false)[i].1,
            all_entries(s, true)[i].1,
            if i < 72 { 16384 } else { 4096 },
            is_strip_histogram(i),
        ),
{
    histogram_names(s, false);
    histogram_names(s, true);
    layer_zeros(DetectorLayer::L1, s.l1);
    layer_zeros(DetectorLayer::L2, s.l2);
    layer_zeros(DetectorLayer::L6, s.l6);
    layer_zeros(DetectorLayer::L7, s.l7);
    let without = all_entries(s, false);
    let with = all_entries(s, true);
    if i < 18 {
        assert(without[i] == layer_entries(DetectorLayer::L1, s.l1, true)[i]);
        assert(with[i] == layer_entries(DetectorLayer::L1, s.l1, false)[i]);
    } else if i < 36 {
        assert(without[i] == layer_entries(DetectorLayer::L2, s.l2, true)[i - 18]);
        assert(with[i] == layer_entries(DetectorLayer::L2, s.l2, false)[i - 18]);
    } else if i < 54 {
        assert(without[i] == layer_entries(DetectorLayer::L6, s.l6, true)[i - 36]);
        assert(with[i] == layer_entries(DetectorLayer::L6, s.l6, false)[i - 36]);
    } else if i < 72 {
        assert(without[i] == layer_entries(DetectorLayer::L7, s.l7, true)[i - 54]);
        assert(with[i] == layer_entries(DetectorLayer::L7, s.l7, false)[i - 54]);
    } else if i < 74 {
        assert(without[i] == bgo_entries(BgoLayer::L3, s.l3, true)[i - 72]);
        assert(with[i] == bgo_entries(BgoLayer::L3, s.l3, false)[i - 72]);
    } else if i < 76 {
        assert(without[i] == bgo_entries(BgoLayer::L4, s.l4, true)[i - 74]);
        assert(with[i] == bgo_entries(BgoLayer::L4, s.l4, false)[i - 74]);
    } else {
        assert(without[i] == bgo_entries(BgoLayer::L5, s.l5, true)[i - 76]);
        assert(with[i] == bgo_entries(BgoLayer::L5, s.l5, false)[i - 76]);
    }
}

/// The sum of the counts of the first `n` channels.
pub open spec fn count_sum(counts: Seq<i32>, n: nat) -> int
    decreases n,
{
    if n == 0 {
        0
    } else {
        count_sum(counts, (n - 1) as nat) + counts[n - 1]
    }
}

/// How many values fall into the first `n` channels.
pub open spec fn values_below(values: Seq<i32>, n: int) -> nat
    decreases values.len(),
{
    if values.len() == 0 {
        0
    } else {
        values_below(values.drop_last(), n) + if 0 <= values.last() < n { 1nat } else { 0nat }
    }
}

spec fn occurrence_sum(values: Seq<i32>, n: nat) -> nat
    decreases n,
{
    if n == 0 {
        0
    } else {
        occurrence_sum(values, (n - 1) as nat) + occurrences(values, n - 1)
    }
}

proof fn occurrence_sum_step(values: Seq<i32>, n: nat)
    requires
        values.len() > 0,
    ensures
        occurrence_sum(values, n) == occurrence_sum(values.drop_last(), n) + if 0 <= values.last()
            < n {
            1nat
        } else {
            0nat
        },
    decreases n,
{
    if n > 0 {
        occurrence_sum_step(values, (n - 1) as nat);
    }
}

proof fn occurrence_sum_is_count(values: Seq<i32>, n: nat)
    ensures
        occurrence_sum(values, n) == values_below(values, n as int),
    decreases values.len(),
{
    if values.len() > 0 {
        occurrence_sum_step(values, n);
        occurrence_sum_is_count(values.drop_last(), n);
    } else {
        no_occurrences(values, n);
    }
}

proof fn no_occurrences(values: Seq<i32>, n: nat)
    requires
        values.len() == 0,
    ensures
        occurrence_sum(values, n) == 0,
    decreases n,
{
    if n > 0 {
        no_occurrences(values, (n - 1) as nat);
    }
}

/// A histogram counts every value that has a channel, once: its counts add up
/// to the number of those values.
pub proof fn histogram_counts_all(values: Seq<i32>, size: nat)
    requires
        values.len() <= i32::MAX,
    ensures
        count_sum(histogram(values, size, false), size) == values_below(values, size as int),
{
    occurrence_sum_is_count(values, size);
    counts_are_occurrences(values, size, size);
}

proof fn counts_are_occurrences(values: Seq<i32>, size: nat, n: nat)
    requires
        values.len() <= i32::MAX,
        n <= size,
    ensures
        count_sum(histogram(values, size, false), n) == occurrence_sum(values, n),
    decreases n,
{
    if n > 0 {
        counts_are_occurrences(values, size, (n - 1) as nat);
        occurrences_bounded(values, n - 1);
    }
}

} // verus!
