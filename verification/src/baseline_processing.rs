//! Analysis of baseline samples.

use crate::clock::{date_text, format_day, Millis, LAST_MILLIS};
use crate::lines::{lines_of, newline_at, split_lines};
use crate::models::baseline::BaselineData;
use crate::text::{decimal, int_text, join, joined, joined_front, text_of, trim, trimmed, views};
use vstd::prelude::*;
use vstd::string::StringExecFns;

verus! {

/// The first of the eight values from `from` on that no other exceeds,
/// counted from `from`, among the first `n`.
pub open spec fn strongest(values: Seq<i32>, from: int, n: int) -> int
    decreases n,
{
    if n <= 1 {
        0
    } else {
        let before = strongest(values, from, n - 1);
        if values[from + n - 1] > values[from + before] {
            n - 1
        } else {
            before
        }
    }
}

/// The strongest value is one of the eight, no other exceeds it, and every
/// earlier one is smaller.
pub proof fn strongest_is_first_greatest(values: Seq<i32>, from: int, n: int)
    requires
        1 <= n,
        0 <= from,
        from + n <= values.len(),
    ensures
        0 <= strongest(values, from, n) < n,
        forall|i: int|
            from <= i < from + n ==> #[trigger] values[i] <= values[from + strongest(
                values,
                from,
                n,
            )],
        forall|i: int|
            from <= i < from + strongest(values, from, n) ==> #[trigger] values[i] < values[from
                + strongest(values, from, n)],
    decreases n,
{
    if n > 1 {
        strongest_is_first_greatest(values, from, n - 1);
    }
}

/// How many samples have their strongest X channel at `x` and their strongest
/// Z channel at `z`. The first eight channels are those of X, the others those
/// of Z.
pub open spec fn coincidences(samples: Seq<[i32; 16]>, z: int, x: int) -> nat
    decreases samples.len(),
{
    if samples.len() == 0 {
        0
    } else {
        coincidences(samples.drop_last(), z, x) + if strongest(samples.last()@, 0, 8) == x
            && strongest(samples.last()@, 8, 8) == z {
            1nat
        } else {
            0nat
        }
    }
}

fn strongest_of(values: &[i32; 16], from: usize) -> (r: usize)
    requires
        from <= 8,
    ensures
        r == strongest(values@, from as int, 8),
        r < 8,
{
    let mut best: usize = 0;
    let mut n: usize = 1;
    while n < 8
        invariant
            from <= 8,
            1 <= n <= 8,
            best < n,
            best == strongest(values@, from as int, n as int),
        decreases 8 - n,
    {
        if values[from + n] > values[from + best] {
            best = n;
        }
        n = n + 1;
    }
    best
}

proof fn coincidences_bounded(samples: Seq<[i32; 16]>, z: int, x: int)
    ensures
        coincidences(samples, z, x) <= samples.len(),
    decreases samples.len(),
{
    if samples.len() > 0 {
        coincidences_bounded(samples.drop_last(), z, x);
    }
}

/// How often each pair of channels was strongest together: the rows are the Z
/// channels, the columns the X channels.
pub fn coincidence_matrix(samples: &[[i32; 16]]) -> (r: [[u64; 8]; 8])
    ensures
        forall|z: int, x: int|
            0 <= z < 8 && 0 <= x < 8 ==> #[trigger] r@[z]@[x] == coincidences(samples@, z, x),
{
    let mut matrix: [[u64; 8]; 8] = [[0; 8]; 8];
    for i in 0..samples.len()
        invariant
            forall|z: int, x: int|
                0 <= z < 8 && 0 <= x < 8 ==> #[trigger] matrix@[z]@[x] == coincidences(
                    samples@.take(i as int),
                    z,
                    x,
                ),
    {
        let values = samples[i];
        let max_x: usize = strongest_of(&values, 0);
        let max_z: usize = strongest_of(&values, 8);
        proof {
            assert(samples@.take(i + 1).drop_last() =~= samples@.take(i as int));
            assert(samples@.take(i + 1).last() == values);
            coincidences_bounded(samples@.take(i as int), max_z as int, max_x as int);
            assert(matrix@[max_z as int]@[max_x as int] <= i);
        }
        let mut row: [u64; 8] = matrix[max_z];
        row[max_x] = row[max_x] + 1;
        matrix[max_z] = row;
    }
    assert(samples@.take(samples@.len() as int) =~= samples@);
    matrix
}

/// How often each pair of channels of a layer was strongest together, where
/// `layer_selector` picks the layer's channels from a sample.
pub fn calculate_coincidence_matrix<F: Fn(&BaselineData) -> [i32; 16]>(
    data: &[BaselineData],
    layer_selector: F,
) -> (r: [[u64; 8]; 8])
    requires
        forall|i: int| 0 <= i < data@.len() ==> call_requires(layer_selector, (&#[trigger] data@[i],)),
    ensures
        exists|samples: Seq<[i32; 16]>|
            #![trigger samples.len()]
            samples.len() == data@.len() && (forall|i: int|
                0 <= i < data@.len() ==> call_ensures(
                    layer_selector,
                    (&data@[i],),
                    #[trigger] samples[i],
                )) && (forall|z: int, x: int|
                0 <= z < 8 && 0 <= x < 8 ==> #[trigger] r@[z]@[x] == coincidences(samples, z, x)),
{
    let mut samples: Vec<[i32; 16]> = Vec::new();
    for i in 0..data.len()
        invariant
            forall|k: int|
                0 <= k < data@.len() ==> call_requires(layer_selector, (&#[trigger] data@[k],)),
            samples@.len() == i,
            forall|k: int|
                0 <= k < i ==> call_ensures(layer_selector, (&data@[k],), #[trigger] samples@[k]),
    {
        let values = layer_selector(&data[i]);
        samples.push(values);
    }
    let r = coincidence_matrix(samples.as_slice());
    assert(samples@.len() == data@.len());
    r
}

/// The sum of a channel's values over samples.
pub open spec fn channel_sum(samples: Seq<[i32; 16]>, channel: int) -> int
    decreases samples.len(),
{
    if samples.len() == 0 {
        0
    } else {
        channel_sum(samples.drop_last(), channel) + samples.last()@[channel]
    }
}

proof fn channel_sum_bounded(samples: Seq<[i32; 16]>, channel: int)
    requires
        0 <= channel < 16,
    ensures
        -0x8000_0000 * samples.len() <= channel_sum(samples, channel) <= 0x7FFF_FFFF
            * samples.len(),
    decreases samples.len(),
{
    if samples.len() > 0 {
        channel_sum_bounded(samples.drop_last(), channel);
    }
}

/// Samples can be added up part by part, in any grouping: the sum over two
/// parts is the sum of their sums.
pub proof fn channel_sum_of_parts(a: Seq<[i32; 16]>, b: Seq<[i32; 16]>, channel: int)
    ensures
        channel_sum(a + b, channel) == channel_sum(a, channel) + channel_sum(b, channel),
    decreases b.len(),
{
    if b.len() == 0 {
        assert(a + b =~= a);
    } else {
        channel_sum_of_parts(a, b.drop_last(), channel);
        assert((a + b).drop_last() =~= a + b.drop_last());
        assert((a + b).last() == b.last());
    }
}

/// The sum of every channel's values over samples: what their means are
/// divided from.
pub fn channel_sums(samples: &[[i32; 16]]) -> (r: [i128; 16])
    ensures
        forall|channel: int|
            0 <= channel < 16 ==> #[trigger] r@[channel] == channel_sum(samples@, channel),
{
    let mut sums: [i128; 16] = [0; 16];
    for i in 0..samples.len()
        invariant
            forall|channel: int|
                0 <= channel < 16 ==> #[trigger] sums@[channel] == channel_sum(
                    samples@.take(i as int),
                    channel,
                ),
    {
        let values = samples[i];
        let ghost before = samples@.take(i as int);
        let ghost after = samples@.take(i + 1);
        proof {
            assert(after.drop_last() =~= before);
            assert(after.last() == values);
        }
        let mut channel: usize = 0;
        while channel < 16
            invariant
                i < samples.len(),
                channel <= 16,
                before == samples@.take(i as int),
                after == samples@.take(i + 1),
                after.drop_last() == before,
                after.last() == values,
                forall|k: int|
                    0 <= k < channel ==> #[trigger] sums@[k] == channel_sum(after, k),
                forall|k: int|
                    channel <= k < 16 ==> #[trigger] sums@[k] == channel_sum(before, k),
            decreases 16 - channel,
        {
            proof {
                channel_sum_bounded(before, channel as int);
                assert(before.len() == i);
            }
            sums[channel] = sums[channel] + values[channel] as i128;
            channel = channel + 1;
        }
    }
    assert(samples@.take(samples@.len() as int) =~= samples@);
    sums
}

/// The folder for a day's output.
pub fn daily_folder_name(day: Millis) -> (r: String)
    requires
        0 <= day <= LAST_MILLIS,
    ensures
        r@ == date_text(day as int, false),
{
    format_day(day)
}

/// The name of the file with the channel means of a layer.
pub open spec fn mean_file(layer_id: int) -> Seq<char> {
    "MeanValues"@ + int_text(layer_id) + ".txt"@
}

/// The name of the file with the channel means of a layer.
pub fn mean_file_name(layer_id: u32) -> (r: String)
    ensures
        r@ == mean_file(layer_id as int),
{
    let mut out = String::from_str("MeanValues");
    out.append(decimal(layer_id as i64).as_str());
    out.append(".txt");
    out
}

/// The contents of a file with channel means: one per line.
pub fn mean_file_text(means: &[String]) -> (r: String)
    ensures
        r@ == joined(views(means@), "\n"@),
{
    join(means, "\n")
}

/// The text of a channel's mean in a file with channel means, without the
/// whitespace around it. `None` where the file has no line for the channel.
pub fn mean_text(content: &str, channel_index: usize) -> (r: Option<String>)
    ensures
        match r {
            Some(t) => channel_index < lines_of(content@).len() && t@ == trimmed(
                lines_of(content@)[channel_index as int],
            ),
            None => channel_index >= lines_of(content@).len(),
        },
{
    let lines = split_lines(content);
    assert(views(lines@).len() == lines@.len());
    if channel_index < lines.len() {
        assert(views(lines@)[channel_index as int] == lines@[channel_index as int]@);
        Some(text_of(trim(lines[channel_index].as_str()).as_slice()))
    } else {
        None
    }
}

/// The text is one line: not empty, and without line feed or carriage return.
pub open spec fn one_line(s: Seq<char>) -> bool {
    &&& s.len() > 0
    &&& forall|i: int| 0 <= i < s.len() ==> #[trigger] s[i] != '\n' && s[i] != '\r'
}

/// The means that are written to a file read back from it, channel by channel.
pub proof fn means_read_back(means: Seq<Seq<char>>)
    requires
        forall|i: int| 0 <= i < means.len() ==> one_line(#[trigger] means[i]),
    ensures
        lines_of(joined(means, "\n"@)) == means,
    decreases means.len(),
{
    reveal_strlit("\n");
    let content = joined(means, "\n"@);
    if means.len() == 0 {
        assert(content =~= Seq::<char>::empty());
        assert(lines_of(content) =~= means);
    } else if means.len() == 1 {
        assert(one_line(means[0]));
        newline_behind(means[0], Seq::empty());
        assert(means[0] + Seq::<char>::empty() =~= means[0]);
        assert(seq![means[0]] =~= means);
    } else {
        let others = means.drop_first();
        assert forall|i: int| 0 <= i < others.len() implies one_line(#[trigger] others[i]) by {
            assert(others[i] == means[i + 1]);
        }
        assert(one_line(means[0]));
        joined_front(means, "\n"@);
        let rest = "\n"@ + joined(others, "\n"@);
        assert(content =~= means[0] + rest);
        newline_behind(means[0], rest);
        let n = means[0].len() as int;
        assert(content.take(n) =~= means[0]);
        assert(content.skip(n + 1) =~= joined(others, "\n"@));
        means_read_back(others);
        assert(seq![means[0]] + others =~= means);
    }
}

proof fn newline_behind(line: Seq<char>, rest: Seq<char>)
    requires
        forall|i: int| 0 <= i < line.len() ==> #[trigger] line[i] != '\n',
        rest.len() == 0 || rest[0] == '\n',
    ensures
        newline_at(line + rest) == line.len(),
    decreases line.len(),
{
    let s = line + rest;
    if line.len() == 0 {
        assert(s =~= rest);
    } else {
        assert(s[0] == line[0]);
        let shorter = line.drop_first();
        assert forall|i: int| 0 <= i < shorter.len() implies #[trigger] shorter[i] != '\n' by {
            assert(shorter[i] == line[i + 1]);
        }
        assert(s.drop_first() =~= shorter + rest);
        newline_behind(shorter, rest);
    }
}

} // verus!
