//! Lists of integer series.

use vstd::prelude::*;

verus! {

/// What a list of series holds.
pub open spec fn series_views(series: Seq<Vec<i32>>) -> Seq<Seq<i32>> {
    series.map_values(|v: Vec<i32>| v@)
}

/// A series at the end of a list adds what it holds at the end.
pub proof fn series_views_push(series: Seq<Vec<i32>>, last: Vec<i32>)
    ensures
        series_views(series.push(last)) == series_views(series).push(last@),
{
}

/// `n` empty series.
pub open spec fn no_values(n: nat) -> Seq<Seq<i32>> {
    Seq::new(n, |i: int| Seq::empty())
}

/// `series` with `value` added to series `i`, where there is such a series.
pub open spec fn with_value(series: Seq<Seq<i32>>, i: int, value: i32) -> Seq<Seq<i32>> {
    if 0 <= i < series.len() {
        series.update(i, series[i].push(value))
    } else {
        series
    }
}

/// `n` empty series.
pub fn empty_series(n: usize) -> (r: Vec<Vec<i32>>)
    ensures
        series_views(r@) == no_values(n as nat),
{
    let mut series: Vec<Vec<i32>> = Vec::new();
    for i in 0..n
        invariant
            series_views(series@) == no_values(i as nat),
    {
        let empty: Vec<i32> = Vec::new();
        proof {
            series_views_push(series@, empty);
            assert(no_values((i + 1) as nat) == no_values(i as nat).push(Seq::empty()));
        }
        series.push(empty);
    }
    series
}

/// `n` empty series with room for `capacity` values each.
pub fn reserved_series(n: usize, capacity: usize) -> (r: Vec<Vec<i32>>)
    requires
        4 * capacity <= isize::MAX,
    ensures
        series_views(r@) == no_values(n as nat),
{
    let mut series: Vec<Vec<i32>> = Vec::new();
    for i in 0..n
        invariant
            series_views(series@) == no_values(i as nat),
    {
        let empty: Vec<i32> = Vec::with_capacity(capacity);
        proof {
            series_views_push(series@, empty);
            assert(no_values((i + 1) as nat) == no_values(i as nat).push(Seq::empty()));
        }
        series.push(empty);
    }
    series
}

/// Adds `value` to series `i`, where there is such a series.
pub fn push_value(series: &mut Vec<Vec<i32>>, i: usize, value: i32)
    ensures
        series_views(final(series)@) == with_value(series_views(old(series)@), i as int, value),
{
    if i < series.len() {
        series[i].push(value);
    }
}

} // verus!
