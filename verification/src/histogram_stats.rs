//! Histogram stats: the stats that are computed from the histogram of a column's
//! values once the dataset stats of all its parts are merged. Only number columns
//! have any; they are computed on floating-point numbers, carried here as a type
//! parameter `T`.

use crate::dataset_stats::DatasetStats;
use crate::histogram::{Histogram, HistogramKey};
use vstd::prelude::*;

verus! {

/// The histogram stats of a column, of the column's type.
#[derive(Debug)]
pub enum HistogramStats<T> {
    Unknown(UnknownHistogramStats),
    Text(TextHistogramStats),
    Number(NumberHistogramStats<T>),
    Enum(EnumHistogramStats),
}

/// Unknown columns have no histogram stats.
#[derive(Debug, Clone, Copy, PartialEq, Eq, Structural)]
pub struct UnknownHistogramStats {}

/// Text columns have no histogram stats.
#[derive(Debug, Clone, Copy, PartialEq, Eq, Structural)]
pub struct TextHistogramStats {}

/// The stats of a number column that its histogram gives.
#[derive(Debug)]
pub struct NumberHistogramStats<T> {
    pub mean: T,
    pub variance: T,
    pub min: T,
    pub p25: T,
    pub p50: T,
    pub p75: T,
    pub max: T,
    pub binned_histogram: Option<Vec<((T, T), usize)>>,
}

/// Enum columns have no histogram stats.
#[derive(Debug, Clone, Copy, PartialEq, Eq, Structural)]
pub struct EnumHistogramStats {}

/// Whether `r` holds the histogram stats of a column with the dataset stats `s`:
/// for a number column what `compute_number` gives for its histogram and its
/// number of valid values; for the other types none, of the same type.
pub open spec fn is_histogram_stats_of<T, F: Fn(&Histogram<u32>, usize) -> NumberHistogramStats<T>>(
    r: HistogramStats<T>,
    s: DatasetStats,
    compute_number: F,
) -> bool {
    match (s, r) {
        (DatasetStats::Unknown(_), HistogramStats::Unknown(_)) => true,
        (DatasetStats::Text(_), HistogramStats::Text(_)) => true,
        (DatasetStats::Enum(_), HistogramStats::Enum(_)) => true,
        (DatasetStats::Number(n), HistogramStats::Number(h)) => call_ensures(
            compute_number,
            (&n.histogram, n.valid_count),
            h,
        ),
        _ => false,
    }
}

/// The histogram stats of a column from its dataset stats: those of a number column
/// are what `compute_number` computes from its histogram and its number of valid
/// values; the other types have none.
pub fn compute_histogram_stats<T, F: Fn(&Histogram<u32>, usize) -> NumberHistogramStats<T>>(
    dataset_stats: &DatasetStats,
    compute_number: F,
) -> (r: HistogramStats<T>)
    requires
        dataset_stats matches DatasetStats::Number(s) ==> call_requires(compute_number, (&s.histogram, s.valid_count)),
    ensures
        is_histogram_stats_of(r, *dataset_stats, compute_number),
{
    match dataset_stats {
        DatasetStats::Unknown(_) => HistogramStats::Unknown(UnknownHistogramStats {}),
        DatasetStats::Number(s) => HistogramStats::Number(compute_number(&s.histogram, s.valid_count)),
        DatasetStats::Enum(_) => HistogramStats::Enum(EnumHistogramStats {}),
        DatasetStats::Text(_) => HistogramStats::Text(TextHistogramStats {}),
    }
}

/// The value at position `p` of the values that `entries` counts, taken in key
/// order with each key repeated as many times as its count; `None` past the end.
pub open spec fn value_at_position(entries: Seq<(u32, usize)>, p: int) -> Option<u32>
    decreases entries.len(),
{
    if entries.len() == 0 || p < 0 {
        None
    } else if p < entries[0].1 {
        Some(entries[0].0)
    } else {
        value_at_position(entries.drop_first(), p - entries[0].1)
    }
}

/// The value at position `p`, or `p + 1` when `plus_one` is set, of the values that
/// `entries` counts.
fn value_at(entries: &Vec<(u32, usize)>, p: usize, plus_one: bool) -> (r: Option<u32>)
    ensures
        r == value_at_position(entries@, if plus_one { p + 1 } else { p as int }),
{
    let ghost q: int = if plus_one { p + 1 } else { p as int };
    // The position sought, among the entries from `i` on, is `rem + extra`.
    let mut rem: usize = p;
    let mut extra: bool = plus_one;
    let mut i: usize = 0;
    assert(entries@.skip(0) =~= entries@);
    while i < entries.len()
        invariant
            i <= entries@.len(),
            q == if plus_one { p + 1 } else { p as int },
            value_at_position(entries@, q) == value_at_position(
                entries@.skip(i as int),
                rem + if extra { 1int } else { 0int },
            ),
        decreases entries@.len() - i,
    {
        let (key, count) = entries[i];
        let ghost rest = entries@.skip(i as int);
        proof {
            assert(rest[0] == entries@[i as int]);
            assert(rest.len() > 0);
            assert(key == rest[0].0 && count == rest[0].1);
            assert(rest.drop_first() =~= entries@.skip(i + 1));
        }
        let here = if extra {
            count > 0 && rem < count - 1
        } else {
            rem < count
        };
        if here {
            return Some(key);
        }
        if rem >= count {
            rem = rem - count;
        } else {
            rem = 0;
            extra = false;
        }
        i = i + 1;
    }
    proof {
        assert(entries@.skip(i as int).len() == 0);
    }
    None
}

/// The least and the greatest value that a number histogram counts, `None` when it is empty.
pub fn histogram_min_max(histogram: &Histogram<u32>) -> (r: Option<(u32, u32)>)
    requires
        histogram.wf(),
    ensures
        r is None <==> histogram.spec_entries().len() == 0,
        r matches Some((min, max)) ==> {
            &&& histogram.contains(min) && histogram.contains(max)
            &&& forall|k: u32| #[trigger] histogram.contains(k) ==> min <= k <= max
        },
{
    let entries = histogram.entries();
    if entries.len() == 0 {
        None
    } else {
        let min = entries[0].0;
        let max = entries[entries.len() - 1].0;
        proof {
            let e = histogram.spec_entries();
            let kv = histogram.key_views();
            histogram.lemma_key_views_sorted();
            assert(e[0].0@ == min);
            assert(e[e.len() - 1].0@ == max);
            assert(kv[0] == min);
            assert(kv[kv.len() - 1] == max);
            assert forall|k: u32| #[trigger] histogram.contains(k) implies min <= k <= max by {
                let q = choose|q: int| 0 <= q < e.len() && #[trigger] e[q].0@ == k;
                assert(kv[q] == k);
                if q > 0 {
                    assert(u32::key_lt(kv[0], kv[q]));
                }
                if q < e.len() - 1 {
                    assert(u32::key_lt(kv[q], kv[kv.len() - 1]));
                }
            }
        }
        Some((min, max))
    }
}

/// For each position, the value at that position of the values a number histogram
/// counts, taken in increasing order with each repeated as many times as its count,
/// and the value after it; `None` past the end. Quantiles are read at these positions.
pub fn histogram_values_at(histogram: &Histogram<u32>, positions: &[usize]) -> (r: Vec<(Option<u32>, Option<u32>)>)
    ensures
        r@.len() == positions@.len(),
        forall|i: int|
            0 <= i < positions@.len() ==> #[trigger] r@[i] == (
                value_at_position(histogram.spec_entries(), positions@[i] as int),
                value_at_position(histogram.spec_entries(), positions@[i] + 1),
            ),
{
    let entries = histogram.entries();
    let mut r: Vec<(Option<u32>, Option<u32>)> = Vec::new();
    let mut i: usize = 0;
    while i < positions.len()
        invariant
            i <= positions@.len(),
            entries@ == histogram.spec_entries(),
            r@.len() == i,
            forall|k: int|
                0 <= k < i ==> #[trigger] r@[k] == (
                    value_at_position(histogram.spec_entries(), positions@[k] as int),
                    value_at_position(histogram.spec_entries(), positions@[k] + 1),
                ),
        decreases positions@.len() - i,
    {
        let value = value_at(entries, positions[i], false);
        let next = value_at(entries, positions[i], true);
        r.push((value, next));
        i = i + 1;
    }
    r
}

} // verus!
