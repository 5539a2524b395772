//! Binning: each feature's values are mapped to bins, and features that admit no
//! split leaving enough examples on both sides are filtered out.
//!
//! The thresholds of a number feature are carried as a type parameter `T`: the
//! logic here only counts them.

use crate::dataset_stats::{ColumnView, NumberColumnView};
use num_traits::ToPrimitive;
use vstd::prelude::*;

verus! {

/// How the values of a feature map to bins.
#[derive(Clone, Debug)]
pub enum BinInfo<T> {
    /// A number feature: a value goes to the bin after the thresholds below it.
    Number { thresholds: Vec<T> },
    /// An enum feature: one bin per option.
    Enum { n_options: u8 },
}

/// The number of valid bins of a feature: one more than the number of thresholds
/// of a number feature, the number of options of an enum feature. One more bin,
/// not counted here, holds the missing values.
pub open spec fn spec_n_valid_bins<T>(info: BinInfo<T>) -> int {
    match info {
        BinInfo::Number { thresholds } => thresholds@.len() + 1int,
        BinInfo::Enum { n_options } => n_options as int,
    }
}

impl<T> BinInfo<T> {
    /// The number of valid bins.
    pub fn n_valid_bins(&self) -> (r: u8)
        requires
            spec_n_valid_bins(*self) <= u8::MAX,
        ensures
            r == spec_n_valid_bins(*self),
    {
        match self {
            BinInfo::Number { thresholds } => usize_to_u8(thresholds.len() + 1).unwrap(),
            BinInfo::Enum { n_options } => *n_options,
        }
    }

    /// The bin info of an enum column with the given options.
    pub fn for_enum_column(options: &[String]) -> (r: Self)
        requires
            options@.len() <= u8::MAX,
        ensures
            r matches BinInfo::Enum { n_options } && n_options == options@.len(),
    {
        BinInfo::Enum { n_options: usize_to_u8(options.len()).unwrap() }
    }
}

/// Options for filtering binned features.
#[derive(Clone, Copy, Debug)]
pub struct FilterBinnedFeaturesOptions {
    /// The number of examples that each side of a split must have at least.
    pub min_examples_split: usize,
}

/// The sum of the first `k` counts.
pub open spec fn prefix_sum(s: Seq<usize>, k: int) -> int
    decreases k,
{
    if k <= 0 {
        0
    } else {
        prefix_sum(s, k - 1) + s[k - 1]
    }
}

/// Whether some nonempty prefix of the counts holds at least `m` examples and
/// leaves at least `m` of the `n` examples after it.
pub open spec fn has_valid_prefix(s: Seq<usize>, n: int, m: int) -> bool {
    exists|k: int| 1 <= k <= s.len() && #[trigger] prefix_sum(s, k) >= m && n - prefix_sum(s, k) >= m
}

/// Whether `c` is the sum of some of the counts `s` (the empty choice sums to 0).
pub open spec fn is_subset_sum(s: Seq<usize>, c: int) -> bool
    decreases s.len(),
{
    if s.len() == 0 {
        c == 0
    } else {
        is_subset_sum(s.drop_last(), c) || is_subset_sum(s.drop_last(), c - s.last())
    }
}

/// Whether the bins whose counts are `s` can be parted in two, each side holding
/// at least `m` of the `n` examples: some of the bins hold `c` examples with
/// `c >= m` and `n - c >= m`.
pub open spec fn has_valid_subset(s: Seq<usize>, n: int, m: int) -> bool {
    s.len() > 0 && exists|c: int| #[trigger] is_subset_sum(s, c) && c >= m && n - c >= m
}

/// Whether a feature is kept: some split leaves at least `m` examples on each side.
/// A number feature splits between consecutive valid bins; an enum feature splits
/// its bins into any two parts.
pub open spec fn keeps_feature<T>(stats: Seq<usize>, info: BinInfo<T>, n: int, m: int) -> bool {
    match info {
        BinInfo::Number { thresholds } => has_valid_prefix(stats.subrange(0, thresholds@.len() + 1int), n, m),
        BinInfo::Enum { n_options } => has_valid_subset(stats.subrange(0, n_options as int), n, m),
    }
}

/// Whether the counts of a feature can be read for its bin info without running off
/// their end, and sum to at most the number of examples.
pub open spec fn stats_fit<T>(stats: Seq<usize>, info: BinInfo<T>, n: int) -> bool {
    &&& spec_n_valid_bins(info) <= stats.len()
    &&& prefix_sum(stats, spec_n_valid_bins(info)) <= n
}

proof fn lemma_prefix_sum_monotone(s: Seq<usize>, j: int, k: int)
    requires
        0 <= j <= k <= s.len(),
    ensures
        prefix_sum(s, j) <= prefix_sum(s, k),
    decreases k - j,
{
    if j < k {
        lemma_prefix_sum_monotone(s, j, k - 1);
    }
}

proof fn lemma_prefix_sum_subrange(s: Seq<usize>, len: int, k: int)
    requires
        0 <= k <= len <= s.len(),
    ensures
        prefix_sum(s.subrange(0, len), k) == prefix_sum(s, k),
    decreases k,
{
    if k > 0 {
        lemma_prefix_sum_subrange(s, len, k - 1);
    }
}

proof fn lemma_subset_sum_nonnegative(s: Seq<usize>, c: int)
    requires
        is_subset_sum(s, c),
    ensures
        c >= 0,
    decreases s.len(),
{
    if s.len() > 0 {
        if is_subset_sum(s.drop_last(), c) {
            lemma_subset_sum_nonnegative(s.drop_last(), c);
        } else {
            lemma_subset_sum_nonnegative(s.drop_last(), c - s.last());
        }
    }
}

proof fn lemma_subset_sum_zero(s: Seq<usize>)
    ensures
        is_subset_sum(s, 0),
    decreases s.len(),
{
    if s.len() > 0 {
        lemma_subset_sum_zero(s.drop_last());
    }
}

/// Whether some of the counts `s` hold at least `m` of the `n` examples and leave at least `m`.
fn find_valid_subset(s: &[usize], n: usize, m: usize) -> (r: bool)
    ensures
        r == has_valid_subset(s@, n as int, m as int),
{
    if s.len() == 0 {
        return false;
    }
    if m == 0 {
        proof {
            lemma_subset_sum_zero(s@);
        }
        return true;
    }
    if m > n || n - m < m {
        return false;
    }
    let hi = n - m;
    // reach[c]: whether some of the counts seen so far sum to c, for c up to hi.
    let mut reach: Vec<bool> = Vec::new();
    reach.push(true);
    while reach.len() <= hi
        invariant
            1 <= reach@.len() <= hi + 1,
            hi < usize::MAX,
            reach@[0],
            forall|c: int| 1 <= c < reach@.len() ==> !#[trigger] reach@[c],
        decreases hi + 1 - reach@.len(),
    {
        reach.push(false);
    }
    assert(s@.take(0) =~= Seq::<usize>::empty());
    let mut i: usize = 0;
    while i < s.len()
        invariant
            i <= s@.len(),
            hi < usize::MAX,
            reach@.len() == hi + 1,
            forall|c: int| 0 <= c <= hi ==> #[trigger] reach@[c] == is_subset_sum(s@.take(i as int), c),
        decreases s@.len() - i,
    {
        let x = s[i];
        let ghost before = s@.take(i as int);
        proof {
            assert(s@.take(i + 1).drop_last() =~= before);
            assert(s@.take(i + 1).last() == x);
        }
        let mut next: Vec<bool> = Vec::new();
        let mut c: usize = 0;
        while c <= hi
            invariant
                c <= hi + 1,
                hi < usize::MAX,
                reach@.len() == hi + 1,
                next@.len() == c,
                s@.take(i + 1).len() > 0,
                s@.take(i + 1).drop_last() == before,
                s@.take(i + 1).last() == x,
                forall|d: int| 0 <= d <= hi ==> #[trigger] reach@[d] == is_subset_sum(before, d),
                forall|d: int| 0 <= d < c ==> #[trigger] next@[d] == is_subset_sum(s@.take(i + 1), d),
            decreases hi + 1 - c,
        {
            let with_x = c >= x && reach[c - x];
            proof {
                if c < x && is_subset_sum(before, c - x) {
                    lemma_subset_sum_nonnegative(before, c - x);
                }
            }
            next.push(reach[c] || with_x);
            c = c + 1;
        }
        reach = next;
        i = i + 1;
    }
    assert(s@.take(s@.len() as int) =~= s@);
    let mut c: usize = m;
    while c <= hi
        invariant
            m <= c <= hi + 1,
            s@.len() > 0,
            hi == n - m,
            hi < usize::MAX,
            reach@.len() == hi + 1,
            forall|d: int| 0 <= d <= hi ==> #[trigger] reach@[d] == is_subset_sum(s@, d),
            forall|d: int| m <= d < c ==> !#[trigger] is_subset_sum(s@, d),
        decreases hi + 1 - c,
    {
        if reach[c] {
            assert(is_subset_sum(s@, c as int) && c >= m && n - c >= m);
            return true;
        }
        c = c + 1;
    }
    false
}

/// Whether some prefix of `s` holds at least `m` of the `n` examples and leaves at least `m`.
fn find_valid_prefix(s: &[usize], n: usize, m: usize) -> (r: bool)
    requires
        prefix_sum(s@, s@.len() as int) <= n,
    ensures
        r == has_valid_prefix(s@, n as int, m as int),
{
    let mut count_so_far: usize = 0;
    let mut i: usize = 0;
    while i < s.len()
        invariant
            i <= s@.len(),
            prefix_sum(s@, s@.len() as int) <= n,
            count_so_far == prefix_sum(s@, i as int),
            forall|k: int| 1 <= k <= i ==> !(#[trigger] prefix_sum(s@, k) >= m && n - prefix_sum(s@, k) >= m),
        decreases s@.len() - i,
    {
        proof {
            lemma_prefix_sum_monotone(s@, i + 1, s@.len() as int);
        }
        count_so_far = count_so_far + s[i];
        i = i + 1;
        if count_so_far >= m && n - count_so_far >= m {
            return true;
        }
    }
    false
}

/// For each feature, whether to keep it: whether some split of its bins leaves
/// at least `options.min_examples_split` of the `n_examples` examples on each side.
/// For a number feature the splits are between consecutive valid bins; for an
/// enum feature any partition of its bins into two parts will do.
pub fn filter_binned_features<T>(
    n_examples: usize,
    binned_features_stats: &[Vec<usize>],
    bin_info: &[BinInfo<T>],
    options: FilterBinnedFeaturesOptions,
) -> (r: Vec<bool>)
    requires
        forall|f: int|
            0 <= f < binned_features_stats@.len() && f < bin_info@.len() ==> stats_fit(
                #[trigger] binned_features_stats@[f]@,
                bin_info@[f],
                n_examples as int,
            ),
    ensures
        r@.len() == if binned_features_stats@.len() < bin_info@.len() {
            binned_features_stats@.len()
        } else {
            bin_info@.len()
        },
        forall|f: int|
            0 <= f < r@.len() ==> #[trigger] r@[f] == keeps_feature(
                binned_features_stats@[f]@,
                bin_info@[f],
                n_examples as int,
                options.min_examples_split as int,
            ),
{
    let mut r: Vec<bool> = Vec::new();
    let mut f: usize = 0;
    while f < binned_features_stats.len() && f < bin_info.len()
        invariant
            f <= binned_features_stats@.len(),
            f <= bin_info@.len(),
            r@.len() == f,
            forall|g: int|
                0 <= g < binned_features_stats@.len() && g < bin_info@.len() ==> stats_fit(
                    #[trigger] binned_features_stats@[g]@,
                    bin_info@[g],
                    n_examples as int,
                ),
            forall|g: int|
                0 <= g < f ==> #[trigger] r@[g] == keeps_feature(
                    binned_features_stats@[g]@,
                    bin_info@[g],
                    n_examples as int,
                    options.min_examples_split as int,
                ),
        decreases binned_features_stats@.len() - f,
    {
        let stats = &binned_features_stats[f];
        assert(stats_fit(binned_features_stats@[f as int]@, bin_info@[f as int], n_examples as int));
        let stats_len = stats.len();
        let keep = match &bin_info[f] {
            BinInfo::Number { thresholds } => {
                let len = thresholds.len() + 1;
                let counts = &stats.as_slice()[0..len];
                proof {
                    lemma_prefix_sum_subrange(stats@, len as int, len as int);
                }
                find_valid_prefix(counts, n_examples, options.min_examples_split)
            },
            BinInfo::Enum { n_options } => {
                let len = *n_options as usize;
                let counts = &stats.as_slice()[0..len];
                find_valid_subset(counts, n_examples, options.min_examples_split)
            },
        };
        r.push(keep);
        f = f + 1;
    }
    r
}

/// The number of binned values equal to `b`.
pub open spec fn bin_count(values: Seq<u8>, b: int) -> nat
    decreases values.len(),
{
    if values.len() == 0 {
        0
    } else {
        bin_count(values.drop_last(), b) + if values.last() == b { 1nat } else { 0nat }
    }
}

proof fn lemma_bin_count_bounded(values: Seq<u8>, b: int)
    ensures
        bin_count(values, b) <= values.len(),
    decreases values.len(),
{
    if values.len() > 0 {
        lemma_bin_count_bounded(values.drop_last(), b);
    }
}

/// Whether the keys are in increasing order.
pub open spec fn keys_ascending(t: Seq<u32>) -> bool {
    forall|i: int, j: int| 0 <= i <= j < t.len() ==> t[i] <= t[j]
}

/// Whether `b` is the bin of a number value, given by its order key, among the thresholds
/// given by theirs: bin 0 holds the missing values; a value goes to the bin after the
/// thresholds below it, and when it equals a threshold, to the bin just before that one.
/// With increasing thresholds, that is one bin per value; with equal thresholds, the
/// bin just before any of those equal to the value.
pub open spec fn is_number_bin(thresholds: Seq<u32>, value: Option<u32>, b: int) -> bool {
    match value {
        None => b == 0,
        Some(v) => {
            &&& 1 <= b <= thresholds.len() + 1
            &&& forall|j: int| 0 <= j < b - 1 ==> #[trigger] thresholds[j] <= v
            &&& forall|j: int| b - 1 <= j < thresholds.len() ==> v <= #[trigger] thresholds[j]
            &&& thresholds.contains(v) ==> thresholds[b - 1] == v
        },
    }
}

/// Whether a column can be binned with its bin info into `max_n_bins` bins: the types
/// agree, the column has `n` values, the thresholds of a number feature are in
/// increasing order and its bins fit, and the values of an enum column are bins that fit.
pub open spec fn binnable<T>(column: ColumnView, info: BinInfo<u32>, n: int, max_n_bins: int) -> bool {
    match (column, info) {
        (ColumnView::Number(c), BinInfo::Number { thresholds }) => {
            &&& c.data@.len() == n
            &&& keys_ascending(thresholds@)
            &&& thresholds@.len() < u8::MAX
            &&& thresholds@.len() + 1 < max_n_bins
        },
        (ColumnView::Enum(c), BinInfo::Enum { .. }) => {
            &&& c.data@.len() == n
            &&& forall|i: int| 0 <= i < n ==> #[trigger] c.data@[i] <= u8::MAX && c.data@[i] < max_n_bins
        },
        _ => false,
    }
}

/// Whether `b` is the bin of value `i` of a column.
pub open spec fn is_bin_of(column: ColumnView, info: BinInfo<u32>, i: int, b: int) -> bool {
    match (column, info) {
        (ColumnView::Number(c), BinInfo::Number { thresholds }) => is_number_bin(thresholds@, c.data@[i], b),
        (ColumnView::Enum(c), _) => b == c.data@[i],
        _ => false,
    }
}

/// The number of values of a column view.
fn column_view_len(column: &ColumnView) -> (r: usize)
    ensures
        r == match *column {
            ColumnView::Unknown(c) => c.len as int,
            ColumnView::Number(c) => c.data@.len() as int,
            ColumnView::Enum(c) => c.data@.len() as int,
            ColumnView::Text(c) => c.data@.len() as int,
        },
{
    match column {
        ColumnView::Unknown(c) => c.len,
        ColumnView::Number(c) => c.data.len(),
        ColumnView::Enum(c) => c.data.len(),
        ColumnView::Text(c) => c.data.len(),
    }
}

/// The bin of a number value among increasing thresholds.
fn number_bin(thresholds: &Vec<u32>, value: Option<u32>) -> (r: u8)
    requires
        keys_ascending(thresholds@),
        thresholds@.len() < u8::MAX,
    ensures
        is_number_bin(thresholds@, value, r as int),
{
    match value {
        None => 0,
        Some(v) => {
            let position = match binary_search_keys(thresholds.as_slice(), v) {
                Ok(p) => p,
                Err(p) => p,
            };
            let b = usize_to_u8(position).unwrap() + 1;
            proof {
                if thresholds@.contains(v) {
                    let q = choose|q: int| 0 <= q < thresholds@.len() && thresholds@[q] == v;
                    if thresholds@[position as int] != v {
                        assert(position <= q);
                    }
                }
            }
            b
        },
    }
}

/// The bin of every value of every feature, and for each feature the number of its
/// values in each of the `max_n_bins` bins. `progress` is called once per value binned.
pub fn compute_binned_features<P: Fn()>(
    features: &[ColumnView],
    bin_info: &[BinInfo<u32>],
    max_n_bins: usize,
    progress: P,
) -> (r: (Vec<Vec<u8>>, Vec<Vec<usize>>))
    requires
        features@.len() == bin_info@.len(),
        forall|f: int|
            0 <= f < features@.len() ==> binnable::<u32>(
                #[trigger] features@[f],
                bin_info@[f],
                match features@[0] {
                    ColumnView::Unknown(c) => c.len as int,
                    ColumnView::Number(c) => c.data@.len() as int,
                    ColumnView::Enum(c) => c.data@.len() as int,
                    ColumnView::Text(c) => c.data@.len() as int,
                },
                max_n_bins as int,
            ),
        call_requires(progress, ()),
    ensures
        r.0@.len() == features@.len(),
        r.1@.len() == features@.len(),
        forall|f: int|
            0 <= f < features@.len() ==> {
                &&& (#[trigger] r.0@[f])@.len() == match features@[0] {
                    ColumnView::Unknown(c) => c.len as int,
                    ColumnView::Number(c) => c.data@.len() as int,
                    ColumnView::Enum(c) => c.data@.len() as int,
                    ColumnView::Text(c) => c.data@.len() as int,
                }
                &&& forall|i: int| 0 <= i < r.0@[f]@.len() ==> is_bin_of(features@[f], bin_info@[f], i, #[trigger] r.0@[f]@[i] as int)
                &&& r.1@[f]@.len() == max_n_bins
                &&& forall|b: int| 0 <= b < max_n_bins ==> #[trigger] r.1@[f]@[b] == bin_count(r.0@[f]@, b)
            },
{
    let n_examples = if features.len() == 0 {
        0
    } else {
        column_view_len(&features[0])
    };
    let mut binned_features: Vec<Vec<u8>> = Vec::new();
    let mut binned_features_stats: Vec<Vec<usize>> = Vec::new();
    let mut f: usize = 0;
    while f < features.len()
        invariant
            features@.len() == bin_info@.len(),
            n_examples == match features@[0] {
                ColumnView::Unknown(c) => c.len as int,
                ColumnView::Number(c) => c.data@.len() as int,
                ColumnView::Enum(c) => c.data@.len() as int,
                ColumnView::Text(c) => c.data@.len() as int,
            } || features@.len() == 0,
            forall|g: int|
                0 <= g < features@.len() ==> binnable::<u32>(#[trigger] features@[g], bin_info@[g], n_examples as int, max_n_bins as int),
            call_requires(progress, ()),
            f <= features@.len(),
            binned_features@.len() == f,
            binned_features_stats@.len() == f,
            forall|g: int|
                0 <= g < f ==> {
                    &&& (#[trigger] binned_features@[g])@.len() == n_examples
                    &&& forall|i: int| 0 <= i < n_examples ==> is_bin_of(features@[g], bin_info@[g], i, #[trigger] binned_features@[g]@[i] as int)
                    &&& binned_features_stats@[g]@.len() == max_n_bins
                    &&& forall|b: int| 0 <= b < max_n_bins ==> #[trigger] binned_features_stats@[g]@[b] == bin_count(binned_features@[g]@, b)
                },
        decreases features@.len() - f,
    {
        let mut column_bins: Vec<u8> = Vec::new();
        let mut column_stats: Vec<usize> = Vec::new();
        while column_stats.len() < max_n_bins
            invariant
                column_stats@.len() <= max_n_bins,
                forall|b: int| 0 <= b < column_stats@.len() ==> #[trigger] column_stats@[b] == 0,
            decreases max_n_bins - column_stats@.len(),
        {
            column_stats.push(0);
        }
        let column = &features[f];
        let info = &bin_info[f];
        assert(binnable::<u32>(*column, *info, n_examples as int, max_n_bins as int));
        let mut i: usize = 0;
        while i < n_examples
            invariant
                binnable::<u32>(*column, *info, n_examples as int, max_n_bins as int),
                call_requires(progress, ()),
                i <= n_examples,
                column_bins@.len() == i,
                column_stats@.len() == max_n_bins,
                forall|k: int| 0 <= k < i ==> is_bin_of(*column, *info, k, #[trigger] column_bins@[k] as int),
                forall|b: int| 0 <= b < max_n_bins ==> #[trigger] column_stats@[b] == bin_count(column_bins@, b),
            decreases n_examples - i,
        {
            let b: u8 = match (column, info) {
                (ColumnView::Number(c), BinInfo::Number { thresholds }) => number_bin(thresholds, c.data[i]),
                (ColumnView::Enum(c), BinInfo::Enum { .. }) => usize_to_u8(c.data[i]).unwrap(),
                _ => {
                    assert(false);
                    0
                },
            };
            let ghost before = column_bins@;
            column_bins.push(b);
            proof {
                lemma_bin_count_bounded(before, b as int);
                assert(column_bins@.drop_last() =~= before);
                assert forall|k: int| 0 <= k < i + 1 implies is_bin_of(*column, *info, k, #[trigger] column_bins@[k] as int) by {
                    if k < i {
                        assert(column_bins@[k] == before[k]);
                    }
                }
            }
            let count = column_stats[b as usize];
            column_stats.set(b as usize, count + 1);
            progress();
            i = i + 1;
        }
        binned_features.push(column_bins);
        binned_features_stats.push(column_stats);
        f = f + 1;
    }
    (binned_features, binned_features_stats)
}

/// `<[u32]>::binary_search` on keys in increasing order: `Ok` with the position of a
/// key equal to `x` (any one of them when several are), else `Err` with the position
/// at which `x` would be inserted, after the keys below it and before those above.
#[verifier::external_body]
fn binary_search_keys(keys: &[u32], x: u32) -> (r: Result<usize, usize>)
    requires
        keys_ascending(keys@),
    ensures
        match r {
            Ok(i) => i < keys@.len() && keys@[i as int] == x,
            Err(i) => i <= keys@.len() && (forall|j: int| 0 <= j < i ==> #[trigger] keys@[j] < x) && (forall|j: int|
                i <= j < keys@.len() ==> x < #[trigger] keys@[j]),
        },
{
    keys.binary_search(&x)
}

/// How the bins of a column are chosen.
#[derive(Debug, Clone, Copy)]
pub struct ComputeBinInfoOptions {
    /// The largest number of valid bins of a number column.
    pub max_valid_bins: u8,
    /// The largest number of values of a number column that its thresholds are estimated from.
    pub max_number_column_examples_for_bin_info: usize,
}

/// Whether the bin info of a column can be computed: it is a number column, or an
/// enum column with no more than `u8::MAX` options.
pub open spec fn bin_info_computable(column: ColumnView) -> bool {
    match column {
        ColumnView::Number(_) => true,
        ColumnView::Enum(c) => c.options@.len() <= u8::MAX,
        _ => false,
    }
}

/// Whether `info` is the bin info of a column: for a number column the thresholds
/// that `number_thresholds` gives for it, for an enum column its number of options.
pub open spec fn is_bin_info_of<'a, T, F: Fn(NumberColumnView<'a>, ComputeBinInfoOptions) -> Vec<T>>(
    info: BinInfo<T>,
    column: ColumnView<'a>,
    options: ComputeBinInfoOptions,
    number_thresholds: F,
) -> bool {
    match (column, info) {
        (ColumnView::Number(c), BinInfo::Number { thresholds }) => call_ensures(
            number_thresholds,
            (c, options),
            thresholds,
        ),
        (ColumnView::Enum(c), BinInfo::Enum { n_options }) => n_options == c.options@.len(),
        _ => false,
    }
}

/// The bin info of a column: for a number column the thresholds that
/// `number_thresholds` estimates from its values, for an enum column one bin per
/// option.
pub fn compute_bin_info_for_column<'a, T, F: Fn(NumberColumnView<'a>, ComputeBinInfoOptions) -> Vec<T>>(
    column: &ColumnView<'a>,
    options: &ComputeBinInfoOptions,
    number_thresholds: &F,
) -> (r: BinInfo<T>)
    requires
        bin_info_computable(*column),
        forall|c: NumberColumnView<'a>, o: ComputeBinInfoOptions| call_requires(*number_thresholds, (c, o)),
    ensures
        is_bin_info_of(r, *column, *options, *number_thresholds),
{
    match column {
        ColumnView::Number(c) => BinInfo::Number { thresholds: number_thresholds(*c, *options) },
        ColumnView::Enum(c) => BinInfo::Enum { n_options: usize_to_u8(c.options.len()).unwrap() },
        _ => {
            assert(false);
            BinInfo::Enum { n_options: 0 }
        },
    }
}

/// The bin info of each column of the features.
pub fn compute_bin_info<'a, T, F: Fn(NumberColumnView<'a>, ComputeBinInfoOptions) -> Vec<T>>(
    features: &[ColumnView<'a>],
    options: &ComputeBinInfoOptions,
    number_thresholds: F,
) -> (r: Vec<BinInfo<T>>)
    requires
        forall|f: int| 0 <= f < features@.len() ==> #[trigger] bin_info_computable(features@[f]),
        forall|c: NumberColumnView<'a>, o: ComputeBinInfoOptions| call_requires(number_thresholds, (c, o)),
    ensures
        r@.len() == features@.len(),
        forall|f: int|
            0 <= f < features@.len() ==> #[trigger] is_bin_info_of(r@[f], features@[f], *options, number_thresholds),
{
    let mut r: Vec<BinInfo<T>> = Vec::new();
    let mut f: usize = 0;
    while f < features.len()
        invariant
            f <= features@.len(),
            r@.len() == f,
            forall|g: int| 0 <= g < features@.len() ==> #[trigger] bin_info_computable(features@[g]),
            forall|c: NumberColumnView<'a>, o: ComputeBinInfoOptions| call_requires(number_thresholds, (c, o)),
            forall|g: int| 0 <= g < f ==> #[trigger] is_bin_info_of(r@[g], features@[g], *options, number_thresholds),
        decreases features@.len() - f,
    {
        assert(bin_info_computable(features@[f as int]));
        let info = compute_bin_info_for_column(&features[f], options, &number_thresholds);
        r.push(info);
        f = f + 1;
    }
    r
}

/// `<usize as num_traits::ToPrimitive>::to_u8`: the value when it fits in a `u8`, else `None`.
#[verifier::external_body]
fn usize_to_u8(x: usize) -> (r: Option<u8>)
    ensures
        x <= u8::MAX ==> r == Some(x as u8),
        x > u8::MAX ==> r is None,
{
    x.to_u8()
}

} // verus!
