//! The stats of a dataset split into a train and a test part: the column stats of
//! each column in the train part, in the test part, and in both together.

use crate::column_stats::{column_stats_computable, compute_column_stats, is_column_stats_for, ColumnStats};
use crate::dataset_stats::{
    column_view_len, compute_train_test_dataset_stats, is_column_stats_of, is_stats_of_parts, parts_computable, ColumnView,
    DatasetStats, StatsSettings,
};
use crate::histogram::Histogram;
use crate::histogram_stats::{compute_histogram_stats, is_histogram_stats_of, HistogramStats, NumberHistogramStats};
use crate::text_stats::tokenizers_bounded;
use vstd::prelude::*;

verus! {

/// A stage of computing stats, with the number of steps it takes.
#[derive(Debug, Clone, Copy, PartialEq, Eq, Structural)]
pub enum StatsProgress {
    /// Computing the dataset stats: one step per value of each column.
    DatasetStats(u64),
    /// Computing the histogram stats: one step per histogram entry.
    HistogramStats(u64),
}

/// The column stats of a dataset: those of all of it, of its train part and of its
/// test part.
#[derive(Debug)]
pub struct ComputeStatsOutput<T> {
    pub overall_column_stats: Vec<ColumnStats<T>>,
    pub train_column_stats: Vec<ColumnStats<T>>,
    pub test_column_stats: Vec<ColumnStats<T>>,
}

/// Whether `r` holds the column stats of a column whose dataset stats are `s`.
pub open spec fn is_column_stats_from<T, H, S, I>(
    r: ColumnStats<T>,
    name: Seq<char>,
    s: DatasetStats,
    settings: StatsSettings,
    number_histogram_stats: H,
    sqrt: S,
    idf: I,
) -> bool where
    H: Fn(&Histogram<u32>, usize) -> NumberHistogramStats<T>,
    S: Fn(T) -> T,
    I: Fn(usize, usize) -> T,
 {
    exists|h: HistogramStats<T>|
        is_histogram_stats_of(h, s, number_histogram_stats) && #[trigger] is_column_stats_for(
            r,
            name,
            s,
            h,
            settings,
            sqrt,
            idf,
        )
}

/// Whether `r` holds the column stats of the values of `column`.
pub open spec fn is_stats_of_column<T, F, B, H, S, I>(
    r: ColumnStats<T>,
    name: Seq<char>,
    column: ColumnView,
    settings: StatsSettings,
    tokenize: F,
    bigrams: B,
    number_histogram_stats: H,
    sqrt: S,
    idf: I,
) -> bool where
    F: Fn(&str) -> Vec<String>,
    B: Fn(&[String]) -> Vec<String>,
    H: Fn(&Histogram<u32>, usize) -> NumberHistogramStats<T>,
    S: Fn(T) -> T,
    I: Fn(usize, usize) -> T,
 {
    exists|s: DatasetStats|
        is_column_stats_of(s, column, tokenize, bigrams) && #[trigger] is_column_stats_from(
            r,
            name,
            s,
            settings,
            number_histogram_stats,
            sqrt,
            idf,
        )
}

/// Whether `r` holds the column stats of the values of `a` and then those of `b`.
pub open spec fn is_stats_of_column_parts<T, F, B, H, S, I>(
    r: ColumnStats<T>,
    name: Seq<char>,
    a: ColumnView,
    b: ColumnView,
    settings: StatsSettings,
    tokenize: F,
    bigrams: B,
    number_histogram_stats: H,
    sqrt: S,
    idf: I,
) -> bool where
    F: Fn(&str) -> Vec<String>,
    B: Fn(&[String]) -> Vec<String>,
    H: Fn(&Histogram<u32>, usize) -> NumberHistogramStats<T>,
    S: Fn(T) -> T,
    I: Fn(usize, usize) -> T,
 {
    exists|s: DatasetStats|
        is_stats_of_parts(s, a, b, tokenize, bigrams) && #[trigger] is_column_stats_from(
            r,
            name,
            s,
            settings,
            number_histogram_stats,
            sqrt,
            idf,
        )
}

/// The number of rows of a dataset given by its columns: the length of its first
/// column, 0 when it has none.
fn row_count(columns: &[ColumnView]) -> (r: usize)
    ensures
        r == if columns@.len() == 0 {
            0
        } else {
            column_view_len(columns@[0])
        },
{
    if columns.len() == 0 {
        0
    } else {
        match &columns[0] {
            ColumnView::Unknown(c) => c.len,
            ColumnView::Number(c) => c.data.len(),
            ColumnView::Enum(c) => c.data.len(),
            ColumnView::Text(c) => c.data.len(),
        }
    }
}

/// The number of histogram entries of the number columns among `stats`.
pub open spec fn histogram_entries_total(stats: Seq<DatasetStats>) -> nat
    decreases stats.len(),
{
    if stats.len() == 0 {
        0
    } else {
        histogram_entries_total(stats.drop_last()) + match stats.last() {
            DatasetStats::Number(s) => s.histogram.spec_entries().len(),
            _ => 0,
        }
    }
}

/// The number of histogram entries of the number columns, saturating at `usize::MAX`.
fn number_histogram_entries(stats: &[DatasetStats]) -> (r: usize)
    ensures
        r == if histogram_entries_total(stats@) <= usize::MAX {
            histogram_entries_total(stats@)
        } else {
            usize::MAX as nat
        },
{
    let mut n: usize = 0;
    let mut c: usize = 0;
    assert(stats@.take(0) =~= Seq::<DatasetStats>::empty());
    while c < stats.len()
        invariant
            c <= stats@.len(),
            n == if histogram_entries_total(stats@.take(c as int)) <= usize::MAX {
                histogram_entries_total(stats@.take(c as int))
            } else {
                usize::MAX as nat
            },
        decreases stats@.len() - c,
    {
        assert(stats@.take(c + 1).drop_last() =~= stats@.take(c as int));
        assert(stats@.take(c + 1).last() == stats@[c as int]);
        match &stats[c] {
            DatasetStats::Number(s) => {
                n = n.saturating_add(s.histogram.len());
            },
            _ => {},
        }
        c = c + 1;
    }
    assert(stats@.take(c as int) =~= stats@);
    n
}

/// The histogram stats of each column from its dataset stats.
fn compute_histogram_stats_of_columns<T, H: Fn(&Histogram<u32>, usize) -> NumberHistogramStats<T>>(
    stats: &Vec<DatasetStats>,
    number_histogram_stats: &H,
) -> (r: Vec<HistogramStats<T>>)
    requires
        forall|h: &Histogram<u32>, n: usize| call_requires(*number_histogram_stats, (h, n)),
    ensures
        r@.len() == stats@.len(),
        forall|c: int|
            0 <= c < r@.len() ==> #[trigger] is_histogram_stats_of(r@[c], stats@[c], *number_histogram_stats),
{
    let mut r: Vec<HistogramStats<T>> = Vec::new();
    let mut c: usize = 0;
    while c < stats.len()
        invariant
            c <= stats@.len(),
            r@.len() == c,
            forall|h: &Histogram<u32>, n: usize| call_requires(*number_histogram_stats, (h, n)),
            forall|k: int| 0 <= k < c ==> #[trigger] is_histogram_stats_of(r@[k], stats@[k], *number_histogram_stats),
        decreases stats@.len() - c,
    {
        let h = compute_histogram_stats(&stats[c], number_histogram_stats);
        r.push(h);
        c = c + 1;
    }
    r
}

/// The column stats of each column of a dataset split into a train and a test part:
/// in the train part, in the test part, and in both together. The dataset stats of
/// each part are computed and merged; the histogram stats of a number column are
/// what `number_histogram_stats` computes from its histogram, its standard
/// deviation what `sqrt` gives for its variance, and the inverse document
/// frequencies of a text column's tokens what `idf` gives. Text is split into
/// tokens by `tokenize`, and `bigrams` pairs them. `update_progress` is told of
/// each stage with its number of steps.
pub fn compute_stats<T, F, B, H, S, I, P>(
    column_names: &[String],
    train: &[ColumnView],
    test: &[ColumnView],
    settings: &StatsSettings,
    tokenize: F,
    bigrams: B,
    number_histogram_stats: H,
    sqrt: S,
    idf: I,
    update_progress: P,
) -> (r: ComputeStatsOutput<T>) where
    T: Copy,
    F: Fn(&str) -> Vec<String> + Copy,
    B: Fn(&[String]) -> Vec<String> + Copy,
    H: Fn(&Histogram<u32>, usize) -> NumberHistogramStats<T>,
    S: Fn(T) -> T,
    I: Fn(usize, usize) -> T,
    P: Fn(StatsProgress),

    requires
        train@.len() == test@.len(),
        forall|c: int| 0 <= c < train@.len() ==> #[trigger] parts_computable(train@[c], test@[c]),
        tokenizers_bounded(tokenize, bigrams),
        forall|h: &Histogram<u32>, n: usize| call_requires(number_histogram_stats, (h, n)),
        forall|v: T| call_requires(sqrt, (v,)),
        forall|n: usize, d: usize| call_requires(idf, (n, d)),
        forall|p: StatsProgress| call_requires(update_progress, (p,)),
    ensures
        r.train_column_stats@.len() == vstd::math::min(column_names@.len() as int, train@.len() as int),
        r.test_column_stats@.len() == r.train_column_stats@.len(),
        r.overall_column_stats@.len() == r.train_column_stats@.len(),
        forall|c: int|
            0 <= c < r.train_column_stats@.len() ==> #[trigger] is_stats_of_column(
                r.train_column_stats@[c],
                column_names@[c]@,
                train@[c],
                *settings,
                tokenize,
                bigrams,
                number_histogram_stats,
                sqrt,
                idf,
            ),
        forall|c: int|
            0 <= c < r.test_column_stats@.len() ==> #[trigger] is_stats_of_column(
                r.test_column_stats@[c],
                column_names@[c]@,
                test@[c],
                *settings,
                tokenize,
                bigrams,
                number_histogram_stats,
                sqrt,
                idf,
            ),
        forall|c: int|
            0 <= c < r.overall_column_stats@.len() ==> #[trigger] is_stats_of_column_parts(
                r.overall_column_stats@[c],
                column_names@[c]@,
                train@[c],
                test@[c],
                *settings,
                tokenize,
                bigrams,
                number_histogram_stats,
                sqrt,
                idf,
            ),
{
    let n_cols = train.len();
    let n_rows = row_count(train) as u64;
    let n_rows = n_rows.saturating_add(row_count(test) as u64);
    let n_values = match (n_cols as u64).checked_mul(n_rows) {
        Some(n) => n,
        None => u64::MAX,
    };
    update_progress(StatsProgress::DatasetStats(n_values));
    let (train_dataset_stats, test_dataset_stats, overall_dataset_stats) = compute_train_test_dataset_stats(
        train,
        test,
        settings,
        tokenize,
        bigrams,
    );
    let n_train = number_histogram_entries(&train_dataset_stats);
    let n_test = number_histogram_entries(&train_dataset_stats);
    let n_overall = n_train.saturating_add(n_test);
    let n = n_train.saturating_add(n_test).saturating_add(n_overall);
    update_progress(StatsProgress::HistogramStats(n as u64));
    let train_histogram_stats = compute_histogram_stats_of_columns(&train_dataset_stats, &number_histogram_stats);
    let test_histogram_stats = compute_histogram_stats_of_columns(&test_dataset_stats, &number_histogram_stats);
    let overall_histogram_stats = compute_histogram_stats_of_columns(&overall_dataset_stats, &number_histogram_stats);
    proof {
        assert forall|c: int| 0 <= c < train_dataset_stats@.len() implies #[trigger] column_stats_computable(
            train_dataset_stats@[c],
            train_histogram_stats@[c],
        ) by {
            assert(is_histogram_stats_of(train_histogram_stats@[c], train_dataset_stats@[c], number_histogram_stats));
        }
        assert forall|c: int| 0 <= c < test_dataset_stats@.len() implies #[trigger] column_stats_computable(
            test_dataset_stats@[c],
            test_histogram_stats@[c],
        ) by {
            assert(is_column_stats_of(train_dataset_stats@[c], train@[c], tokenize, bigrams));
            assert(is_histogram_stats_of(test_histogram_stats@[c], test_dataset_stats@[c], number_histogram_stats));
        }
        assert forall|c: int| 0 <= c < overall_dataset_stats@.len() implies #[trigger] column_stats_computable(
            overall_dataset_stats@[c],
            overall_histogram_stats@[c],
        ) by {
            assert(is_column_stats_of(train_dataset_stats@[c], train@[c], tokenize, bigrams));
            assert(is_histogram_stats_of(
                overall_histogram_stats@[c],
                overall_dataset_stats@[c],
                number_histogram_stats,
            ));
        }
    }
    let train_column_stats = compute_column_stats(
        column_names,
        train_dataset_stats.as_slice(),
        train_histogram_stats.as_slice(),
        settings,
        &sqrt,
        &idf,
    );
    let test_column_stats = compute_column_stats(
        column_names,
        test_dataset_stats.as_slice(),
        test_histogram_stats.as_slice(),
        settings,
        &sqrt,
        &idf,
    );
    let overall_column_stats = compute_column_stats(
        column_names,
        overall_dataset_stats.as_slice(),
        overall_histogram_stats.as_slice(),
        settings,
        &sqrt,
        &idf,
    );
    proof {
        assert forall|c: int| 0 <= c < train_column_stats@.len() implies #[trigger] is_stats_of_column(
            train_column_stats@[c],
            column_names@[c]@,
            train@[c],
            *settings,
            tokenize,
            bigrams,
            number_histogram_stats,
            sqrt,
            idf,
        ) by {
            assert(is_histogram_stats_of(train_histogram_stats@[c], train_dataset_stats@[c], number_histogram_stats));
            assert(is_column_stats_for(
                train_column_stats@[c],
                column_names@[c]@,
                train_dataset_stats@[c],
                train_histogram_stats@[c],
                *settings,
                sqrt,
                idf,
            ));
            assert(is_column_stats_from(
                train_column_stats@[c],
                column_names@[c]@,
                train_dataset_stats@[c],
                *settings,
                number_histogram_stats,
                sqrt,
                idf,
            ));
            assert(is_column_stats_of(train_dataset_stats@[c], train@[c], tokenize, bigrams));
        }
        assert forall|c: int| 0 <= c < test_column_stats@.len() implies #[trigger] is_stats_of_column(
            test_column_stats@[c],
            column_names@[c]@,
            test@[c],
            *settings,
            tokenize,
            bigrams,
            number_histogram_stats,
            sqrt,
            idf,
        ) by {
            assert(is_histogram_stats_of(test_histogram_stats@[c], test_dataset_stats@[c], number_histogram_stats));
            assert(is_column_stats_for(
                test_column_stats@[c],
                column_names@[c]@,
                test_dataset_stats@[c],
                test_histogram_stats@[c],
                *settings,
                sqrt,
                idf,
            ));
            assert(is_column_stats_from(
                test_column_stats@[c],
                column_names@[c]@,
                test_dataset_stats@[c],
                *settings,
                number_histogram_stats,
                sqrt,
                idf,
            ));
            assert(is_column_stats_of(train_dataset_stats@[c], train@[c], tokenize, bigrams));
            assert(is_column_stats_of(test_dataset_stats@[c], test@[c], tokenize, bigrams));
        }
        assert forall|c: int| 0 <= c < overall_column_stats@.len() implies #[trigger] is_stats_of_column_parts(
            overall_column_stats@[c],
            column_names@[c]@,
            train@[c],
            test@[c],
            *settings,
            tokenize,
            bigrams,
            number_histogram_stats,
            sqrt,
            idf,
        ) by {
            assert(is_histogram_stats_of(
                overall_histogram_stats@[c],
                overall_dataset_stats@[c],
                number_histogram_stats,
            ));
            assert(is_column_stats_for(
                overall_column_stats@[c],
                column_names@[c]@,
                overall_dataset_stats@[c],
                overall_histogram_stats@[c],
                *settings,
                sqrt,
                idf,
            ));
            assert(is_column_stats_from(
                overall_column_stats@[c],
                column_names@[c]@,
                overall_dataset_stats@[c],
                *settings,
                number_histogram_stats,
                sqrt,
                idf,
            ));
            assert(is_column_stats_of(train_dataset_stats@[c], train@[c], tokenize, bigrams));
            assert(is_stats_of_parts(overall_dataset_stats@[c], train@[c], test@[c], tokenize, bigrams));
        }
    }
    ComputeStatsOutput { overall_column_stats, train_column_stats, test_column_stats }
}

} // verus!
