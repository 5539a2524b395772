//! Computing the feature columns of a dataframe from its feature groups. Each
//! group reads the first column named after its source. The groups that compute
//! on floating-point numbers (normalized and bag of words) are given by the caller.

use crate::dataframe::{
    is_value_at, is_view_of, view_len, DataFrame, DataFrameColumn, DataFrameColumnView, DataFrameValue, DataFrameView,
};
use crate::features::{BagOfWordsFeatureGroup, FeatureGroup, NormalizedFeatureGroup};
use crate::infer::str_equals;
use vstd::prelude::*;

verus! {

/// The name of a column view.
pub open spec fn view_name<'a, N>(c: DataFrameColumnView<'a, N>) -> Option<&'a str> {
    match c {
        DataFrameColumnView::Unknown(s) => s.name,
        DataFrameColumnView::Number(s) => s.name,
        DataFrameColumnView::Enum(s) => s.name,
        DataFrameColumnView::Text(s) => s.name,
    }
}

/// Whether column `i` is the first column named `name`, all columns before it
/// having names.
pub open spec fn is_source_column<'a, N>(columns: Seq<DataFrameColumnView<'a, N>>, name: Seq<char>, i: int) -> bool {
    &&& 0 <= i < columns.len()
    &&& view_name(columns[i]) matches Some(s) && s@ == name
    &&& forall|j: int| 0 <= j < i ==> (view_name(#[trigger] columns[j]) matches Some(s) && s@ != name)
}

/// The name of the column a feature group reads.
pub open spec fn source_name<T>(g: FeatureGroup<T>) -> Seq<char> {
    match g {
        FeatureGroup::Identity(s) => s.source_column_name@,
        FeatureGroup::Normalized(s) => s.source_column_name@,
        FeatureGroup::OneHotEncoded(s) => s.source_column_name@,
        FeatureGroup::BagOfWords(s) => s.source_column_name@,
    }
}

/// Whether the feature columns of a dataframe can be computed with a feature group:
/// its source column is found, it is not one hot encoded, and an identity group
/// reads a number or enum column.
pub open spec fn group_computable<'a, N, T>(columns: Seq<DataFrameColumnView<'a, N>>, g: FeatureGroup<T>) -> bool {
    &&& exists|i: int| is_source_column(columns, source_name(g), i)
    &&& !(g is OneHotEncoded)
    &&& (g is Identity ==> forall|i: int|
        is_source_column(columns, source_name(g), i) ==> (columns[i] is Number || columns[i] is Enum))
}

/// Whether `out` holds the feature columns that a feature group gives for its
/// source column `source`: a copy of it for an identity group; what `normalized`
/// gives for a normalized group, and `bag_of_words` for a bag of words group.
pub open spec fn is_group_columns<'a, N, T, F, B>(
    out: Seq<DataFrameColumn<N>>,
    g: FeatureGroup<T>,
    source: DataFrameColumnView<'a, N>,
    normalized: F,
    bag_of_words: B,
) -> bool where
    F: Fn(&NormalizedFeatureGroup<T>, DataFrameColumnView<'a, N>) -> DataFrameColumn<N>,
    B: Fn(&BagOfWordsFeatureGroup<T>, DataFrameColumnView<'a, N>) -> Vec<DataFrameColumn<N>>,
 {
    match g {
        FeatureGroup::Identity(_) => out.len() == 1 && is_view_of(source, out[0]),
        FeatureGroup::Normalized(s) => out.len() == 1 && call_ensures(normalized, (&s, source), out[0]),
        FeatureGroup::BagOfWords(s) => exists|v: Vec<DataFrameColumn<N>>| v@ == out && #[trigger] call_ensures(bag_of_words, (&s, source), v),
        FeatureGroup::OneHotEncoded(_) => false,
    }
}

/// Whether `out` holds the feature columns that a feature group gives for its
/// source column among `columns`.
pub open spec fn is_group_output<'a, N, T, F, B>(
    out: Seq<DataFrameColumn<N>>,
    columns: Seq<DataFrameColumnView<'a, N>>,
    g: FeatureGroup<T>,
    normalized: F,
    bag_of_words: B,
) -> bool where
    F: Fn(&NormalizedFeatureGroup<T>, DataFrameColumnView<'a, N>) -> DataFrameColumn<N>,
    B: Fn(&BagOfWordsFeatureGroup<T>, DataFrameColumnView<'a, N>) -> Vec<DataFrameColumn<N>>,
 {
    exists|i: int|
        is_source_column(columns, source_name(g), i) && #[trigger] is_group_columns(
            out,
            g,
            columns[i],
            normalized,
            bag_of_words,
        )
}

/// The index of the first column named `name`.
fn find_source_column<'a, N: Copy>(columns: &Vec<DataFrameColumnView<'a, N>>, name: &str) -> (r: usize)
    requires
        exists|i: int| is_source_column(columns@, name@, i),
    ensures
        is_source_column(columns@, name@, r as int),
{
    let ghost k = choose|i: int| is_source_column(columns@, name@, i);
    let mut i: usize = 0;
    while i < columns.len()
        invariant
            is_source_column(columns@, name@, k),
            i <= k,
            forall|j: int| 0 <= j < i ==> (view_name(#[trigger] columns@[j]) matches Some(s) && s@ != name@),
        decreases columns@.len() - i,
    {
        let column_name = columns[i].name();
        proof {
            if i < k {
                assert(view_name(columns@[i as int]) matches Some(s) && s@ != name@);
            }
        }
        match column_name {
            Some(n) => {
                if str_equals(n, name) {
                    return i;
                }
            },
            None => {
                assert(false);
            },
        }
        i = i + 1;
    }
    assert(false);
    0
}

/// The feature columns of one feature group.
fn compute_features_dataframe_for_feature_group<'a, N: Copy, T, F, B, P>(
    dataframe: &DataFrameView<'a, N>,
    feature_group: &FeatureGroup<T>,
    normalized: &F,
    bag_of_words: &B,
    progress: &P,
) -> (r: Vec<DataFrameColumn<N>>) where
    F: Fn(&NormalizedFeatureGroup<T>, DataFrameColumnView<'a, N>) -> DataFrameColumn<N>,
    B: Fn(&BagOfWordsFeatureGroup<T>, DataFrameColumnView<'a, N>) -> Vec<DataFrameColumn<N>>,
    P: Fn(u64),

    requires
        group_computable(dataframe.columns@, *feature_group),
        forall|g: &NormalizedFeatureGroup<T>, c: DataFrameColumnView<'a, N>| call_requires(*normalized, (g, c)),
        forall|g: &BagOfWordsFeatureGroup<T>, c: DataFrameColumnView<'a, N>| call_requires(*bag_of_words, (g, c)),
        forall|n: u64| call_requires(*progress, (n,)),
    ensures
        is_group_output(r@, dataframe.columns@, *feature_group, *normalized, *bag_of_words),
{
    let columns = &dataframe.columns;
    match feature_group {
        FeatureGroup::Identity(g) => {
            let i = find_source_column(columns, g.source_column_name.as_str());
            let report = |_n: u64|
                requires
                    forall|m: u64| call_requires(*progress, (m,)),
                {
                    progress(1)
                };
            let column = g.compute_dataframe(columns[i], report);
            let mut r: Vec<DataFrameColumn<N>> = Vec::new();
            r.push(column);
            assert(is_group_columns(r@, *feature_group, columns@[i as int], *normalized, *bag_of_words));
            r
        },
        FeatureGroup::Normalized(g) => {
            let i = find_source_column(columns, g.source_column_name.as_str());
            let column = normalized(g, columns[i]);
            let mut r: Vec<DataFrameColumn<N>> = Vec::new();
            r.push(column);
            assert(is_group_columns(r@, *feature_group, columns@[i as int], *normalized, *bag_of_words));
            r
        },
        FeatureGroup::BagOfWords(g) => {
            let i = find_source_column(columns, g.source_column_name.as_str());
            let r = bag_of_words(g, columns[i]);
            assert(is_group_columns(r@, *feature_group, columns@[i as int], *normalized, *bag_of_words));
            r
        },
        FeatureGroup::OneHotEncoded(_) => {
            assert(false);
            Vec::new()
        },
    }
}

/// Whether `parts` holds, for each feature group, the feature columns it gives for
/// its source column.
pub open spec fn is_features_of<'a, N, T, F, B>(
    parts: Seq<Seq<DataFrameColumn<N>>>,
    columns: Seq<DataFrameColumnView<'a, N>>,
    groups: Seq<FeatureGroup<T>>,
    normalized: F,
    bag_of_words: B,
) -> bool where
    F: Fn(&NormalizedFeatureGroup<T>, DataFrameColumnView<'a, N>) -> DataFrameColumn<N>,
    B: Fn(&BagOfWordsFeatureGroup<T>, DataFrameColumnView<'a, N>) -> Vec<DataFrameColumn<N>>,
 {
    &&& parts.len() == groups.len()
    &&& forall|g: int|
        0 <= g < groups.len() ==> #[trigger] is_group_output(parts[g], columns, groups[g], normalized, bag_of_words)
}

/// The feature columns of a dataframe: those of each feature group in turn, read
/// from the first column named after its source. An identity group copies its
/// column; `normalized` and `bag_of_words` compute the columns of the other groups.
/// `progress` is told of each identity column.
pub fn compute_features_dataframe<'a, N: Copy, T, F, B, P>(
    dataframe: &DataFrameView<'a, N>,
    feature_groups: &[FeatureGroup<T>],
    normalized: F,
    bag_of_words: B,
    progress: P,
) -> (r: DataFrame<N>) where
    F: Fn(&NormalizedFeatureGroup<T>, DataFrameColumnView<'a, N>) -> DataFrameColumn<N>,
    B: Fn(&BagOfWordsFeatureGroup<T>, DataFrameColumnView<'a, N>) -> Vec<DataFrameColumn<N>>,
    P: Fn(u64),

    requires
        forall|g: int| 0 <= g < feature_groups@.len() ==> #[trigger] group_computable(dataframe.columns@, feature_groups@[g]),
        forall|g: &NormalizedFeatureGroup<T>, c: DataFrameColumnView<'a, N>| call_requires(normalized, (g, c)),
        forall|g: &BagOfWordsFeatureGroup<T>, c: DataFrameColumnView<'a, N>| call_requires(bag_of_words, (g, c)),
        forall|n: u64| call_requires(progress, (n,)),
    ensures
        exists|parts: Seq<Seq<DataFrameColumn<N>>>|
            #[trigger] is_features_of(parts, dataframe.columns@, feature_groups@, normalized, bag_of_words)
                && r.columns@ == parts.flatten(),
{
    let mut columns: Vec<DataFrameColumn<N>> = Vec::new();
    let ghost mut parts: Seq<Seq<DataFrameColumn<N>>> = Seq::empty();
    let mut k: usize = 0;
    while k < feature_groups.len()
        invariant
            k <= feature_groups@.len(),
            forall|g: int|
                0 <= g < feature_groups@.len() ==> #[trigger] group_computable(dataframe.columns@, feature_groups@[g]),
            forall|g: &NormalizedFeatureGroup<T>, c: DataFrameColumnView<'a, N>| call_requires(normalized, (g, c)),
            forall|g: &BagOfWordsFeatureGroup<T>, c: DataFrameColumnView<'a, N>| call_requires(bag_of_words, (g, c)),
            forall|n: u64| call_requires(progress, (n,)),
            is_features_of(parts, dataframe.columns@, feature_groups@.take(k as int), normalized, bag_of_words),
            columns@ == parts.flatten(),
        decreases feature_groups@.len() - k,
    {
        assert(group_computable(dataframe.columns@, feature_groups@[k as int]));
        let group_columns = compute_features_dataframe_for_feature_group(
            dataframe,
            &feature_groups[k],
            &normalized,
            &bag_of_words,
            &progress,
        );
        let ghost before = columns@;
        let ghost added = group_columns@;
        let mut group_columns = group_columns;
        columns.append(&mut group_columns);
        proof {
            let next = parts.push(added);
            Seq::lemma_flatten_push(parts, added);
            let groups = feature_groups@.take(k + 1);
            assert(groups.len() == next.len());
            assert forall|g: int| 0 <= g < groups.len() implies #[trigger] is_group_output(
                next[g],
                dataframe.columns@,
                groups[g],
                normalized,
                bag_of_words,
            ) by {
                if g < k {
                    assert(groups[g] == feature_groups@.take(k as int)[g]);
                    assert(next[g] == parts[g]);
                } else {
                    assert(groups[g] == feature_groups@[k as int]);
                    assert(next[g] == added);
                }
            }
            parts = next;
        }
        k = k + 1;
    }
    assert(feature_groups@.take(k as int) =~= feature_groups@);
    DataFrame { columns }
}

/// The number of rows of a dataframe view: the length of its first column, 0 when
/// it has none.
pub open spec fn view_nrows<'a, N>(columns: Seq<DataFrameColumnView<'a, N>>) -> nat {
    if columns.len() == 0 {
        0
    } else {
        view_len(columns[0])
    }
}

/// The value at row `i` of `values`, unknown past its end.
pub open spec fn padded<'a, N>(values: Seq<DataFrameValue<'a, N>>, i: int) -> DataFrameValue<'a, N> {
    if 0 <= i < values.len() {
        values[i]
    } else {
        DataFrameValue::Unknown
    }
}

/// The contents of each of a list of vectors.
pub open spec fn vec_views<V>(v: Seq<Vec<V>>) -> Seq<Seq<V>> {
    v.map_values(|c: Vec<V>| c@)
}

/// Whether `out` is the values of `values`, padded or cut to `nrows` rows.
pub open spec fn is_padded_to<'a, N>(out: Seq<DataFrameValue<'a, N>>, values: Seq<DataFrameValue<'a, N>>, nrows: int) -> bool {
    &&& out.len() == nrows
    &&& forall|i: int| 0 <= i < nrows ==> #[trigger] out[i] == padded(values, i)
}

/// Whether `out` is the feature column of a normalized group: what `normalized` gives
/// for its source column, over `nrows` rows.
pub open spec fn is_normalized_values<'a, N, T, F>(
    out: Seq<DataFrameValue<'a, N>>,
    g: NormalizedFeatureGroup<T>,
    source: DataFrameColumnView<'a, N>,
    nrows: int,
    normalized: F,
) -> bool where F: Fn(&NormalizedFeatureGroup<T>, DataFrameColumnView<'a, N>) -> Vec<DataFrameValue<'a, N>> {
    exists|v: Vec<DataFrameValue<'a, N>>| #[trigger] call_ensures(normalized, (&g, source), v) && is_padded_to(out, v@, nrows)
}

/// Whether `out` is the feature columns of a bag of words group, one per token:
/// those `bag_of_words` gives for its source column, over `nrows` rows, and unknown
/// values for the tokens it gives no column for.
pub open spec fn is_bag_of_words_values<'a, N, T, B>(
    out: Seq<Seq<DataFrameValue<'a, N>>>,
    g: BagOfWordsFeatureGroup<T>,
    source: DataFrameColumnView<'a, N>,
    nrows: int,
    bag_of_words: B,
) -> bool where B: Fn(&BagOfWordsFeatureGroup<T>, DataFrameColumnView<'a, N>) -> Vec<Vec<DataFrameValue<'a, N>>> {
    exists|v: Vec<Vec<DataFrameValue<'a, N>>>|
        #[trigger] call_ensures(bag_of_words, (&g, source), v) && out.len() == g.tokens@.len() && forall|j: int|
            0 <= j < out.len() ==> is_padded_to(
                #[trigger] out[j],
                if j < v@.len() {
                    v@[j]@
                } else {
                    Seq::empty()
                },
                nrows,
            )
}

/// Whether `out` holds, as columns of `nrows` values, the features that a feature
/// group gives for its source column `source`: for an identity group the values of
/// the column, unknown past its end; for the other groups what `normalized` and
/// `bag_of_words` give.
pub open spec fn is_group_value_columns<'a, N, T, F, B>(
    out: Seq<Seq<DataFrameValue<'a, N>>>,
    g: FeatureGroup<T>,
    source: DataFrameColumnView<'a, N>,
    nrows: int,
    normalized: F,
    bag_of_words: B,
) -> bool where
    F: Fn(&NormalizedFeatureGroup<T>, DataFrameColumnView<'a, N>) -> Vec<DataFrameValue<'a, N>>,
    B: Fn(&BagOfWordsFeatureGroup<T>, DataFrameColumnView<'a, N>) -> Vec<Vec<DataFrameValue<'a, N>>>,
 {
    match g {
        FeatureGroup::Identity(_) => out.len() == 1 && out[0].len() == nrows && forall|i: int|
            0 <= i < nrows ==> if i < view_len(source) {
                is_value_at(#[trigger] out[0][i], source, i)
            } else {
                out[0][i] is Unknown
            },
        FeatureGroup::Normalized(s) => out.len() == 1 && is_normalized_values(out[0], s, source, nrows, normalized),
        FeatureGroup::BagOfWords(s) => is_bag_of_words_values(out, s, source, nrows, bag_of_words),
        FeatureGroup::OneHotEncoded(_) => false,
    }
}

/// Whether `out` holds the feature value columns that a feature group gives for its
/// source column among `columns`.
pub open spec fn is_group_value_output<'a, N, T, F, B>(
    out: Seq<Seq<DataFrameValue<'a, N>>>,
    columns: Seq<DataFrameColumnView<'a, N>>,
    g: FeatureGroup<T>,
    normalized: F,
    bag_of_words: B,
) -> bool where
    F: Fn(&NormalizedFeatureGroup<T>, DataFrameColumnView<'a, N>) -> Vec<DataFrameValue<'a, N>>,
    B: Fn(&BagOfWordsFeatureGroup<T>, DataFrameColumnView<'a, N>) -> Vec<Vec<DataFrameValue<'a, N>>>,
 {
    exists|i: int|
        is_source_column(columns, source_name(g), i) && #[trigger] is_group_value_columns(
            out,
            g,
            columns[i],
            view_nrows(columns) as int,
            normalized,
            bag_of_words,
        )
}

/// `values`, padded with unknown values or cut to `nrows` rows.
fn pad_values<'a, N: Copy>(values: &Vec<DataFrameValue<'a, N>>, nrows: usize) -> (r: Vec<DataFrameValue<'a, N>>)
    ensures
        is_padded_to(r@, values@, nrows as int),
{
    let mut r: Vec<DataFrameValue<'a, N>> = Vec::new();
    let mut i: usize = 0;
    while i < nrows
        invariant
            i <= nrows,
            r@.len() == i,
            forall|k: int| 0 <= k < i ==> #[trigger] r@[k] == padded(values@, k),
        decreases nrows - i,
    {
        if i < values.len() {
            r.push(values[i]);
        } else {
            r.push(DataFrameValue::Unknown);
        }
        i = i + 1;
    }
    r
}

/// The feature value columns of one feature group, over `nrows` rows.
fn compute_features_array_value_for_feature_group<'a, N: Copy, T, F, B, P>(
    dataframe: &DataFrameView<'a, N>,
    feature_group: &FeatureGroup<T>,
    nrows: usize,
    normalized: &F,
    bag_of_words: &B,
    progress: &P,
) -> (r: Vec<Vec<DataFrameValue<'a, N>>>) where
    F: Fn(&NormalizedFeatureGroup<T>, DataFrameColumnView<'a, N>) -> Vec<DataFrameValue<'a, N>>,
    B: Fn(&BagOfWordsFeatureGroup<T>, DataFrameColumnView<'a, N>) -> Vec<Vec<DataFrameValue<'a, N>>>,
    P: Fn(),

    requires
        group_computable(dataframe.columns@, *feature_group),
        nrows == view_nrows(dataframe.columns@),
        forall|g: &NormalizedFeatureGroup<T>, c: DataFrameColumnView<'a, N>| call_requires(*normalized, (g, c)),
        forall|g: &BagOfWordsFeatureGroup<T>, c: DataFrameColumnView<'a, N>| call_requires(*bag_of_words, (g, c)),
        call_requires(*progress, ()),
    ensures
        is_group_value_output(vec_views(r@), dataframe.columns@, *feature_group, *normalized, *bag_of_words),
{
    let columns = &dataframe.columns;
    match feature_group {
        FeatureGroup::Identity(g) => {
            let i = find_source_column(columns, g.source_column_name.as_str());
            let mut values: Vec<DataFrameValue<'a, N>> = Vec::new();
            let mut k: usize = 0;
            while k < nrows
                invariant
                    k <= nrows,
                    values@.len() == k,
                    forall|m: int| 0 <= m < k ==> #[trigger] values@[m] is Unknown,
                decreases nrows - k,
            {
                values.push(DataFrameValue::Unknown);
                k = k + 1;
            }
            let report = ||
                requires
                    forall|u: ()| #[trigger] call_requires(*progress, u),
                {
                    progress()
                };
            g.compute_array_value(values.as_mut_slice(), columns[i], report);
            let mut r: Vec<Vec<DataFrameValue<'a, N>>> = Vec::new();
            r.push(values);
            proof {
                let out = vec_views(r@);
                assert(out[0] == values@);
                assert(is_group_value_columns(out, *feature_group, columns@[i as int], nrows as int, *normalized, *bag_of_words));
            }
            r
        },
        FeatureGroup::Normalized(g) => {
            let i = find_source_column(columns, g.source_column_name.as_str());
            let given = normalized(g, columns[i]);
            let values = pad_values(&given, nrows);
            let mut r: Vec<Vec<DataFrameValue<'a, N>>> = Vec::new();
            r.push(values);
            proof {
                let out = vec_views(r@);
                assert(out[0] == values@);
                assert(is_normalized_values(out[0], *g, columns@[i as int], nrows as int, *normalized));
                assert(is_group_value_columns(out, *feature_group, columns@[i as int], nrows as int, *normalized, *bag_of_words));
            }
            r
        },
        FeatureGroup::BagOfWords(g) => {
            let i = find_source_column(columns, g.source_column_name.as_str());
            let given = bag_of_words(g, columns[i]);
            let empty: Vec<DataFrameValue<'a, N>> = Vec::new();
            let mut r: Vec<Vec<DataFrameValue<'a, N>>> = Vec::new();
            let mut j: usize = 0;
            while j < g.tokens.len()
                invariant
                    j <= g.tokens@.len(),
                    r@.len() == j,
                    empty@ == Seq::<DataFrameValue<'a, N>>::empty(),
                    forall|m: int|
                        0 <= m < j ==> is_padded_to(
                            #[trigger] r@[m]@,
                            if m < given@.len() {
                                given@[m]@
                            } else {
                                Seq::empty()
                            },
                            nrows as int,
                        ),
                decreases g.tokens@.len() - j,
            {
                let values = if j < given.len() {
                    pad_values(&given[j], nrows)
                } else {
                    pad_values(&empty, nrows)
                };
                r.push(values);
                j = j + 1;
            }
            proof {
                let out = vec_views(r@);
                assert forall|m: int| 0 <= m < out.len() implies is_padded_to(
                    #[trigger] out[m],
                    if m < given@.len() {
                        given@[m]@
                    } else {
                        Seq::empty()
                    },
                    nrows as int,
                ) by {
                    assert(out[m] == r@[m]@);
                }
                assert(is_bag_of_words_values(out, *g, columns@[i as int], nrows as int, *bag_of_words));
                assert(is_group_value_columns(out, *feature_group, columns@[i as int], nrows as int, *normalized, *bag_of_words));
            }
            r
        },
        FeatureGroup::OneHotEncoded(_) => {
            assert(false);
            Vec::new()
        },
    }
}

/// Whether `parts` holds, for each feature group, the feature value columns it gives
/// for its source column.
pub open spec fn is_value_features_of<'a, N, T, F, B>(
    parts: Seq<Seq<Seq<DataFrameValue<'a, N>>>>,
    columns: Seq<DataFrameColumnView<'a, N>>,
    groups: Seq<FeatureGroup<T>>,
    normalized: F,
    bag_of_words: B,
) -> bool where
    F: Fn(&NormalizedFeatureGroup<T>, DataFrameColumnView<'a, N>) -> Vec<DataFrameValue<'a, N>>,
    B: Fn(&BagOfWordsFeatureGroup<T>, DataFrameColumnView<'a, N>) -> Vec<Vec<DataFrameValue<'a, N>>>,
 {
    &&& parts.len() == groups.len()
    &&& forall|g: int|
        0 <= g < groups.len() ==> #[trigger] is_group_value_output(parts[g], columns, groups[g], normalized, bag_of_words)
}

/// Whether `rows` are the rows of the columns `columns`, each of `nrows` values.
pub open spec fn is_rows_of<V>(rows: Seq<Vec<V>>, columns: Seq<Seq<V>>, nrows: int) -> bool {
    &&& rows.len() == nrows
    &&& forall|i: int| 0 <= i < nrows ==> (#[trigger] rows[i])@.len() == columns.len()
    &&& forall|i: int, j: int| 0 <= i < nrows && 0 <= j < columns.len() ==> rows[i]@[j] == #[trigger] columns[j][i]
}

/// The rows of columns of `nrows` values each.
fn rows_of_columns<V: Copy>(columns: &Vec<Vec<V>>, nrows: usize) -> (r: Vec<Vec<V>>)
    requires
        forall|j: int| 0 <= j < columns@.len() ==> (#[trigger] columns@[j])@.len() == nrows,
    ensures
        is_rows_of(r@, vec_views(columns@), nrows as int),
{
    let mut rows: Vec<Vec<V>> = Vec::new();
    let mut i: usize = 0;
    while i < nrows
        invariant
            i <= nrows,
            forall|j: int| 0 <= j < columns@.len() ==> (#[trigger] columns@[j])@.len() == nrows,
            rows@.len() == i,
            forall|m: int| 0 <= m < i ==> (#[trigger] rows@[m])@.len() == columns@.len(),
            forall|m: int, j: int| 0 <= m < i && 0 <= j < columns@.len() ==> rows@[m]@[j] == #[trigger] columns@[j]@[m],
        decreases nrows - i,
    {
        let mut row: Vec<V> = Vec::new();
        let mut j: usize = 0;
        while j < columns.len()
            invariant
                i < nrows,
                j <= columns@.len(),
                forall|c: int| 0 <= c < columns@.len() ==> (#[trigger] columns@[c])@.len() == nrows,
                row@.len() == j,
                forall|c: int| 0 <= c < j ==> #[trigger] row@[c] == columns@[c]@[i as int],
            decreases columns@.len() - j,
        {
            assert(columns@[j as int]@.len() == nrows);
            row.push(columns[j][i]);
            j = j + 1;
        }
        rows.push(row);
        i = i + 1;
    }
    proof {
        let cols = vec_views(columns@);
        assert forall|m: int, j: int| 0 <= m < nrows && 0 <= j < cols.len() implies rows@[m]@[j] == #[trigger] cols[j][m] by {
            assert(cols[j] == columns@[j]@);
        }
    }
    rows
}

/// The feature values of a dataframe, row by row: for each row, the values of the
/// features of each feature group in turn, read from the first column named after
/// its source. An identity group gives the values of its column, unknown past its
/// end; `normalized` and `bag_of_words` give the feature columns of the other
/// groups, and a bag of words group has one feature per token. `progress` is told
/// of each identity value.
pub fn compute_features_array_value<'a, N: Copy, T, F, B, P>(
    dataframe: &DataFrameView<'a, N>,
    feature_groups: &[FeatureGroup<T>],
    normalized: F,
    bag_of_words: B,
    progress: P,
) -> (r: Vec<Vec<DataFrameValue<'a, N>>>) where
    F: Fn(&NormalizedFeatureGroup<T>, DataFrameColumnView<'a, N>) -> Vec<DataFrameValue<'a, N>>,
    B: Fn(&BagOfWordsFeatureGroup<T>, DataFrameColumnView<'a, N>) -> Vec<Vec<DataFrameValue<'a, N>>>,
    P: Fn(),

    requires
        forall|g: int| 0 <= g < feature_groups@.len() ==> #[trigger] group_computable(dataframe.columns@, feature_groups@[g]),
        forall|g: &NormalizedFeatureGroup<T>, c: DataFrameColumnView<'a, N>| call_requires(normalized, (g, c)),
        forall|g: &BagOfWordsFeatureGroup<T>, c: DataFrameColumnView<'a, N>| call_requires(bag_of_words, (g, c)),
        call_requires(progress, ()),
    ensures
        exists|parts: Seq<Seq<Seq<DataFrameValue<'a, N>>>>|
            #[trigger] is_value_features_of(parts, dataframe.columns@, feature_groups@, normalized, bag_of_words)
                && is_rows_of(r@, parts.flatten(), view_nrows(dataframe.columns@) as int),
{
    let nrows = dataframe.nrows();
    let mut columns: Vec<Vec<DataFrameValue<'a, N>>> = Vec::new();
    let ghost mut parts: Seq<Seq<Seq<DataFrameValue<'a, N>>>> = Seq::empty();
    let mut k: usize = 0;
    while k < feature_groups.len()
        invariant
            k <= feature_groups@.len(),
            nrows == view_nrows(dataframe.columns@),
            forall|g: int|
                0 <= g < feature_groups@.len() ==> #[trigger] group_computable(dataframe.columns@, feature_groups@[g]),
            forall|g: &NormalizedFeatureGroup<T>, c: DataFrameColumnView<'a, N>| call_requires(normalized, (g, c)),
            forall|g: &BagOfWordsFeatureGroup<T>, c: DataFrameColumnView<'a, N>| call_requires(bag_of_words, (g, c)),
            call_requires(progress, ()),
            is_value_features_of(parts, dataframe.columns@, feature_groups@.take(k as int), normalized, bag_of_words),
            vec_views(columns@) == parts.flatten(),
            forall|j: int| 0 <= j < columns@.len() ==> (#[trigger] columns@[j])@.len() == nrows,
        decreases feature_groups@.len() - k,
    {
        assert(group_computable(dataframe.columns@, feature_groups@[k as int]));
        let group_columns = compute_features_array_value_for_feature_group(
            dataframe,
            &feature_groups[k],
            nrows,
            &normalized,
            &bag_of_words,
            &progress,
        );
        let ghost before = columns@;
        let ghost added = vec_views(group_columns@);
        proof {
            lemma_group_value_columns_len(added, dataframe.columns@, feature_groups@[k as int], normalized, bag_of_words);
        }
        let mut group_columns = group_columns;
        columns.append(&mut group_columns);
        proof {
            assert(vec_views(columns@) =~= vec_views(before) + added);
            let next = parts.push(added);
            Seq::lemma_flatten_push(parts, added);
            let groups = feature_groups@.take(k + 1);
            assert(groups.len() == next.len());
            assert forall|g: int| 0 <= g < groups.len() implies #[trigger] is_group_value_output(
                next[g],
                dataframe.columns@,
                groups[g],
                normalized,
                bag_of_words,
            ) by {
                if g < k {
                    assert(groups[g] == feature_groups@.take(k as int)[g]);
                    assert(next[g] == parts[g]);
                } else {
                    assert(groups[g] == feature_groups@[k as int]);
                    assert(next[g] == added);
                }
            }
            assert forall|j: int| 0 <= j < columns@.len() implies (#[trigger] columns@[j])@.len() == nrows by {
                if j < before.len() {
                    assert(columns@[j] == before[j]);
                } else {
                    assert(columns@[j]@ == added[j - before.len()]);
                }
            }
            parts = next;
        }
        k = k + 1;
    }
    assert(feature_groups@.take(k as int) =~= feature_groups@);
    rows_of_columns(&columns, nrows)
}

/// Every feature value column of a feature group has a value for each row.
proof fn lemma_group_value_columns_len<'a, N, T, F, B>(
    out: Seq<Seq<DataFrameValue<'a, N>>>,
    columns: Seq<DataFrameColumnView<'a, N>>,
    g: FeatureGroup<T>,
    normalized: F,
    bag_of_words: B,
) where
    F: Fn(&NormalizedFeatureGroup<T>, DataFrameColumnView<'a, N>) -> Vec<DataFrameValue<'a, N>>,
    B: Fn(&BagOfWordsFeatureGroup<T>, DataFrameColumnView<'a, N>) -> Vec<Vec<DataFrameValue<'a, N>>>,

    requires
        is_group_value_output(out, columns, g, normalized, bag_of_words),
    ensures
        forall|j: int| 0 <= j < out.len() ==> (#[trigger] out[j]).len() == view_nrows(columns),
{
    let i = choose|i: int|
        is_source_column(columns, source_name(g), i) && #[trigger] is_group_value_columns(
            out,
            g,
            columns[i],
            view_nrows(columns) as int,
            normalized,
            bag_of_words,
        );
    match g {
        FeatureGroup::Normalized(s) => {
            let v = choose|v: Vec<DataFrameValue<'a, N>>|
                #[trigger] call_ensures(normalized, (&s, columns[i]), v) && is_padded_to(
                    out[0],
                    v@,
                    view_nrows(columns) as int,
                );
        },
        FeatureGroup::BagOfWords(s) => {
            let v = choose|v: Vec<Vec<DataFrameValue<'a, N>>>|
                #[trigger] call_ensures(bag_of_words, (&s, columns[i]), v) && out.len() == s.tokens@.len()
                    && forall|j: int|
                    0 <= j < out.len() ==> is_padded_to(
                        #[trigger] out[j],
                        if j < v@.len() {
                            v@[j]@
                        } else {
                            Seq::empty()
                        },
                        view_nrows(columns) as int,
                    );
        },
        _ => {},
    }
}

} // verus!
