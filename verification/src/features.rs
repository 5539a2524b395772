//! Feature groups: how the columns of a dataframe become the features a model
//! is trained on.
//!
//! The numbers a feature group was fit with (means, variances, inverse document
//! frequencies) are carried as a type parameter `T`.

use crate::dataframe::{
    is_value_at, is_view_of, DataFrameColumn, DataFrameColumnView, DataFrameValue, EnumDataFrameColumn, EnumDataFrameColumnView,
    NumberDataFrameColumn,
};
use crate::column_stats::{
    stats_column_name, ColumnStatsOutput, EnumColumnStatsOutput, TextColumnStatsOutput, TokenStats,
};
use crate::bag_of_words::{is_tokens_map_of, tokens_map_of};
use crate::dataset_stats::slice_to_strings;
use crate::histogram::Histogram;
use crate::infer::string_views;
use crate::sorting::{sort_strings, sort_token_entries, string_le, token_lt};
use vstd::prelude::*;

verus! {

/// How to turn one column into one or more features.
#[derive(Debug)]
pub enum FeatureGroup<T> {
    Identity(IdentityFeatureGroup),
    Normalized(NormalizedFeatureGroup<T>),
    OneHotEncoded(OneHotEncodedFeatureGroup),
    BagOfWords(BagOfWordsFeatureGroup<T>),
}

/// Passes a column through untouched.
#[derive(Debug)]
pub struct IdentityFeatureGroup {
    pub source_column_name: String,
}

/// Centers and scales a column by the mean and variance it was fit with.
#[derive(Debug)]
pub struct NormalizedFeatureGroup<T> {
    pub source_column_name: String,
    pub mean: T,
    pub variance: T,
}

/// One feature for each option of an enum column, plus one for invalid values.
#[derive(Debug)]
pub struct OneHotEncodedFeatureGroup {
    pub source_column_name: String,
    pub options: Vec<String>,
}

/// One feature per token of a text column, weighted by the token's inverse document frequency.
#[derive(Debug)]
pub struct BagOfWordsFeatureGroup<T> {
    pub source_column_name: String,
    pub tokenizer: BagOfWordsFeatureGroupTokenizer,
    pub tokens: Vec<BagOfWordsFeatureGroupTokensEntry<T>>,
    /// The position of each token in `tokens`.
    pub tokens_map: Histogram<BagOfWordsFeatureGroupToken>,
}

/// A token: one word, or two words in a row.
#[derive(Clone, Debug, PartialEq, Eq)]
pub enum BagOfWordsFeatureGroupToken {
    Unigram(String),
    Bigram(String, String),
}

#[derive(Debug)]
pub struct BagOfWordsFeatureGroupTokensEntry<T> {
    pub token: BagOfWordsFeatureGroupToken,
    pub idf: T,
}

/// How raw text is split into tokens.
#[derive(Debug, Clone, Copy, PartialEq, Eq, Structural)]
pub enum BagOfWordsFeatureGroupTokenizer {
    Alphanumeric,
}

/// Settings for fitting a bag of words feature group.
#[derive(Debug, Clone, Copy)]
pub struct FitBagOfWordsFeatureGroupSettings {
    pub include_unigrams: bool,
    pub include_bigrams: bool,
    pub top_tokens_count: usize,
}

impl Default for FitBagOfWordsFeatureGroupSettings {
    fn default() -> (r: Self)
        ensures
            r.include_unigrams,
            r.include_bigrams,
            r.top_tokens_count == 20000,
    {
        FitBagOfWordsFeatureGroupSettings { include_unigrams: true, include_bigrams: true, top_tokens_count: 20000 }
    }
}

/// The number of features that a feature group produces.
pub open spec fn spec_n_features<T>(g: FeatureGroup<T>) -> int {
    match g {
        FeatureGroup::Identity(_) => 1,
        FeatureGroup::Normalized(_) => 1,
        FeatureGroup::OneHotEncoded(s) => s.options@.len() + 1int,
        FeatureGroup::BagOfWords(s) => s.tokens@.len() as int,
    }
}

impl<T> FeatureGroup<T> {
    /// The number of features this feature group produces.
    pub fn n_features(&self) -> (r: usize)
        requires
            spec_n_features(*self) <= usize::MAX,
        ensures
            r == spec_n_features(*self),
    {
        match self {
            FeatureGroup::Identity(_) => 1,
            FeatureGroup::Normalized(_) => 1,
            FeatureGroup::OneHotEncoded(s) => s.options.len() + 1,
            FeatureGroup::BagOfWords(s) => s.tokens.len(),
        }
    }
}

/// An owned copy of a borrowed name.
fn own_name(name: Option<&str>) -> (r: Option<String>)
    ensures
        match (r, name) {
            (Some(a), Some(b)) => a@ == b@,
            (None, None) => true,
            _ => false,
        },
{
    match name {
        Some(n) => Some(n.to_owned()),
        None => None,
    }
}

/// A copy of a slice of values.
fn copy_values<N: Copy>(values: &[N]) -> (r: Vec<N>)
    ensures
        r@ == values@,
{
    let mut r: Vec<N> = Vec::new();
    let mut i: usize = 0;
    while i < values.len()
        invariant
            i <= values@.len(),
            r@ == values@.subrange(0, i as int),
        decreases values@.len() - i,
    {
        r.push(values[i]);
        assert(r@ =~= values@.subrange(0, i + 1));
        i = i + 1;
    }
    assert(r@ =~= values@);
    r
}

impl IdentityFeatureGroup {
    /// The feature column of a number or enum column: a copy of it, with its name.
    /// `progress` is told the number of values.
    pub fn compute_dataframe<N: Copy, P: Fn(u64)>(&self, column: DataFrameColumnView<N>, progress: P) -> (r:
        DataFrameColumn<N>)
        requires
            column is Number || column is Enum,
            forall|n: u64| call_requires(progress, (n,)),
        ensures
            is_view_of(column, r),
    {
        let r = match column {
            DataFrameColumnView::Number(c) => DataFrameColumn::Number(
                NumberDataFrameColumn { name: own_name(c.name), data: copy_values(c.data) },
            ),
            DataFrameColumnView::Enum(c) => {
                let options = slice_to_strings(c.options);
                DataFrameColumn::Enum(
                    EnumDataFrameColumn { name: own_name(c.name), options, data: copy_values(c.data) },
                )
            },
            _ => {
                assert(false);
                DataFrameColumn::Number(NumberDataFrameColumn { name: None, data: Vec::new() })
            },
        };
        let n = r.len();
        progress(n as u64);
        r
    }

    /// Writes the values of a number or enum column into a column of feature values,
    /// as far as both go, calling `progress` once per value.
    pub fn compute_array_value<'a, N: Copy, P: Fn()>(
        &self,
        features: &mut [DataFrameValue<'a, N>],
        column: DataFrameColumnView<'a, N>,
        progress: P,
    )
        requires
            column is Number || column is Enum,
            call_requires(progress, ()),
        ensures
            final(features)@.len() == old(features)@.len(),
            forall|i: int|
                0 <= i < final(features)@.len() ==> if i < match column {
                    DataFrameColumnView::Number(c) => c.data@.len(),
                    DataFrameColumnView::Enum(c) => c.data@.len(),
                    _ => 0,
                } {
                    is_value_at(#[trigger] final(features)@[i], column, i)
                } else {
                    final(features)@[i] == old(features)@[i]
                },
    {
        let n = match column {
            DataFrameColumnView::Number(c) => c.data.len(),
            DataFrameColumnView::Enum(c) => c.data.len(),
            _ => 0,
        };
        let mut i: usize = 0;
        while i < features.len() && i < n
            invariant
                column is Number || column is Enum,
                call_requires(progress, ()),
                n == match column {
                    DataFrameColumnView::Number(c) => c.data@.len(),
                    DataFrameColumnView::Enum(c) => c.data@.len(),
                    _ => 0,
                },
                i <= n,
                features@.len() == old(features)@.len(),
                i <= features@.len(),
                forall|k: int| 0 <= k < i ==> is_value_at(#[trigger] features@[k], column, k),
                forall|k: int| i <= k < features@.len() ==> #[trigger] features@[k] == old(features)@[k],
            decreases n - i,
        {
            let value = match column {
                DataFrameColumnView::Number(c) => DataFrameValue::Number(c.data[i]),
                DataFrameColumnView::Enum(c) => DataFrameValue::Enum(c.data[i]),
                _ => DataFrameValue::Unknown,
            };
            features[i] = value;
            progress();
            i = i + 1;
        }
    }
}

/// A copy of a token.
pub(crate) fn duplicate_token(t: &BagOfWordsFeatureGroupToken) -> (r: BagOfWordsFeatureGroupToken)
    ensures
        r == *t,
{
    match t {
        BagOfWordsFeatureGroupToken::Unigram(a) => BagOfWordsFeatureGroupToken::Unigram(a.clone()),
        BagOfWordsFeatureGroupToken::Bigram(a, b) => BagOfWordsFeatureGroupToken::Bigram(a.clone(), b.clone()),
    }
}

/// The names of the options of an enum column's histogram, in its order.
pub open spec fn histogram_names(h: Seq<(String, usize)>) -> Seq<Seq<char>> {
    h.map_values(|e: (String, usize)| e.0@)
}

/// The bag of words entries of the top tokens of a text column: each token with its idf.
pub open spec fn token_entries<T>(top: Seq<TokenStats<T>>) -> Seq<BagOfWordsFeatureGroupTokensEntry<T>> {
    top.map_values(|t: TokenStats<T>| BagOfWordsFeatureGroupTokensEntry { token: t.token, idf: t.idf })
}

/// Whether a one hot encoded feature group is the one for an enum column: its
/// options are the column's options, sorted in byte order.
pub open spec fn is_one_hot_for(g: OneHotEncodedFeatureGroup, s: EnumColumnStatsOutput) -> bool {
    &&& g.source_column_name == s.column_name
    &&& string_views(g.options@) == histogram_names(s.histogram@).sort_by(string_le())
}

/// Whether a bag of words feature group is the one for a text column: its tokens
/// are the column's top tokens with their idfs, sorted in token order.
pub open spec fn is_bag_of_words_for<T>(g: BagOfWordsFeatureGroup<T>, s: TextColumnStatsOutput<T>) -> bool {
    &&& g.source_column_name == s.column_name
    &&& g.tokenizer == BagOfWordsFeatureGroupTokenizer::Alphanumeric
    &&& is_tokens_map_of(g.tokens_map, g.tokens@)
    &&& g.tokens@.to_multiset() == token_entries(s.top_tokens@).to_multiset()
    &&& forall|i: int, j: int|
        0 <= i < j < g.tokens@.len() ==> !token_lt(#[trigger] g.tokens@[j].token, #[trigger] g.tokens@[i].token)
}

/// Whether a feature group is the one chosen for a column for a linear model:
/// a number column is normalized with its mean and variance, an enum column one
/// hot encoded, a text column turned into a bag of words.
pub open spec fn is_linear_group_for<T>(g: FeatureGroup<T>, s: ColumnStatsOutput<T>) -> bool {
    match (g, s) {
        (FeatureGroup::Normalized(g), ColumnStatsOutput::Number(s)) => g.source_column_name == s.column_name
            && g.mean == s.mean && g.variance == s.variance,
        (FeatureGroup::OneHotEncoded(g), ColumnStatsOutput::Enum(s)) => is_one_hot_for(g, s),
        (FeatureGroup::BagOfWords(g), ColumnStatsOutput::Text(s)) => is_bag_of_words_for(g, s),
        _ => false,
    }
}

/// Whether a feature group is the one chosen for a column for a tree model: number
/// and enum columns pass through untouched, a text column is turned into a bag of words.
pub open spec fn is_tree_group_for<T>(g: FeatureGroup<T>, s: ColumnStatsOutput<T>) -> bool {
    match (g, s) {
        (FeatureGroup::Identity(g), ColumnStatsOutput::Number(s)) => g.source_column_name == s.column_name,
        (FeatureGroup::Identity(g), ColumnStatsOutput::Enum(s)) => g.source_column_name == s.column_name,
        (FeatureGroup::BagOfWords(g), ColumnStatsOutput::Text(s)) => is_bag_of_words_for(g, s),
        _ => false,
    }
}

/// The columns that get a feature group: all but those of unknown type.
pub open spec fn known_columns<T>(stats: Seq<ColumnStatsOutput<T>>) -> Seq<ColumnStatsOutput<T>> {
    stats.filter(|s: ColumnStatsOutput<T>| !(s is Unknown))
}

proof fn lemma_known_columns_take<T>(s: Seq<ColumnStatsOutput<T>>, k: int)
    requires
        0 <= k < s.len(),
    ensures
        known_columns(s.take(k + 1)) == if s[k] is Unknown {
            known_columns(s.take(k))
        } else {
            known_columns(s.take(k)).push(s[k])
        },
{
    reveal(Seq::filter);
    let t = s.take(k + 1);
    assert(t.drop_last() =~= s.take(k));
    assert(t.last() == s[k]);
}

/// A copy of the name of the column that the stats are of.
fn clone_column_name<T>(s: &ColumnStatsOutput<T>) -> (r: String)
    ensures
        r == stats_column_name(*s),
{
    match s {
        ColumnStatsOutput::Unknown(v) => v.column_name.clone(),
        ColumnStatsOutput::Number(v) => v.column_name.clone(),
        ColumnStatsOutput::Enum(v) => v.column_name.clone(),
        ColumnStatsOutput::Text(v) => v.column_name.clone(),
    }
}

/// The feature group that passes a column through untouched.
fn identity_feature_group_for_column<T>(s: &ColumnStatsOutput<T>) -> (r: FeatureGroup<T>)
    ensures
        r == FeatureGroup::<T>::Identity(IdentityFeatureGroup { source_column_name: stats_column_name(*s) }),
{
    FeatureGroup::Identity(IdentityFeatureGroup { source_column_name: clone_column_name(s) })
}

/// The one hot encoded feature group of an enum column, with its options sorted.
fn one_hot_encoded_feature_group_for_column(s: &EnumColumnStatsOutput) -> (r: OneHotEncodedFeatureGroup)
    ensures
        is_one_hot_for(r, *s),
{
    let mut options: Vec<String> = Vec::new();
    let mut i: usize = 0;
    while i < s.histogram.len()
        invariant
            i <= s.histogram@.len(),
            options@.len() == i,
            string_views(options@) == histogram_names(s.histogram@).take(i as int),
        decreases s.histogram@.len() - i,
    {
        let name = s.histogram[i].0.clone();
        let ghost before = options@;
        options.push(name);
        assert(string_views(options@) =~= histogram_names(s.histogram@).take(i + 1)) by {
            assert forall|j: int| 0 <= j < i + 1 implies #[trigger] string_views(options@)[j] == histogram_names(
                s.histogram@,
            ).take(i + 1)[j] by {
                if j < i {
                    assert(options@[j] == before[j]);
                    assert(string_views(before)[j] == histogram_names(s.histogram@).take(i as int)[j]);
                } else {
                    assert(options@[j] == name);
                }
            }
        }
        i = i + 1;
    }
    assert(histogram_names(s.histogram@).take(i as int) =~= histogram_names(s.histogram@));
    sort_strings(&mut options);
    OneHotEncodedFeatureGroup { source_column_name: s.column_name.clone(), options }
}

/// The bag of words feature group of a text column, with its top tokens sorted.
fn bag_of_words_feature_group_for_column<T: Copy>(s: &TextColumnStatsOutput<T>) -> (r: BagOfWordsFeatureGroup<T>)
    ensures
        is_bag_of_words_for(r, *s),
{
    let mut tokens: Vec<BagOfWordsFeatureGroupTokensEntry<T>> = Vec::new();
    let mut i: usize = 0;
    while i < s.top_tokens.len()
        invariant
            i <= s.top_tokens@.len(),
            tokens@ == token_entries(s.top_tokens@).take(i as int),
        decreases s.top_tokens@.len() - i,
    {
        let entry = BagOfWordsFeatureGroupTokensEntry {
            token: duplicate_token(&s.top_tokens[i].token),
            idf: s.top_tokens[i].idf,
        };
        tokens.push(entry);
        assert(tokens@ =~= token_entries(s.top_tokens@).take(i + 1));
        i = i + 1;
    }
    assert(token_entries(s.top_tokens@).take(i as int) =~= token_entries(s.top_tokens@));
    sort_token_entries(&mut tokens);
    let tokens_map = tokens_map_of(&tokens);
    BagOfWordsFeatureGroup {
        source_column_name: s.column_name.clone(),
        tokenizer: BagOfWordsFeatureGroupTokenizer::Alphanumeric,
        tokens,
        tokens_map,
    }
}

/// The feature groups for a linear model, one for each column of known type, in
/// the order of the columns.
pub fn choose_feature_groups_linear<T: Copy>(column_stats: &[ColumnStatsOutput<T>]) -> (r: Vec<FeatureGroup<T>>)
    ensures
        r@.len() == known_columns(column_stats@).len(),
        forall|i: int| 0 <= i < r@.len() ==> is_linear_group_for(#[trigger] r@[i], known_columns(column_stats@)[i]),
{
    let mut result: Vec<FeatureGroup<T>> = Vec::new();
    let mut k: usize = 0;
    while k < column_stats.len()
        invariant
            k <= column_stats@.len(),
            result@.len() == known_columns(column_stats@.take(k as int)).len(),
            forall|i: int|
                0 <= i < result@.len() ==> is_linear_group_for(
                    #[trigger] result@[i],
                    known_columns(column_stats@.take(k as int))[i],
                ),
        decreases column_stats@.len() - k,
    {
        let ghost before = result@;
        proof {
            lemma_known_columns_take(column_stats@, k as int);
        }
        match &column_stats[k] {
            ColumnStatsOutput::Unknown(_) => {},
            ColumnStatsOutput::Number(s) => {
                result.push(
                    FeatureGroup::Normalized(
                        NormalizedFeatureGroup { source_column_name: s.column_name.clone(), mean: s.mean, variance: s.variance },
                    ),
                );
            },
            ColumnStatsOutput::Enum(s) => {
                result.push(FeatureGroup::OneHotEncoded(one_hot_encoded_feature_group_for_column(s)));
            },
            ColumnStatsOutput::Text(s) => {
                result.push(FeatureGroup::BagOfWords(bag_of_words_feature_group_for_column(s)));
            },
        }
        proof {
            assert forall|i: int| 0 <= i < result@.len() implies is_linear_group_for(
                #[trigger] result@[i],
                known_columns(column_stats@.take(k + 1))[i],
            ) by {
                if i < before.len() {
                    assert(result@[i] == before[i]);
                }
            }
        }
        k = k + 1;
    }
    assert(column_stats@.take(k as int) =~= column_stats@);
    result
}

/// The feature groups for a tree model, one for each column of known type, in
/// the order of the columns.
pub fn choose_feature_groups_tree<T: Copy>(column_stats: &[ColumnStatsOutput<T>]) -> (r: Vec<FeatureGroup<T>>)
    ensures
        r@.len() == known_columns(column_stats@).len(),
        forall|i: int| 0 <= i < r@.len() ==> is_tree_group_for(#[trigger] r@[i], known_columns(column_stats@)[i]),
{
    let mut result: Vec<FeatureGroup<T>> = Vec::new();
    let mut k: usize = 0;
    while k < column_stats.len()
        invariant
            k <= column_stats@.len(),
            result@.len() == known_columns(column_stats@.take(k as int)).len(),
            forall|i: int|
                0 <= i < result@.len() ==> is_tree_group_for(
                    #[trigger] result@[i],
                    known_columns(column_stats@.take(k as int))[i],
                ),
        decreases column_stats@.len() - k,
    {
        let ghost before = result@;
        proof {
            lemma_known_columns_take(column_stats@, k as int);
        }
        match &column_stats[k] {
            ColumnStatsOutput::Unknown(_) => {},
            ColumnStatsOutput::Number(_) => {
                result.push(identity_feature_group_for_column(&column_stats[k]));
            },
            ColumnStatsOutput::Enum(_) => {
                result.push(identity_feature_group_for_column(&column_stats[k]));
            },
            ColumnStatsOutput::Text(s) => {
                result.push(FeatureGroup::BagOfWords(bag_of_words_feature_group_for_column(s)));
            },
        }
        proof {
            assert forall|i: int| 0 <= i < result@.len() implies is_tree_group_for(
                #[trigger] result@[i],
                known_columns(column_stats@.take(k + 1))[i],
            ) by {
                if i < before.len() {
                    assert(result@[i] == before[i]);
                }
            }
        }
        k = k + 1;
    }
    assert(column_stats@.take(k as int) =~= column_stats@);
    result
}

impl OneHotEncodedFeatureGroup {
    /// Fits a one hot encoded feature group to a named enum column: one feature per option.
    pub fn fit<N>(column: DataFrameColumnView<N>) -> (r: Self)
        requires
            column matches DataFrameColumnView::Enum(c) && c.name is Some,
        ensures
            column matches DataFrameColumnView::Enum(c) && r.source_column_name@ == c.name->0@ && r.options@
                == c.options@,
    {
        let column = match column {
            DataFrameColumnView::Enum(c) => c,
            _ => {
                assert(false);
                return OneHotEncodedFeatureGroup { source_column_name: String::new(), options: Vec::new() };
            },
        };
        let name = column.name.unwrap();
        let mut options: Vec<String> = Vec::new();
        let mut i: usize = 0;
        while i < column.options.len()
            invariant
                i <= column.options@.len(),
                options@ == column.options@.subrange(0, i as int),
            decreases column.options@.len() - i,
        {
            options.push(column.options[i].clone());
            assert(options@ =~= column.options@.subrange(0, i + 1));
            i = i + 1;
        }
        assert(options@ =~= column.options@);
        OneHotEncodedFeatureGroup { source_column_name: name.to_owned(), options }
    }

    /// The feature values of `nrows` examples from an enum column, one row per
    /// example: each row has one feature per option plus one, first, for invalid
    /// values; the feature of the example's value (its option index, 0 when invalid)
    /// is `one` and the others are `zero`. Rows past the end of the column are all
    /// `zero`. `progress` is called once per value. The feature values, `f32`s in a
    /// model, are given as `zero` and `one`.
    pub fn compute_array_f32<T: Copy, P: Fn()>(
        &self,
        column: EnumDataFrameColumnView,
        nrows: usize,
        zero: T,
        one: T,
        progress: P,
    ) -> (r: Vec<Vec<T>>)
        requires
            self.options@.len() < usize::MAX,
            forall|i: int| 0 <= i < column.data@.len() && i < nrows ==> #[trigger] column.data@[i] <= self.options@.len(),
            call_requires(progress, ()),
        ensures
            r@.len() == nrows,
            forall|i: int| 0 <= i < nrows ==> (#[trigger] r@[i])@.len() == self.options@.len() + 1,
            forall|i: int, j: int|
                0 <= i < nrows && 0 <= j <= self.options@.len() ==> #[trigger] r@[i]@[j] == if i < column.data@.len()
                    && j == column.data@[i] {
                    one
                } else {
                    zero
                },
    {
        let width = self.options.len() + 1;
        let mut rows: Vec<Vec<T>> = Vec::new();
        let mut i: usize = 0;
        while i < nrows
            invariant
                i <= nrows,
                width == self.options@.len() + 1,
                rows@.len() == i,
                forall|k: int| 0 <= k < column.data@.len() && k < nrows ==> #[trigger] column.data@[k] <= self.options@.len(),
                call_requires(progress, ()),
                forall|k: int| 0 <= k < i ==> (#[trigger] rows@[k])@.len() == width,
                forall|k: int, j: int|
                    0 <= k < i && 0 <= j < width ==> #[trigger] rows@[k]@[j] == if k < column.data@.len() && j
                        == column.data@[k] {
                        one
                    } else {
                        zero
                    },
            decreases nrows - i,
        {
            let mut row: Vec<T> = Vec::new();
            while row.len() < width
                invariant
                    row@.len() <= width,
                    forall|j: int| 0 <= j < row@.len() ==> #[trigger] row@[j] == zero,
                decreases width - row@.len(),
            {
                row.push(zero);
            }
            if i < column.data.len() {
                let value = column.data[i];
                row.set(value, one);
                progress();
            }
            rows.push(row);
            i = i + 1;
        }
        rows
    }
}

/// The text of a token: the word, or the two words with a space between them.
pub open spec fn token_text(t: BagOfWordsFeatureGroupToken) -> Seq<char> {
    match t {
        BagOfWordsFeatureGroupToken::Unigram(a) => a@,
        BagOfWordsFeatureGroupToken::Bigram(a, b) => a@ + " "@ + b@,
    }
}

impl BagOfWordsFeatureGroupToken {
    /// The text of the token.
    pub fn to_string(&self) -> (r: String)
        ensures
            r@ == token_text(*self),
    {
        match self {
            BagOfWordsFeatureGroupToken::Unigram(token) => token.clone(),
            BagOfWordsFeatureGroupToken::Bigram(token_a, token_b) => {
                let mut s = token_a.clone();
                s.append(" ");
                s.append(token_b.as_str());
                s
            },
        }
    }
}

} // verus!
