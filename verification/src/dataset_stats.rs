//! Dataset stats: the counts gathered from one pass over a column, which
//! are merged across parts of a dataset and later turned into column stats.
//!
//! A number column is read as what identifies and orders its values: each finite
//! value is given by a `u32` order key (keys order as the values do, and equal
//! values share a key), and a value that is not finite by `None`.

use crate::histogram::Histogram;
use crate::text_stats::{
    bigram_occurrences, examples_with, is_text_stats_of_values, lemma_text_length_concat, lemma_token_counts_concat,
    text_length, tokenizers_bounded, tokenizes_to, tokens_of_values, unigram_occurrences,
};
use vstd::prelude::*;

verus! {

/// A view of an unknown column: only its length.
#[derive(Clone, Copy, Debug)]
pub struct UnknownColumnView {
    pub len: usize,
}

/// A view of a number column: the order key of each finite value, `None` for the others.
#[derive(Clone, Copy, Debug)]
pub struct NumberColumnView<'a> {
    pub data: &'a [Option<u32>],
}

/// A view of an enum column: each value is 0 when invalid, else one more than the index of its option.
#[derive(Clone, Copy, Debug)]
pub struct EnumColumnView<'a> {
    pub options: &'a [String],
    pub data: &'a [usize],
}

/// A view of a text column: its values.
#[derive(Clone, Copy, Debug)]
pub struct TextColumnView<'a> {
    pub data: &'a [String],
}

/// A view of a column of one of the four types.
#[derive(Clone, Copy, Debug)]
pub enum ColumnView<'a> {
    Unknown(UnknownColumnView),
    Number(NumberColumnView<'a>),
    Enum(EnumColumnView<'a>),
    Text(TextColumnView<'a>),
}

/// The tokenizer that splits text into runs of alphanumeric characters.
#[derive(Clone, Copy, Debug, PartialEq, Eq, Structural)]
pub struct AlphanumericTokenizer;

/// Settings used when computing stats.
#[derive(Clone, Copy, Debug, PartialEq, Eq, Structural)]
pub struct StatsSettings {
    pub text_histogram_max_size: usize,
    pub number_histogram_max_size: usize,
}

/// The stats of a column, of the type of the column.
#[derive(Clone, Debug)]
pub enum DatasetStats {
    Unknown(UnknownDatasetStats),
    Number(NumberDatasetStats),
    Enum(EnumDatasetStats),
    Text(TextDatasetStats),
}

/// Stats for unknown columns.
#[derive(Clone, Copy, Debug, PartialEq, Eq, Structural)]
pub struct UnknownDatasetStats {
    pub count: usize,
    pub invalid_count: usize,
}

/// Stats for number columns.
#[derive(Clone, Debug)]
pub struct NumberDatasetStats {
    /// The total number of values.
    pub count: usize,
    /// The total number of valid values.
    pub valid_count: usize,
    /// The total number of invalid values: values that are not finite.
    pub invalid_count: usize,
    /// The count of each distinct finite value, by order key.
    pub histogram: Histogram<u32>,
}

/// Stats for enum columns.
#[derive(Clone, Debug)]
pub struct EnumDatasetStats {
    /// The total number of values.
    pub count: usize,
    /// The enum variants.
    pub options: Vec<String>,
    /// The total number of valid values.
    pub valid_count: usize,
    /// The total number of invalid values.
    pub invalid_count: usize,
    /// Entry 0 counts the invalid values; entry i counts the values of the i-th option (from 1).
    pub histogram: Vec<usize>,
}

/// Stats for text columns.
#[derive(Clone, Debug)]
pub struct TextDatasetStats {
    /// The total number of values.
    pub count: usize,
    /// The tokenizer used to split text into tokens.
    pub tokenizer: AlphanumericTokenizer,
    /// The total number of occurrences of each unigram token across all examples.
    pub unigram_histogram: Histogram<String>,
    /// The total number of occurrences of each bigram token across all examples.
    pub bigram_histogram: Histogram<String>,
    /// The number of examples with at least one occurrence of each token.
    pub per_example_histogram: Histogram<String>,
}

/// The number of values of a number column that are the finite value with key `k`.
pub open spec fn key_occurrences(data: Seq<Option<u32>>, k: u32) -> nat
    decreases data.len(),
{
    if data.len() == 0 {
        0
    } else {
        key_occurrences(data.drop_last(), k) + if data.last() == Some(k) { 1nat } else { 0nat }
    }
}

/// The number of finite values of a number column.
pub open spec fn finite_count(data: Seq<Option<u32>>) -> nat
    decreases data.len(),
{
    if data.len() == 0 {
        0
    } else {
        finite_count(data.drop_last()) + if data.last() is Some { 1nat } else { 0nat }
    }
}

/// The number of values of an enum column equal to `v`.
pub open spec fn value_occurrences(data: Seq<usize>, v: int) -> nat
    decreases data.len(),
{
    if data.len() == 0 {
        0
    } else {
        value_occurrences(data.drop_last(), v) + if data.last() == v { 1nat } else { 0nat }
    }
}

proof fn lemma_key_occurrences_bounded(data: Seq<Option<u32>>, k: u32)
    ensures
        key_occurrences(data, k) <= data.len(),
        finite_count(data) <= data.len(),
    decreases data.len(),
{
    if data.len() > 0 {
        lemma_key_occurrences_bounded(data.drop_last(), k);
    }
}

proof fn lemma_value_occurrences_bounded(data: Seq<usize>, v: int)
    ensures
        value_occurrences(data, v) <= data.len(),
    decreases data.len(),
{
    if data.len() > 0 {
        lemma_value_occurrences_bounded(data.drop_last(), v);
    }
}

/// Counting a concatenation counts each part.
pub proof fn lemma_key_occurrences_concat(d1: Seq<Option<u32>>, d2: Seq<Option<u32>>, k: u32)
    ensures
        key_occurrences(d1 + d2, k) == key_occurrences(d1, k) + key_occurrences(d2, k),
        finite_count(d1 + d2) == finite_count(d1) + finite_count(d2),
    decreases d2.len(),
{
    if d2.len() == 0 {
        assert(d1 + d2 =~= d1);
    } else {
        assert((d1 + d2).drop_last() =~= d1 + d2.drop_last());
        lemma_key_occurrences_concat(d1, d2.drop_last(), k);
    }
}

/// Counting a concatenation counts each part.
pub proof fn lemma_value_occurrences_concat(d1: Seq<usize>, d2: Seq<usize>, v: int)
    ensures
        value_occurrences(d1 + d2, v) == value_occurrences(d1, v) + value_occurrences(d2, v),
    decreases d2.len(),
{
    if d2.len() == 0 {
        assert(d1 + d2 =~= d1);
    } else {
        assert((d1 + d2).drop_last() =~= d1 + d2.drop_last());
        lemma_value_occurrences_concat(d1, d2.drop_last(), v);
    }
}

/// A copy of a list of strings.
pub(crate) fn clone_strings(v: &Vec<String>) -> (r: Vec<String>)
    ensures
        r@ == v@,
{
    let mut r: Vec<String> = Vec::new();
    let mut i: usize = 0;
    while i < v.len()
        invariant
            i <= v@.len(),
            r@ == v@.subrange(0, i as int),
        decreases v@.len() - i,
    {
        r.push(v[i].clone());
        assert(r@ =~= v@.subrange(0, i + 1));
        i = i + 1;
    }
    assert(r@ =~= v@);
    r
}

pub(crate) fn slice_to_strings(v: &[String]) -> (r: Vec<String>)
    ensures
        r@ == v@,
{
    let mut r: Vec<String> = Vec::new();
    let mut i: usize = 0;
    while i < v.len()
        invariant
            i <= v@.len(),
            r@ == v@.subrange(0, i as int),
        decreases v@.len() - i,
    {
        r.push(v[i].clone());
        assert(r@ =~= v@.subrange(0, i + 1));
        i = i + 1;
    }
    assert(r@ =~= v@);
    r
}

impl UnknownDatasetStats {
    /// The stats of an unknown column: every value is invalid.
    pub fn compute(column: &UnknownColumnView) -> (r: Self)
        ensures
            r.count == column.len,
            r.invalid_count == column.len,
    {
        UnknownDatasetStats { count: column.len, invalid_count: column.len }
    }

    /// Whether the counts of the two stats can be added in a `usize`.
    pub open spec fn can_merge(&self, other: &Self) -> bool {
        &&& self.count + other.count <= usize::MAX
        &&& self.invalid_count + other.invalid_count <= usize::MAX
    }

    /// Whether these are the stats of the two parts together.
    pub open spec fn is_merge_of(&self, a: &Self, b: &Self) -> bool {
        &&& self.count == a.count + b.count
        &&& self.invalid_count == a.invalid_count + b.invalid_count
    }

    /// Merges the stats of two parts of an unknown column.
    pub fn merge(&self, other: &Self) -> (r: Self)
        requires
            self.can_merge(other),
        ensures
            r.is_merge_of(self, other),
    {
        UnknownDatasetStats {
            count: self.count + other.count,
            invalid_count: self.invalid_count + other.invalid_count,
        }
    }
}

impl NumberDatasetStats {
    /// Whether these are the stats of the values `data`.
    pub open spec fn is_stats_of(&self, data: Seq<Option<u32>>) -> bool {
        &&& self.histogram.wf()
        &&& self.count == data.len()
        &&& self.valid_count == finite_count(data)
        &&& self.invalid_count == data.len() - finite_count(data)
        &&& forall|k: u32| #[trigger] self.histogram.count(k) == key_occurrences(data, k)
        &&& forall|k: u32| #[trigger] self.histogram.contains(k) <==> key_occurrences(data, k) > 0
    }

    /// The stats of a number column: how many values there are, how many are
    /// finite and not, and how many times each finite value occurs.
    pub fn compute(column: &NumberColumnView, settings: &StatsSettings) -> (r: Self)
        ensures
            r.is_stats_of(column.data@),
    {
        let data = column.data;
        let mut histogram: Histogram<u32> = Histogram::new();
        let mut valid_count: usize = 0;
        let mut invalid_count: usize = 0;
        let mut i: usize = 0;
        while i < data.len()
            invariant
                i <= data@.len(),
                histogram.wf(),
                valid_count == finite_count(data@.take(i as int)),
                valid_count + invalid_count == i,
                forall|k: u32| #[trigger] histogram.count(k) == key_occurrences(data@.take(i as int), k),
                forall|k: u32| #[trigger] histogram.contains(k) <==> key_occurrences(data@.take(i as int), k) > 0,
            decreases data@.len() - i,
        {
            let ghost before = data@.take(i as int);
            let ghost after = data@.take(i + 1);
            proof {
                assert(after.drop_last() =~= before);
                assert(after.last() == data@[i as int]);
            }
            match data[i] {
                Some(key) => {
                    proof {
                        lemma_key_occurrences_bounded(before, key);
                        assert(histogram.count(key) <= i);
                    }
                    histogram.add(key, 1);
                    valid_count = valid_count + 1;
                    proof {
                        assert forall|k: u32| #[trigger] histogram.count(k) == key_occurrences(after, k) by {
                        }
                        assert forall|k: u32| #[trigger] histogram.contains(k) <==> key_occurrences(after, k) > 0 by {
                        }
                    }
                },
                None => {
                    invalid_count = invalid_count + 1;
                    proof {
                        assert forall|k: u32| #[trigger] histogram.count(k) == key_occurrences(after, k) by {
                        }
                        assert forall|k: u32| #[trigger] histogram.contains(k) <==> key_occurrences(after, k) > 0 by {
                        }
                    }
                },
            }
            i = i + 1;
        }
        assert(data@.take(data@.len() as int) =~= data@);
        NumberDatasetStats { count: data.len(), valid_count, invalid_count, histogram }
    }

    /// Whether the stats can be merged: well-formed histograms and counts whose sums fit in a `usize`.
    pub open spec fn can_merge(&self, other: &Self) -> bool {
        &&& self.histogram.wf()
        &&& other.histogram.wf()
        &&& forall|k: u32| #[trigger] self.histogram.count(k) + #[trigger] other.histogram.count(k) <= usize::MAX
        &&& self.count + other.count <= usize::MAX
        &&& self.valid_count + other.valid_count <= usize::MAX
        &&& self.invalid_count + other.invalid_count <= usize::MAX
    }

    /// Whether these are the stats of the two parts together.
    pub open spec fn is_merge_of(&self, a: &Self, b: &Self) -> bool {
        &&& self.histogram.wf()
        &&& self.count == a.count + b.count
        &&& self.valid_count == a.valid_count + b.valid_count
        &&& self.invalid_count == a.invalid_count + b.invalid_count
        &&& forall|k: u32| #[trigger] self.histogram.count(k) == a.histogram.count(k) + b.histogram.count(k)
        &&& forall|k: u32| #[trigger] self.histogram.contains(k) <==> (a.histogram.contains(k) || b.histogram.contains(k))
    }

    /// Merges the stats of two parts of a number column.
    pub fn merge(&self, other: &Self) -> (r: Self)
        requires
            self.can_merge(other),
        ensures
            r.is_merge_of(self, other),
    {
        NumberDatasetStats {
            count: self.count + other.count,
            valid_count: self.valid_count + other.valid_count,
            invalid_count: self.invalid_count + other.invalid_count,
            histogram: self.histogram.merge(&other.histogram),
        }
    }
}

impl EnumDatasetStats {
    /// Whether these are the stats of the values `data` of an enum column with the given options.
    pub open spec fn is_stats_of(&self, options: Seq<String>, data: Seq<usize>) -> bool {
        &&& self.count == data.len()
        &&& self.options@ == options
        &&& self.histogram@.len() == options.len() + 1
        &&& forall|v: int| 0 <= v < self.histogram@.len() ==> #[trigger] self.histogram@[v] == value_occurrences(data, v)
        &&& self.invalid_count == value_occurrences(data, 0)
        &&& self.valid_count == data.len() - value_occurrences(data, 0)
    }

    /// The stats of an enum column: entry 0 of the histogram counts the invalid
    /// values and entry i the values of the i-th option; the valid count is the
    /// number of values that are not invalid.
    pub fn compute(column: &EnumColumnView, settings: &StatsSettings) -> (r: Self)
        requires
            column.options@.len() < usize::MAX,
            forall|i: int| 0 <= i < column.data@.len() ==> #[trigger] column.data@[i] <= column.options@.len(),
        ensures
            r.is_stats_of(column.options@, column.data@),
    {
        let data = column.data;
        let n = column.options.len() + 1;
        let mut histogram: Vec<usize> = Vec::new();
        while histogram.len() < n
            invariant
                histogram@.len() <= n,
                forall|v: int| 0 <= v < histogram@.len() ==> #[trigger] histogram@[v] == 0,
            decreases n - histogram@.len(),
        {
            histogram.push(0);
        }
        let mut i: usize = 0;
        while i < data.len()
            invariant
                i <= data@.len(),
                histogram@.len() == n,
                n == column.options@.len() + 1,
                forall|j: int| 0 <= j < data@.len() ==> #[trigger] data@[j] <= column.options@.len(),
                forall|v: int| 0 <= v < n ==> #[trigger] histogram@[v] == value_occurrences(data@.take(i as int), v),
            decreases data@.len() - i,
        {
            let ghost before = data@.take(i as int);
            let ghost after = data@.take(i + 1);
            proof {
                assert(after.drop_last() =~= before);
                assert(after.last() == data@[i as int]);
            }
            let value = data[i];
            proof {
                lemma_value_occurrences_bounded(before, value as int);
            }
            let old_count = histogram[value];
            histogram.set(value, old_count + 1);
            i = i + 1;
        }
        assert(data@.take(data@.len() as int) =~= data@);
        let invalid_count = histogram[0];
        proof {
            lemma_value_occurrences_bounded(data@, 0);
        }
        let valid_count = data.len() - invalid_count;
        EnumDatasetStats {
            count: data.len(),
            options: slice_to_strings(column.options),
            histogram,
            invalid_count,
            valid_count,
        }
    }

    /// Whether the counts, and the histogram entries that are added, fit in a `usize` when added.
    pub open spec fn can_merge(&self, other: &Self) -> bool {
        &&& forall|v: int| 0 <= v < self.histogram@.len() && v < other.histogram@.len() ==>
            #[trigger] self.histogram@[v] + #[trigger] other.histogram@[v] <= usize::MAX
        &&& self.count + other.count <= usize::MAX
        &&& self.valid_count + other.valid_count <= usize::MAX
        &&& self.invalid_count + other.invalid_count <= usize::MAX
    }

    /// Whether these are the stats of the two parts together: the counts are added, the
    /// options are those of `a`, and the histograms are added entry by entry as far as
    /// that of `b` goes, beyond which that of `a` is kept.
    pub open spec fn is_merge_of(&self, a: &Self, b: &Self) -> bool {
        &&& self.count == a.count + b.count
        &&& self.valid_count == a.valid_count + b.valid_count
        &&& self.invalid_count == a.invalid_count + b.invalid_count
        &&& self.options@ == a.options@
        &&& self.histogram@.len() == a.histogram@.len()
        &&& forall|v: int| 0 <= v < a.histogram@.len() ==> #[trigger] self.histogram@[v] == if v < b.histogram@.len() {
            a.histogram@[v] + b.histogram@[v]
        } else {
            a.histogram@[v] as int
        }
    }

    /// Merges the stats of two parts of an enum column: the histograms are added
    /// entry by entry, as far as the shorter one goes.
    pub fn merge(&self, other: &Self) -> (r: Self)
        requires
            self.can_merge(other),
        ensures
            r.is_merge_of(self, other),
    {
        let mut histogram: Vec<usize> = Vec::new();
        let mut i: usize = 0;
        while i < self.histogram.len()
            invariant
                i <= self.histogram@.len(),
                histogram@.len() == i,
                forall|v: int| 0 <= v < self.histogram@.len() && v < other.histogram@.len() ==>
                    #[trigger] self.histogram@[v] + #[trigger] other.histogram@[v] <= usize::MAX,
                forall|v: int| 0 <= v < i ==> #[trigger] histogram@[v] == if v < other.histogram@.len() {
                    self.histogram@[v] + other.histogram@[v]
                } else {
                    self.histogram@[v] as int
                },
            decreases self.histogram@.len() - i,
        {
            if i < other.histogram.len() {
                histogram.push(self.histogram[i] + other.histogram[i]);
            } else {
                histogram.push(self.histogram[i]);
            }
            i = i + 1;
        }
        EnumDatasetStats {
            count: self.count + other.count,
            options: clone_strings(&self.options),
            valid_count: self.valid_count + other.valid_count,
            invalid_count: self.invalid_count + other.invalid_count,
            histogram,
        }
    }
}

impl TextDatasetStats {
    /// Whether the stats can be merged: well-formed histograms and counts whose sums fit in a `usize`.
    pub open spec fn can_merge(&self, other: &Self) -> bool {
        &&& self.unigram_histogram.wf()
        &&& self.bigram_histogram.wf()
        &&& self.per_example_histogram.wf()
        &&& other.unigram_histogram.wf()
        &&& other.bigram_histogram.wf()
        &&& other.per_example_histogram.wf()
        &&& self.count + other.count <= usize::MAX
        &&& forall|k: Seq<char>| #[trigger] self.unigram_histogram.count(k) + #[trigger] other.unigram_histogram.count(k) <= usize::MAX
        &&& forall|k: Seq<char>| #[trigger] self.bigram_histogram.count(k) + #[trigger] other.bigram_histogram.count(k) <= usize::MAX
        &&& forall|k: Seq<char>| #[trigger] self.per_example_histogram.count(k) + #[trigger] other.per_example_histogram.count(k) <= usize::MAX
    }

    /// Whether these are the stats of the two parts together: the counts are added, and so
    /// are the counts of each token in each of the three histograms.
    pub open spec fn is_merge_of(&self, a: &Self, b: &Self) -> bool {
        &&& self.count == a.count + b.count
        &&& self.unigram_histogram.wf()
        &&& self.bigram_histogram.wf()
        &&& self.per_example_histogram.wf()
        &&& forall|k: Seq<char>| #[trigger] self.unigram_histogram.count(k) == a.unigram_histogram.count(k) + b.unigram_histogram.count(k)
        &&& forall|k: Seq<char>| #[trigger] self.bigram_histogram.count(k) == a.bigram_histogram.count(k) + b.bigram_histogram.count(k)
        &&& forall|k: Seq<char>| #[trigger] self.per_example_histogram.count(k) == a.per_example_histogram.count(k) + b.per_example_histogram.count(k)
        &&& forall|k: Seq<char>| #[trigger] self.unigram_histogram.contains(k) <==> (a.unigram_histogram.contains(k) || b.unigram_histogram.contains(k))
        &&& forall|k: Seq<char>| #[trigger] self.bigram_histogram.contains(k) <==> (a.bigram_histogram.contains(k) || b.bigram_histogram.contains(k))
        &&& forall|k: Seq<char>| #[trigger] self.per_example_histogram.contains(k) <==> (a.per_example_histogram.contains(k) || b.per_example_histogram.contains(k))
    }

    /// Merges the stats of two parts of a text column.
    pub fn merge(&self, other: &Self) -> (r: Self)
        requires
            self.can_merge(other),
        ensures
            r.is_merge_of(self, other),
    {
        TextDatasetStats {
            count: self.count + other.count,
            tokenizer: AlphanumericTokenizer,
            unigram_histogram: self.unigram_histogram.merge(&other.unigram_histogram),
            bigram_histogram: self.bigram_histogram.merge(&other.bigram_histogram),
            per_example_histogram: self.per_example_histogram.merge(&other.per_example_histogram),
        }
    }
}

impl DatasetStats {
    /// Whether the two stats are of the same type and can be merged.
    pub open spec fn can_merge(&self, other: &Self) -> bool {
        match (self, other) {
            (DatasetStats::Unknown(a), DatasetStats::Unknown(b)) => a.can_merge(&b),
            (DatasetStats::Number(a), DatasetStats::Number(b)) => a.can_merge(&b),
            (DatasetStats::Enum(a), DatasetStats::Enum(b)) => a.can_merge(&b),
            (DatasetStats::Text(a), DatasetStats::Text(b)) => a.can_merge(&b),
            _ => false,
        }
    }

    /// Whether these are the stats of the two parts together, of the same type as both.
    pub open spec fn is_merge_of(&self, a: &Self, b: &Self) -> bool {
        match (self, a, b) {
            (DatasetStats::Unknown(r), DatasetStats::Unknown(a), DatasetStats::Unknown(b)) => r.is_merge_of(&a, &b),
            (DatasetStats::Number(r), DatasetStats::Number(a), DatasetStats::Number(b)) => r.is_merge_of(&a, &b),
            (DatasetStats::Enum(r), DatasetStats::Enum(a), DatasetStats::Enum(b)) => r.is_merge_of(&a, &b),
            (DatasetStats::Text(r), DatasetStats::Text(a), DatasetStats::Text(b)) => r.is_merge_of(&a, &b),
            _ => false,
        }
    }

    /// The stats of a column of a known type. Text is split into tokens by
    /// `tokenize`, and `bigrams` pairs them.
    pub fn compute<F: Fn(&str) -> Vec<String>, B: Fn(&[String]) -> Vec<String>>(
        column: &ColumnView,
        settings: &StatsSettings,
        tokenize: F,
        bigrams: B,
    ) -> (r: Self)
        requires
            computable(*column),
            tokenizers_bounded(tokenize, bigrams),
        ensures
            is_column_stats_of(r, *column, tokenize, bigrams),
    {
        match column {
            ColumnView::Unknown(c) => DatasetStats::Unknown(UnknownDatasetStats::compute(c)),
            ColumnView::Number(c) => DatasetStats::Number(NumberDatasetStats::compute(c, settings)),
            ColumnView::Enum(c) => DatasetStats::Enum(EnumDatasetStats::compute(c, settings)),
            ColumnView::Text(c) => DatasetStats::Text(TextDatasetStats::compute(c, settings, tokenize, bigrams)),
        }
    }

    /// Merges the stats of two parts of a column.
    pub fn merge(&self, other: &Self) -> (r: Self)
        requires
            self.can_merge(other),
        ensures
            r.is_merge_of(self, other),
    {
        match (self, other) {
            (DatasetStats::Unknown(a), DatasetStats::Unknown(b)) => DatasetStats::Unknown(a.merge(b)),
            (DatasetStats::Number(a), DatasetStats::Number(b)) => DatasetStats::Number(a.merge(b)),
            (DatasetStats::Enum(a), DatasetStats::Enum(b)) => DatasetStats::Enum(a.merge(b)),
            (DatasetStats::Text(a), DatasetStats::Text(b)) => DatasetStats::Text(a.merge(b)),
            _ => {
                assert(false);
                DatasetStats::Unknown(UnknownDatasetStats { count: 0, invalid_count: 0 })
            },
        }
    }
}

/// The stats of two parts of a number column can always be merged when the
/// column's length fits in a `usize`, and merging them gives the stats of the
/// whole column.
pub proof fn lemma_number_stats_merge_of_parts(
    a: NumberDatasetStats,
    b: NumberDatasetStats,
    r: NumberDatasetStats,
    d1: Seq<Option<u32>>,
    d2: Seq<Option<u32>>,
)
    requires
        a.is_stats_of(d1),
        b.is_stats_of(d2),
        d1.len() + d2.len() <= usize::MAX,
    ensures
        a.can_merge(&b),
        r.is_merge_of(&a, &b) ==> r.is_stats_of(d1 + d2),
{
    assert forall|k: u32| #[trigger] a.histogram.count(k) + #[trigger] b.histogram.count(k) <= usize::MAX by {
        lemma_key_occurrences_bounded(d1, k);
        lemma_key_occurrences_bounded(d2, k);
    }
    lemma_key_occurrences_bounded(d1, 0);
    lemma_key_occurrences_bounded(d2, 0);
    if r.is_merge_of(&a, &b) {
        assert forall|k: u32| #[trigger] r.histogram.count(k) == key_occurrences(d1 + d2, k) by {
            lemma_key_occurrences_concat(d1, d2, k);
        }
        assert forall|k: u32| #[trigger] r.histogram.contains(k) <==> key_occurrences(d1 + d2, k) > 0 by {
            lemma_key_occurrences_concat(d1, d2, k);
        }
        lemma_key_occurrences_concat(d1, d2, 0);
    }
}

/// The stats of two parts of an enum column can always be merged when the
/// column's length fits in a `usize`, and merging them gives the stats of the
/// whole column.
pub proof fn lemma_enum_stats_merge_of_parts(
    a: EnumDatasetStats,
    b: EnumDatasetStats,
    r: EnumDatasetStats,
    options: Seq<String>,
    d1: Seq<usize>,
    d2: Seq<usize>,
)
    requires
        a.is_stats_of(options, d1),
        b.is_stats_of(options, d2),
        d1.len() + d2.len() <= usize::MAX,
    ensures
        a.can_merge(&b),
        r.is_merge_of(&a, &b) ==> r.is_stats_of(options, d1 + d2),
{
    assert forall|v: int| 0 <= v < a.histogram@.len() && v < b.histogram@.len() implies
        #[trigger] a.histogram@[v] + #[trigger] b.histogram@[v] <= usize::MAX by {
        lemma_value_occurrences_bounded(d1, v);
        lemma_value_occurrences_bounded(d2, v);
    }
    lemma_value_occurrences_bounded(d1, 0);
    lemma_value_occurrences_bounded(d2, 0);
    if r.is_merge_of(&a, &b) {
        assert forall|v: int| 0 <= v < r.histogram@.len() implies #[trigger] r.histogram@[v]
            == value_occurrences(d1 + d2, v) by {
            lemma_value_occurrences_concat(d1, d2, v);
        }
        lemma_value_occurrences_concat(d1, d2, 0);
    }
}

/// Merging the stats of two parts of a number column in either order gives the same stats.
pub proof fn lemma_number_stats_merge_commutes(
    a: NumberDatasetStats,
    b: NumberDatasetStats,
    ab: NumberDatasetStats,
    ba: NumberDatasetStats,
)
    requires
        ab.is_merge_of(&a, &b),
        ba.is_merge_of(&b, &a),
    ensures
        ab.count == ba.count,
        ab.valid_count == ba.valid_count,
        ab.invalid_count == ba.invalid_count,
        forall|k: u32| #[trigger] ab.histogram.count(k) == ba.histogram.count(k),
        forall|k: u32| #[trigger] ab.histogram.contains(k) == ba.histogram.contains(k),
{
}

/// Merging the stats of two parts of a text column in either order gives the same stats.
pub proof fn lemma_text_stats_merge_commutes(
    a: TextDatasetStats,
    b: TextDatasetStats,
    ab: TextDatasetStats,
    ba: TextDatasetStats,
)
    requires
        ab.is_merge_of(&a, &b),
        ba.is_merge_of(&b, &a),
    ensures
        ab.count == ba.count,
        forall|k: Seq<char>| #[trigger] ab.unigram_histogram.count(k) == ba.unigram_histogram.count(k),
        forall|k: Seq<char>| #[trigger] ab.bigram_histogram.count(k) == ba.bigram_histogram.count(k),
        forall|k: Seq<char>| #[trigger] ab.per_example_histogram.count(k) == ba.per_example_histogram.count(k),
{
}

/// Merging the stats of three parts of a text column gives the same counts however the merges are grouped.
pub proof fn lemma_text_stats_merge_associates(
    a: TextDatasetStats,
    b: TextDatasetStats,
    c: TextDatasetStats,
    ab: TextDatasetStats,
    ab_c: TextDatasetStats,
    bc: TextDatasetStats,
    a_bc: TextDatasetStats,
)
    requires
        ab.is_merge_of(&a, &b),
        ab_c.is_merge_of(&ab, &c),
        bc.is_merge_of(&b, &c),
        a_bc.is_merge_of(&a, &bc),
    ensures
        ab_c.count == a_bc.count,
        forall|k: Seq<char>| #[trigger] ab_c.unigram_histogram.count(k) == a_bc.unigram_histogram.count(k),
        forall|k: Seq<char>| #[trigger] ab_c.bigram_histogram.count(k) == a_bc.bigram_histogram.count(k),
        forall|k: Seq<char>| #[trigger] ab_c.per_example_histogram.count(k) == a_bc.per_example_histogram.count(k),
{
    assert forall|k: Seq<char>| #[trigger] ab_c.unigram_histogram.count(k) == a_bc.unigram_histogram.count(k) by {
        assert(ab_c.unigram_histogram.count(k) == ab.unigram_histogram.count(k) + c.unigram_histogram.count(k));
        assert(a_bc.unigram_histogram.count(k) == a.unigram_histogram.count(k) + bc.unigram_histogram.count(k));
    }
    assert forall|k: Seq<char>| #[trigger] ab_c.bigram_histogram.count(k) == a_bc.bigram_histogram.count(k) by {
        assert(ab_c.bigram_histogram.count(k) == ab.bigram_histogram.count(k) + c.bigram_histogram.count(k));
        assert(a_bc.bigram_histogram.count(k) == a.bigram_histogram.count(k) + bc.bigram_histogram.count(k));
    }
    assert forall|k: Seq<char>| #[trigger] ab_c.per_example_histogram.count(k) == a_bc.per_example_histogram.count(k) by {
        assert(ab_c.per_example_histogram.count(k) == ab.per_example_histogram.count(k) + c.per_example_histogram.count(k));
        assert(a_bc.per_example_histogram.count(k) == a.per_example_histogram.count(k) + bc.per_example_histogram.count(k));
    }
}

/// Merging the stats of two parts of an enum column with histograms of the same
/// length in either order gives the same counts.
pub proof fn lemma_enum_stats_merge_commutes(
    a: EnumDatasetStats,
    b: EnumDatasetStats,
    ab: EnumDatasetStats,
    ba: EnumDatasetStats,
)
    requires
        a.histogram@.len() == b.histogram@.len(),
        ab.is_merge_of(&a, &b),
        ba.is_merge_of(&b, &a),
    ensures
        ab.count == ba.count,
        ab.valid_count == ba.valid_count,
        ab.invalid_count == ba.invalid_count,
        ab.histogram@ == ba.histogram@,
{
    assert(ab.histogram@ =~= ba.histogram@);
}


/// Whether a column view can have its stats computed: an enum column's values are
/// its options' values or 0, and a text column's number of characters fits in a `usize`.
pub open spec fn computable(column: ColumnView) -> bool {
    &&& (column matches ColumnView::Enum(c) ==> (c.options@.len() < usize::MAX && forall|i: int|
        0 <= i < c.data@.len() ==> #[trigger] c.data@[i] <= c.options@.len()))
    &&& (column matches ColumnView::Text(c) ==> text_length(c.data@) <= usize::MAX)
}

/// The number of values of a column view.
pub open spec fn column_view_len(column: ColumnView) -> nat {
    match column {
        ColumnView::Unknown(c) => c.len as nat,
        ColumnView::Number(c) => c.data@.len(),
        ColumnView::Enum(c) => c.data@.len(),
        ColumnView::Text(c) => c.data@.len(),
    }
}

/// Whether the stats are those of the values of two views of a column, the values
/// of `a` then those of `b`.
pub open spec fn is_stats_of_parts<F: Fn(&str) -> Vec<String>, B: Fn(&[String]) -> Vec<String>>(
    s: DatasetStats,
    a: ColumnView,
    b: ColumnView,
    tokenize: F,
    bigrams: B,
) -> bool {
    match (s, a, b) {
        (DatasetStats::Unknown(s), ColumnView::Unknown(a), ColumnView::Unknown(b)) => s.count == a.len + b.len
            && s.invalid_count == a.len + b.len,
        (DatasetStats::Number(s), ColumnView::Number(a), ColumnView::Number(b)) => s.is_stats_of(a.data@ + b.data@),
        (DatasetStats::Enum(s), ColumnView::Enum(a), ColumnView::Enum(b)) => s.is_stats_of(a.options@, a.data@ + b.data@),
        (DatasetStats::Text(s), ColumnView::Text(a), ColumnView::Text(b)) => is_text_stats_of_values(
            s,
            a.data@ + b.data@,
            tokenize,
            bigrams,
        ),
        _ => false,
    }
}

/// Whether two views are of the same column: the same type, and for an enum
/// column the same options.
pub open spec fn same_column(a: ColumnView, b: ColumnView) -> bool {
    match (a, b) {
        (ColumnView::Unknown(_), ColumnView::Unknown(_)) => true,
        (ColumnView::Number(_), ColumnView::Number(_)) => true,
        (ColumnView::Enum(a), ColumnView::Enum(b)) => a.options@ == b.options@,
        (ColumnView::Text(_), ColumnView::Text(_)) => true,
        _ => false,
    }
}

/// Whether the stats of two views of a column can be computed and merged: the
/// views are of the same column, and their lengths, and for text their numbers of
/// characters, add up within a `usize`.
pub open spec fn parts_computable(a: ColumnView, b: ColumnView) -> bool {
    &&& computable(a)
    &&& computable(b)
    &&& same_column(a, b)
    &&& column_view_len(a) + column_view_len(b) <= usize::MAX
    &&& (a matches ColumnView::Text(x) && b matches ColumnView::Text(y) ==> text_length(x.data@) + text_length(y.data@)
        <= usize::MAX)
}

/// Whether the stats are those that `DatasetStats::compute` gives for a column.
pub open spec fn is_column_stats_of<F: Fn(&str) -> Vec<String>, B: Fn(&[String]) -> Vec<String>>(
    s: DatasetStats,
    column: ColumnView,
    tokenize: F,
    bigrams: B,
) -> bool {
    match (column, s) {
        (ColumnView::Unknown(c), DatasetStats::Unknown(s)) => s.count == c.len && s.invalid_count == c.len,
        (ColumnView::Number(c), DatasetStats::Number(s)) => s.is_stats_of(c.data@),
        (ColumnView::Enum(c), DatasetStats::Enum(s)) => s.is_stats_of(c.options@, c.data@),
        (ColumnView::Text(c), DatasetStats::Text(s)) => is_text_stats_of_values(s, c.data@, tokenize, bigrams),
        _ => false,
    }
}

/// The stats of two parts of a text column can always be merged when the
/// column's length and number of characters fit in a `usize`, and merging them
/// gives the stats of the whole column.
pub proof fn lemma_text_stats_merge_of_parts<F: Fn(&str) -> Vec<String>, B: Fn(&[String]) -> Vec<String>>(
    a: TextDatasetStats,
    b: TextDatasetStats,
    r: TextDatasetStats,
    d1: Seq<String>,
    d2: Seq<String>,
    tokenize: F,
    bigrams: B,
)
    requires
        is_text_stats_of_values(a, d1, tokenize, bigrams),
        is_text_stats_of_values(b, d2, tokenize, bigrams),
        d1.len() + d2.len() <= usize::MAX,
        text_length(d1) + text_length(d2) <= usize::MAX,
    ensures
        a.can_merge(&b),
        r.is_merge_of(&a, &b) ==> is_text_stats_of_values(r, d1 + d2, tokenize, bigrams),
{
    let ta = choose|t: Seq<(Seq<String>, Seq<String>)>| tokens_of_values(t, d1, tokenize, bigrams) && #[trigger] a.is_stats_of(d1, t);
    let tb = choose|t: Seq<(Seq<String>, Seq<String>)>| tokens_of_values(t, d2, tokenize, bigrams) && #[trigger] b.is_stats_of(d2, t);
    assert(a.is_stats_of(d1, ta));
    assert(b.is_stats_of(d2, tb));
    assert forall|k: Seq<char>| #[trigger] a.unigram_histogram.count(k) + #[trigger] b.unigram_histogram.count(k) <= usize::MAX by {
        assert(a.unigram_histogram.count(k) <= text_length(d1));
        assert(b.unigram_histogram.count(k) <= text_length(d2));
    }
    assert forall|k: Seq<char>| #[trigger] a.bigram_histogram.count(k) + #[trigger] b.bigram_histogram.count(k) <= usize::MAX by {
        assert(a.bigram_histogram.count(k) <= text_length(d1));
        assert(b.bigram_histogram.count(k) <= text_length(d2));
    }
    assert forall|k: Seq<char>| #[trigger] a.per_example_histogram.count(k) + #[trigger] b.per_example_histogram.count(k) <= usize::MAX by {
        assert(a.per_example_histogram.count(k) <= d1.len());
        assert(b.per_example_histogram.count(k) <= d2.len());
    }
    if r.is_merge_of(&a, &b) {
        let t = ta + tb;
        lemma_text_length_concat(d1, d2);
        assert forall|k: Seq<char>| #[trigger] r.unigram_histogram.count(k) == unigram_occurrences(t, k) by {
            lemma_token_counts_concat(ta, tb, k);
        }
        assert forall|k: Seq<char>| #[trigger] r.bigram_histogram.count(k) == bigram_occurrences(t, k) by {
            lemma_token_counts_concat(ta, tb, k);
        }
        assert forall|k: Seq<char>| #[trigger] r.per_example_histogram.count(k) == examples_with(t, k) by {
            lemma_token_counts_concat(ta, tb, k);
        }
        assert forall|i: int| 0 <= i < t.len() implies #[trigger] tokenizes_to(
            tokenize,
            bigrams,
            (d1 + d2)[i]@,
            t[i].0,
            t[i].1,
        ) by {
            if i < ta.len() {
                assert(t[i] == ta[i] && (d1 + d2)[i] == d1[i]);
                assert(tokenizes_to(tokenize, bigrams, d1[i]@, ta[i].0, ta[i].1));
            } else {
                assert(t[i] == tb[i - ta.len()] && (d1 + d2)[i] == d2[i - d1.len()]);
                assert(tokenizes_to(tokenize, bigrams, d2[i - d1.len()]@, tb[i - ta.len()].0, tb[i - ta.len()].1));
            }
        }
        assert forall|k: Seq<char>| #[trigger] r.unigram_histogram.contains(k) <==> unigram_occurrences(t, k) > 0 by {
            lemma_token_counts_concat(ta, tb, k);
        }
        assert forall|k: Seq<char>| #[trigger] r.bigram_histogram.contains(k) <==> bigram_occurrences(t, k) > 0 by {
            lemma_token_counts_concat(ta, tb, k);
        }
        assert forall|k: Seq<char>| #[trigger] r.per_example_histogram.contains(k) <==> examples_with(t, k) > 0 by {
            lemma_token_counts_concat(ta, tb, k);
        }
        assert(r.is_stats_of(d1 + d2, t));
        assert(tokens_of_values(t, d1 + d2, tokenize, bigrams));
    }
}

/// The dataset stats of the columns of the train and the test parts of a dataset,
/// and, for each column, those of the two parts together, merged from them. Text
/// is split into tokens by `tokenize`, and `bigrams` pairs them.
pub fn compute_train_test_dataset_stats<F: Fn(&str) -> Vec<String> + Copy, B: Fn(&[String]) -> Vec<String> + Copy>(
    train: &[ColumnView],
    test: &[ColumnView],
    settings: &StatsSettings,
    tokenize: F,
    bigrams: B,
) -> (r: (Vec<DatasetStats>, Vec<DatasetStats>, Vec<DatasetStats>))
    requires
        train@.len() == test@.len(),
        forall|c: int| 0 <= c < train@.len() ==> #[trigger] parts_computable(train@[c], test@[c]),
        tokenizers_bounded(tokenize, bigrams),
    ensures
        r.0@.len() == train@.len(),
        r.1@.len() == train@.len(),
        r.2@.len() == train@.len(),
        forall|c: int|
            0 <= c < train@.len() ==> {
                &&& is_column_stats_of(#[trigger] r.0@[c], train@[c], tokenize, bigrams)
                &&& is_column_stats_of(r.1@[c], test@[c], tokenize, bigrams)
                &&& r.2@[c].is_merge_of(&r.0@[c], &r.1@[c])
                &&& is_stats_of_parts(r.2@[c], train@[c], test@[c], tokenize, bigrams)
            },
{
    let mut train_stats: Vec<DatasetStats> = Vec::new();
    let mut test_stats: Vec<DatasetStats> = Vec::new();
    let mut overall_stats: Vec<DatasetStats> = Vec::new();
    let mut c: usize = 0;
    while c < train.len()
        invariant
            train@.len() == test@.len(),
            forall|k: int| 0 <= k < train@.len() ==> #[trigger] parts_computable(train@[k], test@[k]),
            tokenizers_bounded(tokenize, bigrams),
            c <= train@.len(),
            train_stats@.len() == c,
            test_stats@.len() == c,
            overall_stats@.len() == c,
            forall|k: int|
                0 <= k < c ==> {
                    &&& is_column_stats_of(#[trigger] train_stats@[k], train@[k], tokenize, bigrams)
                    &&& is_column_stats_of(test_stats@[k], test@[k], tokenize, bigrams)
                    &&& overall_stats@[k].is_merge_of(&train_stats@[k], &test_stats@[k])
                    &&& is_stats_of_parts(overall_stats@[k], train@[k], test@[k], tokenize, bigrams)
                },
        decreases train@.len() - c,
    {
        assert(parts_computable(train@[c as int], test@[c as int]));
        let a = DatasetStats::compute(&train[c], settings, tokenize, bigrams);
        let b = DatasetStats::compute(&test[c], settings, tokenize, bigrams);
        let ghost ga = a;
        let ghost gb = b;
        proof {
            match (ga, gb, train@[c as int], test@[c as int]) {
                (DatasetStats::Number(x), DatasetStats::Number(y), ColumnView::Number(u), ColumnView::Number(v)) => {
                    lemma_number_stats_merge_of_parts(x, y, x, u.data@, v.data@);
                },
                (DatasetStats::Enum(x), DatasetStats::Enum(y), ColumnView::Enum(u), ColumnView::Enum(v)) => {
                    lemma_enum_stats_merge_of_parts(x, y, x, u.options@, u.data@, v.data@);
                },
                (DatasetStats::Text(x), DatasetStats::Text(y), ColumnView::Text(u), ColumnView::Text(v)) => {
                    lemma_text_stats_merge_of_parts(x, y, x, u.data@, v.data@, tokenize, bigrams);
                },
                _ => {},
            }
        }
        let merged = a.merge(&b);
        let ghost gm = merged;
        proof {
            match (gm, ga, gb, train@[c as int], test@[c as int]) {
                (
                    DatasetStats::Number(m),
                    DatasetStats::Number(x),
                    DatasetStats::Number(y),
                    ColumnView::Number(u),
                    ColumnView::Number(v),
                ) => {
                    lemma_number_stats_merge_of_parts(x, y, m, u.data@, v.data@);
                },
                (
                    DatasetStats::Enum(m),
                    DatasetStats::Enum(x),
                    DatasetStats::Enum(y),
                    ColumnView::Enum(u),
                    ColumnView::Enum(v),
                ) => {
                    lemma_enum_stats_merge_of_parts(x, y, m, u.options@, u.data@, v.data@);
                },
                (
                    DatasetStats::Text(m),
                    DatasetStats::Text(x),
                    DatasetStats::Text(y),
                    ColumnView::Text(u),
                    ColumnView::Text(v),
                ) => {
                    lemma_text_stats_merge_of_parts(x, y, m, u.data@, v.data@, tokenize, bigrams);
                },
                _ => {},
            }
        }
        train_stats.push(a);
        test_stats.push(b);
        overall_stats.push(merged);
        c = c + 1;
    }
    (train_stats, test_stats, overall_stats)
}

} // verus!
