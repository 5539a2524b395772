//! Column stats: what the dataset stats of a column are turned into for a model.

use crate::dataset_stats::{
    DatasetStats, EnumDatasetStats, NumberDatasetStats, StatsSettings, TextDatasetStats, UnknownDatasetStats,
};
use crate::histogram_stats::{HistogramStats, NumberHistogramStats};
use crate::features::BagOfWordsFeatureGroupToken;
use crate::histogram::Histogram;
use crate::infer::string_views;
use crate::sorting::{sort_by_count_descending, sort_strings, string_le};
use vstd::prelude::*;

verus! {

/// Stats of an unknown column.
#[derive(Debug)]
pub struct UnknownColumnStats {
    pub column_name: String,
    pub count: u64,
}

/// Stats of an enum column.
#[derive(Debug)]
pub struct EnumColumnStats {
    pub column_name: String,
    pub count: u64,
    /// The count of each option, in the order of the options.
    pub histogram: Vec<(String, usize)>,
    pub invalid_count: usize,
    pub unique_count: usize,
}

/// Whether `r` holds the name of an unknown column and how many values it has.
pub open spec fn is_unknown_column_stats(r: UnknownColumnStats, name: Seq<char>, s: UnknownDatasetStats) -> bool {
    r.column_name@ == name && r.count == s.count
}

/// The stats of an unknown column: its name and how many values it has.
pub fn compute_column_stats_unknown(column_name: &str, dataset_stats: &UnknownDatasetStats) -> (r: UnknownColumnStats)
    ensures
        is_unknown_column_stats(r, column_name@, *dataset_stats),
{
    UnknownColumnStats { column_name: column_name.to_owned(), count: dataset_stats.count as u64 }
}

/// Whether `r` holds the name of an enum column, its counts, its number of
/// options, and each option with its count, as far as both the options and the
/// counts go.
pub open spec fn is_enum_column_stats(r: EnumColumnStats, name: Seq<char>, s: EnumDatasetStats) -> bool {
    &&& r.column_name@ == name
    &&& r.count == s.count
    &&& r.invalid_count == s.invalid_count
    &&& r.unique_count == s.options@.len()
    &&& r.histogram@.len() == if s.histogram@.len() == 0 {
        0
    } else if s.options@.len() < s.histogram@.len() - 1 {
        s.options@.len() as int
    } else {
        s.histogram@.len() - 1
    }
    &&& forall|i: int|
        0 <= i < r.histogram@.len() ==> #[trigger] r.histogram@[i].0@ == s.options@[i]@ && r.histogram@[i].1
            == s.histogram@[i + 1]
}

/// The stats of an enum column: its name, its counts, its number of options, and
/// each option with its count, as far as both the options and the counts go.
pub fn compute_column_stats_enum(
    column_name: &str,
    dataset_stats: &EnumDatasetStats,
    settings: &StatsSettings,
) -> (r: EnumColumnStats)
    ensures
        is_enum_column_stats(r, column_name@, *dataset_stats),
{
    let options = &dataset_stats.options;
    let counts = &dataset_stats.histogram;
    let mut histogram: Vec<(String, usize)> = Vec::new();
    let mut i: usize = 0;
    while i < options.len() && i + 1 < counts.len()
        invariant
            i <= options@.len(),
            counts@.len() == 0 ==> i == 0,
            counts@.len() > 0 ==> i + 1 <= counts@.len(),
            histogram@.len() == i,
            forall|k: int|
                0 <= k < i ==> #[trigger] histogram@[k].0@ == options@[k]@ && histogram@[k].1 == counts@[k + 1],
        decreases options@.len() - i,
    {
        histogram.push((options[i].clone(), counts[i + 1]));
        i = i + 1;
    }
    let ghost h = histogram@;
    let r = EnumColumnStats {
        column_name: column_name.to_owned(),
        count: dataset_stats.count as u64,
        invalid_count: dataset_stats.invalid_count,
        unique_count: options.len(),
        histogram,
    };
    assert(counts@ == dataset_stats.histogram@);
    assert(r.histogram@ == h);
    assert(forall|k: int| 0 <= k < h.len() ==> #[trigger] h[k].0@ == options@[k]@ && h[k].1 == counts@[k + 1]);
    r
}

/// Stats of a number column. Values are given by their order keys; the numbers
/// computed from them are carried as `T`.
#[derive(Debug)]
pub struct NumberColumnStats<T> {
    pub column_name: String,
    pub count: u64,
    /// Each distinct finite value with its count, in increasing order, when there
    /// are no more distinct values than the settings allow.
    pub histogram: Option<Vec<(u32, u64)>>,
    pub unique_count: u64,
    pub max: T,
    pub mean: T,
    pub min: T,
    pub invalid_count: u64,
    pub variance: T,
    pub std: T,
    pub p25: T,
    pub p50: T,
    pub p75: T,
}

/// Whether `r` holds the name of a number column and its counts, its histogram
/// when it has no more distinct values than `settings.number_histogram_max_size`,
/// the histogram stats, and as standard deviation what `sqrt` gives for the variance.
pub open spec fn is_number_column_stats<T, F: Fn(T) -> T>(
    r: NumberColumnStats<T>,
    name: Seq<char>,
    s: NumberDatasetStats,
    h: NumberHistogramStats<T>,
    settings: StatsSettings,
    sqrt: F,
) -> bool {
    &&& r.column_name@ == name
    &&& r.count == s.count
    &&& r.unique_count == s.histogram.spec_entries().len()
    &&& r.invalid_count == s.invalid_count
    &&& match r.histogram {
        Some(v) => {
            &&& s.histogram.spec_entries().len() <= settings.number_histogram_max_size
            &&& v@.len() == s.histogram.spec_entries().len()
            &&& forall|i: int|
                #![trigger v@[i]]
                0 <= i < v@.len() ==> v@[i].0 == s.histogram.spec_entries()[i].0 && v@[i].1
                    == s.histogram.spec_entries()[i].1
        },
        None => s.histogram.spec_entries().len() > settings.number_histogram_max_size,
    }
    &&& r.max == h.max
    &&& r.mean == h.mean
    &&& r.min == h.min
    &&& r.variance == h.variance
    &&& call_ensures(sqrt, (h.variance,), r.std)
    &&& r.p25 == h.p25
    &&& r.p50 == h.p50
    &&& r.p75 == h.p75
}

/// The stats of a number column: its name and counts, its histogram when it has no
/// more distinct values than `settings.number_histogram_max_size`, the histogram
/// stats, and as standard deviation what `sqrt` gives for the variance.
pub fn compute_column_stats_number<T: Copy, F: Fn(T) -> T>(
    column_name: &str,
    dataset_stats: &NumberDatasetStats,
    histogram_stats: &NumberHistogramStats<T>,
    settings: &StatsSettings,
    sqrt: F,
) -> (r: NumberColumnStats<T>)
    requires
        call_requires(sqrt, (histogram_stats.variance,)),
    ensures
        is_number_column_stats(r, column_name@, *dataset_stats, *histogram_stats, *settings, sqrt),
{
    let entries = dataset_stats.histogram.entries();
    let histogram = if entries.len() <= settings.number_histogram_max_size {
        let mut h: Vec<(u32, u64)> = Vec::new();
        let mut i: usize = 0;
        while i < entries.len()
            invariant
                i <= entries@.len(),
                entries@ == dataset_stats.histogram.spec_entries(),
                h@.len() == i,
                forall|k: int| #![trigger h@[k]] 0 <= k < i ==> h@[k].0 == entries@[k].0 && h@[k].1 == entries@[k].1,
            decreases entries@.len() - i,
        {
            h.push((entries[i].0, entries[i].1 as u64));
            i = i + 1;
        }
        assert(entries@.len() <= settings.number_histogram_max_size);
        Some(h)
    } else {
        None
    };
    let std = sqrt(histogram_stats.variance);
    NumberColumnStats {
        column_name: column_name.to_owned(),
        count: dataset_stats.count as u64,
        histogram,
        unique_count: entries.len() as u64,
        max: histogram_stats.max,
        mean: histogram_stats.mean,
        min: histogram_stats.min,
        invalid_count: dataset_stats.invalid_count as u64,
        variance: histogram_stats.variance,
        std,
        p25: histogram_stats.p25,
        p50: histogram_stats.p50,
        p75: histogram_stats.p75,
    }
}

/// How many of the most frequent tokens of a text column are kept.
pub const TOP_TOKENS_COUNT: usize = 20000;

/// The number of examples a token must occur in to be kept.
pub const MIN_DOCUMENT_FREQUENCY: usize = 2;

/// Stats of a text column. The inverse document frequencies are carried as `T`.
#[derive(Debug)]
pub struct TextColumnStats<T> {
    pub column_name: String,
    pub count: u64,
    /// The kept tokens, most frequent first, each with its count and its inverse
    /// document frequency.
    pub top_tokens: Vec<(String, u64, T)>,
}

/// The tokens of the stats with their counts: the unigrams, then the bigrams.
pub open spec fn token_counts(s: TextDatasetStats) -> Seq<(String, usize)> {
    s.unigram_histogram.spec_entries() + s.bigram_histogram.spec_entries()
}

/// Whether `ranked` holds the tokens of the stats with their counts, the most
/// frequent first.
pub open spec fn ranks_tokens(ranked: Seq<(String, usize)>, s: TextDatasetStats) -> bool {
    &&& ranked.to_multiset() == token_counts(s).to_multiset()
    &&& forall|i: int, j: int| 0 <= i < j < ranked.len() ==> #[trigger] ranked[j].1 <= #[trigger] ranked[i].1
}

/// The number of tokens looked at among `n`: all of them, but no more than `TOP_TOKENS_COUNT`.
pub open spec fn top_count(n: nat) -> nat {
    if n < TOP_TOKENS_COUNT {
        n
    } else {
        TOP_TOKENS_COUNT as nat
    }
}

/// The entries of `s`, in order, whose token occurs in at least
/// `MIN_DOCUMENT_FREQUENCY` examples.
pub open spec fn frequent_entries(s: Seq<(String, usize)>, per_example: Histogram<String>) -> Seq<(String, usize)>
    decreases s.len(),
{
    if s.len() == 0 {
        Seq::empty()
    } else {
        let rest = frequent_entries(s.drop_last(), per_example);
        if per_example.count(s.last().0@) >= MIN_DOCUMENT_FREQUENCY {
            rest.push(s.last())
        } else {
            rest
        }
    }
}

/// Whether `top` holds, in order, those of the first `TOP_TOKENS_COUNT` ranked
/// tokens that occur in at least `MIN_DOCUMENT_FREQUENCY` examples, each with its
/// count and what `idf` gives for the number of examples and the token's number
/// of examples.
pub open spec fn is_top_tokens_of<T, F: Fn(usize, usize) -> T>(
    top: Seq<(String, u64, T)>,
    ranked: Seq<(String, usize)>,
    s: TextDatasetStats,
    idf: F,
) -> bool {
    let kept = frequent_entries(ranked.take(top_count(ranked.len()) as int), s.per_example_histogram);
    &&& top.len() == kept.len()
    &&& forall|i: int|
        #![trigger top[i]]
        0 <= i < top.len() ==> top[i].0 == kept[i].0 && top[i].1 == kept[i].1 && call_ensures(
            idf,
            (s.count, s.per_example_histogram.count(kept[i].0@) as usize),
            top[i].2,
        )
}

/// Whether `r` holds the name of a text column, its number of values, and its most
/// frequent tokens, ranked in one of the orders that `ranks_tokens` allows.
pub open spec fn is_text_column_stats<T, F: Fn(usize, usize) -> T>(
    r: TextColumnStats<T>,
    name: Seq<char>,
    s: TextDatasetStats,
    idf: F,
) -> bool {
    &&& r.column_name@ == name
    &&& r.count == s.count
    &&& exists|ranked: Seq<(String, usize)>| ranks_tokens(ranked, s) && is_top_tokens_of(r.top_tokens@, ranked, s, idf)
}

/// The stats of a text column: its name, its number of values, and its most
/// frequent tokens. The unigrams and bigrams are ranked by their counts; of the
/// first `TOP_TOKENS_COUNT`, those that occur in at least `MIN_DOCUMENT_FREQUENCY`
/// examples are kept, with the inverse document frequency that `idf` computes from
/// the number of examples and the token's number of examples. Which of two tokens
/// with the same count ranks first is left open.
pub fn compute_column_stats_text<T, F: Fn(usize, usize) -> T>(
    column_name: &str,
    dataset_stats: &TextDatasetStats,
    settings: &StatsSettings,
    idf: F,
) -> (r: TextColumnStats<T>)
    requires
        dataset_stats.per_example_histogram.wf(),
        forall|n: usize, d: usize| call_requires(idf, (n, d)),
    ensures
        is_text_column_stats(r, column_name@, *dataset_stats, idf),
{
    let unigrams = dataset_stats.unigram_histogram.entries();
    let bigrams = dataset_stats.bigram_histogram.entries();
    let mut ranked: Vec<(String, usize)> = Vec::new();
    let mut i: usize = 0;
    while i < unigrams.len()
        invariant
            i <= unigrams@.len(),
            ranked@ == unigrams@.take(i as int),
        decreases unigrams@.len() - i,
    {
        ranked.push((unigrams[i].0.clone(), unigrams[i].1));
        assert(unigrams@.take(i + 1) =~= unigrams@.take(i as int).push(unigrams@[i as int]));
        i = i + 1;
    }
    assert(unigrams@.take(unigrams@.len() as int) =~= unigrams@);
    let mut j: usize = 0;
    while j < bigrams.len()
        invariant
            j <= bigrams@.len(),
            ranked@ == unigrams@ + bigrams@.take(j as int),
        decreases bigrams@.len() - j,
    {
        ranked.push((bigrams[j].0.clone(), bigrams[j].1));
        assert(unigrams@ + bigrams@.take(j + 1) =~= (unigrams@ + bigrams@.take(j as int)).push(bigrams@[j as int]));
        j = j + 1;
    }
    assert(bigrams@.take(bigrams@.len() as int) =~= bigrams@);
    assert(ranked@ == token_counts(*dataset_stats));
    sort_by_count_descending(&mut ranked);
    let ghost order = ranked@;
    let n: usize = if ranked.len() < TOP_TOKENS_COUNT {
        ranked.len()
    } else {
        TOP_TOKENS_COUNT
    };
    let per_example = &dataset_stats.per_example_histogram;
    let mut top: Vec<(String, u64, T)> = Vec::new();
    let mut k: usize = 0;
    while k < n
        invariant
            n == top_count(order.len()),
            n <= order.len(),
            k <= n,
            ranked@ == order,
            per_example.wf(),
            *per_example == dataset_stats.per_example_histogram,
            forall|a: usize, d: usize| call_requires(idf, (a, d)),
            top@.len() == frequent_entries(order.take(k as int), *per_example).len(),
            forall|m: int|
                #![trigger top@[m]]
                0 <= m < top@.len() ==> top@[m].0 == frequent_entries(order.take(k as int), *per_example)[m].0
                    && top@[m].1 == frequent_entries(order.take(k as int), *per_example)[m].1 && call_ensures(
                    idf,
                    (dataset_stats.count, per_example.count(frequent_entries(order.take(k as int), *per_example)[m].0@) as usize),
                    top@[m].2,
                ),
        decreases n - k,
    {
        let ghost before = frequent_entries(order.take(k as int), *per_example);
        assert(order.take(k + 1).drop_last() =~= order.take(k as int));
        assert(order.take(k + 1).last() == order[k as int]);
        let document_frequency = per_example.get(&ranked[k].0);
        if document_frequency >= MIN_DOCUMENT_FREQUENCY {
            let value = idf(dataset_stats.count, document_frequency);
            top.push((ranked[k].0.clone(), ranked[k].1 as u64, value));
            assert(frequent_entries(order.take(k + 1), *per_example) == before.push(order[k as int]));
        } else {
            assert(frequent_entries(order.take(k + 1), *per_example) == before);
        }
        k = k + 1;
    }
    assert(ranks_tokens(order, *dataset_stats));
    assert(is_top_tokens_of(top@, order, *dataset_stats, idf));
    TextColumnStats { column_name: column_name.to_owned(), count: dataset_stats.count as u64, top_tokens: top }
}

/// The stats of a column, of the column's type.
#[derive(Debug)]
pub enum ColumnStats<T> {
    Unknown(UnknownColumnStats),
    Number(NumberColumnStats<T>),
    Enum(EnumColumnStats),
    Text(TextColumnStats<T>),
}

/// The name of the column that the stats are of.
pub open spec fn column_stats_name<T>(s: ColumnStats<T>) -> String {
    match s {
        ColumnStats::Unknown(v) => v.column_name,
        ColumnStats::Number(v) => v.column_name,
        ColumnStats::Enum(v) => v.column_name,
        ColumnStats::Text(v) => v.column_name,
    }
}

/// The option names of an enum column's histogram, in order.
pub open spec fn enum_histogram_names(h: Seq<(String, usize)>) -> Seq<Seq<char>> {
    h.map_values(|e: (String, usize)| e.0@)
}

/// Whether `texts` holds, in order, what `number_text` gives for each value of the histogram.
pub open spec fn texts_of_values<F: Fn(u32) -> String>(texts: Seq<String>, h: Seq<(u32, u64)>, number_text: F) -> bool {
    &&& texts.len() == h.len()
    &&& forall|i: int| #![trigger texts[i]] 0 <= i < texts.len() ==> call_ensures(number_text, (h[i].0,), texts[i])
}

impl<T> ColumnStats<T> {
    /// The name of the column.
    pub fn column_name(&self) -> (r: &str)
        ensures
            r@ == column_stats_name(*self)@,
    {
        match self {
            ColumnStats::Unknown(v) => v.column_name.as_str(),
            ColumnStats::Number(v) => v.column_name.as_str(),
            ColumnStats::Enum(v) => v.column_name.as_str(),
            ColumnStats::Text(v) => v.column_name.as_str(),
        }
    }

    /// The distinct values of the column as text, in byte order: for an enum column
    /// its option names; for a number column with a histogram what `number_text`
    /// gives for each of its values; `None` for the others.
    pub fn unique_values<F: Fn(u32) -> String>(&self, number_text: F) -> (r: Option<Vec<String>>)
        requires
            forall|k: u32| call_requires(number_text, (k,)),
        ensures
            match (*self, r) {
                (ColumnStats::Enum(s), Some(v)) => string_views(v@) == enum_histogram_names(s.histogram@).sort_by(string_le()),
                (ColumnStats::Number(s), Some(v)) => s.histogram matches Some(h) && exists|texts: Seq<String>|
                    texts_of_values(texts, h@, number_text) && string_views(v@) == string_views(texts).sort_by(string_le()),
                (ColumnStats::Number(s), None) => s.histogram is None,
                (ColumnStats::Unknown(_), None) => true,
                (ColumnStats::Text(_), None) => true,
                _ => false,
            },
    {
        match self {
            ColumnStats::Unknown(_) => None,
            ColumnStats::Text(_) => None,
            ColumnStats::Number(s) => match &s.histogram {
                None => None,
                Some(h) => {
                    let mut values: Vec<String> = Vec::new();
                    let mut i: usize = 0;
                    while i < h.len()
                        invariant
                            i <= h@.len(),
                            forall|k: u32| call_requires(number_text, (k,)),
                            texts_of_values(values@, h@.take(i as int), number_text),
                        decreases h@.len() - i,
                    {
                        let text = number_text(h[i].0);
                        let ghost before = values@;
                        values.push(text);
                        assert forall|m: int| 0 <= m < i + 1 implies #[trigger] call_ensures(
                            number_text,
                            (h@.take(i + 1)[m].0,),
                            values@[m],
                        ) by {
                            if m < i {
                                assert(values@[m] == before[m]);
                                assert(h@.take(i + 1)[m] == h@.take(i as int)[m]);
                            }
                        }
                        i = i + 1;
                    }
                    assert(h@.take(i as int) =~= h@);
                    let ghost texts = values@;
                    sort_strings(&mut values);
                    Some(values)
                },
            },
            ColumnStats::Enum(s) => {
                let mut values: Vec<String> = Vec::new();
                let mut i: usize = 0;
                while i < s.histogram.len()
                    invariant
                        i <= s.histogram@.len(),
                        values@.len() == i,
                        string_views(values@) == enum_histogram_names(s.histogram@).take(i as int),
                    decreases s.histogram@.len() - i,
                {
                    let name = s.histogram[i].0.clone();
                    let ghost before = values@;
                    values.push(name);
                    assert(string_views(values@) =~= enum_histogram_names(s.histogram@).take(i + 1)) by {
                        assert forall|j: int| 0 <= j < i + 1 implies #[trigger] string_views(values@)[j]
                            == enum_histogram_names(s.histogram@).take(i + 1)[j] by {
                            if j < i {
                                assert(values@[j] == before[j]);
                                assert(string_views(before)[j] == enum_histogram_names(s.histogram@).take(i as int)[j]);
                            } else {
                                assert(values@[j] == name);
                            }
                        }
                    }
                    i = i + 1;
                }
                assert(enum_histogram_names(s.histogram@).take(i as int) =~= enum_histogram_names(s.histogram@));
                sort_strings(&mut values);
                Some(values)
            },
        }
    }
}

/// Whether `r` holds the column stats that the dataset stats and histogram stats
/// of a column give, of the column's type.
pub open spec fn is_column_stats_for<T, S: Fn(T) -> T, I: Fn(usize, usize) -> T>(
    r: ColumnStats<T>,
    name: Seq<char>,
    s: DatasetStats,
    h: HistogramStats<T>,
    settings: StatsSettings,
    sqrt: S,
    idf: I,
) -> bool {
    match (s, h, r) {
        (DatasetStats::Unknown(d), _, ColumnStats::Unknown(c)) => is_unknown_column_stats(c, name, d),
        (DatasetStats::Text(d), _, ColumnStats::Text(c)) => is_text_column_stats(c, name, d, idf),
        (DatasetStats::Number(d), HistogramStats::Number(n), ColumnStats::Number(c)) => is_number_column_stats(
            c,
            name,
            d,
            n,
            settings,
            sqrt,
        ),
        (DatasetStats::Enum(d), _, ColumnStats::Enum(c)) => is_enum_column_stats(c, name, d),
        _ => false,
    }
}

/// Whether column stats can be computed from the dataset stats and histogram stats
/// of a column: a number column has number histogram stats, and the example counts
/// of a text column are well formed.
pub open spec fn column_stats_computable<T>(s: DatasetStats, h: HistogramStats<T>) -> bool {
    &&& (s is Number ==> h is Number)
    &&& (s matches DatasetStats::Text(t) ==> t.per_example_histogram.wf())
}

/// The column stats of a column from its dataset stats and histogram stats, of the
/// column's type.
pub fn compute_column_stats_for_column<T: Copy, S: Fn(T) -> T, I: Fn(usize, usize) -> T>(
    column_name: &str,
    dataset_stats: &DatasetStats,
    histogram_stats: &HistogramStats<T>,
    settings: &StatsSettings,
    sqrt: S,
    idf: I,
) -> (r: ColumnStats<T>)
    requires
        column_stats_computable(*dataset_stats, *histogram_stats),
        forall|v: T| call_requires(sqrt, (v,)),
        forall|n: usize, d: usize| call_requires(idf, (n, d)),
    ensures
        is_column_stats_for(r, column_name@, *dataset_stats, *histogram_stats, *settings, sqrt, idf),
{
    match (dataset_stats, histogram_stats) {
        (DatasetStats::Unknown(d), _) => ColumnStats::Unknown(compute_column_stats_unknown(column_name, d)),
        (DatasetStats::Text(d), _) => ColumnStats::Text(compute_column_stats_text(column_name, d, settings, idf)),
        (DatasetStats::Number(d), HistogramStats::Number(n)) => ColumnStats::Number(
            compute_column_stats_number(column_name, d, n, settings, sqrt),
        ),
        (DatasetStats::Enum(d), _) => ColumnStats::Enum(compute_column_stats_enum(column_name, d, settings)),
        (DatasetStats::Number(_), _) => {
            assert(false);
            ColumnStats::Unknown(UnknownColumnStats { column_name: column_name.to_owned(), count: 0 })
        },
    }
}

/// The column stats of each column, from its name, its dataset stats and its
/// histogram stats, for as many columns as all three are given for.
pub fn compute_column_stats<T: Copy, S: Fn(T) -> T, I: Fn(usize, usize) -> T>(
    column_names: &[String],
    dataset_stats: &[DatasetStats],
    histogram_stats: &[HistogramStats<T>],
    settings: &StatsSettings,
    sqrt: S,
    idf: I,
) -> (r: Vec<ColumnStats<T>>)
    requires
        forall|c: int|
            0 <= c < dataset_stats@.len() && c < histogram_stats@.len() ==> #[trigger] column_stats_computable(
                dataset_stats@[c],
                histogram_stats@[c],
            ),
        forall|v: T| call_requires(sqrt, (v,)),
        forall|n: usize, d: usize| call_requires(idf, (n, d)),
    ensures
        r@.len() == vstd::math::min(
            column_names@.len() as int,
            vstd::math::min(dataset_stats@.len() as int, histogram_stats@.len() as int),
        ),
        forall|c: int|
            #![trigger r@[c]]
            0 <= c < r@.len() ==> is_column_stats_for(
                r@[c],
                column_names@[c]@,
                dataset_stats@[c],
                histogram_stats@[c],
                *settings,
                sqrt,
                idf,
            ),
{
    let mut r: Vec<ColumnStats<T>> = Vec::new();
    let mut c: usize = 0;
    while c < column_names.len() && c < dataset_stats.len() && c < histogram_stats.len()
        invariant
            c <= column_names@.len(),
            c <= dataset_stats@.len(),
            c <= histogram_stats@.len(),
            r@.len() == c,
            forall|k: int|
                0 <= k < dataset_stats@.len() && k < histogram_stats@.len() ==> #[trigger] column_stats_computable(
                    dataset_stats@[k],
                    histogram_stats@[k],
                ),
            forall|v: T| call_requires(sqrt, (v,)),
            forall|n: usize, d: usize| call_requires(idf, (n, d)),
            forall|k: int|
                0 <= k < c ==> #[trigger] is_column_stats_for(
                    r@[k],
                    column_names@[k]@,
                    dataset_stats@[k],
                    histogram_stats@[k],
                    *settings,
                    sqrt,
                    idf,
                ),
        decreases column_names@.len() - c,
    {
        assert(column_stats_computable(dataset_stats@[c as int], histogram_stats@[c as int]));
        let stats = compute_column_stats_for_column(
            column_names[c].as_str(),
            &dataset_stats[c],
            &histogram_stats[c],
            settings,
            &sqrt,
            &idf,
        );
        r.push(stats);
        c = c + 1;
    }
    r
}

/// The stats of a column that feature groups are chosen from, of the column's type.
/// The numbers computed from the values (means, variances, quantiles, inverse
/// document frequencies) are carried as a type parameter `T`.
#[derive(Debug)]
pub enum ColumnStatsOutput<T> {
    Unknown(UnknownColumnStatsOutput),
    Number(NumberColumnStatsOutput<T>),
    Enum(EnumColumnStatsOutput),
    Text(TextColumnStatsOutput<T>),
}

#[derive(Debug)]
pub struct UnknownColumnStatsOutput {
    pub column_name: String,
    pub count: usize,
}

#[derive(Debug)]
pub struct NumberColumnStatsOutput<T> {
    pub column_name: String,
    pub count: usize,
    /// Each distinct value with its count, while there are few enough of them.
    pub histogram: Option<Vec<(T, usize)>>,
    pub unique_count: usize,
    pub max: T,
    pub mean: T,
    pub min: T,
    pub invalid_count: usize,
    pub variance: T,
    pub std: T,
    pub p25: T,
    pub p50: T,
    pub p75: T,
}

#[derive(Debug)]
pub struct EnumColumnStatsOutput {
    pub column_name: String,
    pub count: u64,
    /// Each option with the number of its occurrences.
    pub histogram: Vec<(String, usize)>,
    pub invalid_count: usize,
    pub unique_count: usize,
}

/// How the text of a column is split into tokens.
#[derive(Debug, Clone, Copy, PartialEq, Eq, Structural)]
pub enum Tokenizer {
    Alphanumeric,
}

#[derive(Debug)]
pub struct TextColumnStatsOutput<T> {
    pub column_name: String,
    pub count: u64,
    /// The stats of the most frequent tokens.
    pub top_tokens: Vec<TokenStats<T>>,
    pub tokenizer: Tokenizer,
}

/// The stats of one token of a text column.
#[derive(Debug)]
pub struct TokenStats<T> {
    pub token: BagOfWordsFeatureGroupToken,
    /// The number of occurrences of the token in all the values.
    pub count: usize,
    /// The number of values with at least one occurrence of the token.
    pub examples_count: usize,
    /// The inverse document frequency of the token.
    pub idf: T,
}

/// The name of the column that the stats are of.
pub open spec fn stats_column_name<T>(s: ColumnStatsOutput<T>) -> String {
    match s {
        ColumnStatsOutput::Unknown(v) => v.column_name,
        ColumnStatsOutput::Number(v) => v.column_name,
        ColumnStatsOutput::Enum(v) => v.column_name,
        ColumnStatsOutput::Text(v) => v.column_name,
    }
}

impl<T> ColumnStatsOutput<T> {
    /// The name of the column that the stats are of.
    pub fn column_name(&self) -> (r: &str)
        ensures
            r@ == stats_column_name(*self)@,
    {
        match self {
            ColumnStatsOutput::Unknown(v) => v.column_name.as_str(),
            ColumnStatsOutput::Number(v) => v.column_name.as_str(),
            ColumnStatsOutput::Enum(v) => v.column_name.as_str(),
            ColumnStatsOutput::Text(v) => v.column_name.as_str(),
        }
    }
}

} // verus!
