use tangram::column_stats::{
	compute_column_stats, compute_column_stats_enum, compute_column_stats_for_column, compute_column_stats_number,
	compute_column_stats_text, compute_column_stats_unknown, ColumnStats, EnumColumnStats, NumberColumnStats,
	UnknownColumnStats,
};
use tangram::stats::{compute_stats, StatsProgress};
use std::cell::RefCell;
use tangram::dataset_stats::{
	compute_train_test_dataset_stats, AlphanumericTokenizer, ColumnView, DatasetStats, EnumColumnView, EnumDatasetStats,
	NumberColumnView, NumberDatasetStats, StatsSettings, TextColumnView, TextDatasetStats, UnknownColumnView,
	UnknownDatasetStats,
};
use tangram::histogram::{compare_bytes, Histogram, KeyOrder};
use tangram::histogram_stats::{
	compute_histogram_stats, histogram_min_max, histogram_values_at, HistogramStats, NumberHistogramStats,
};

fn settings() -> StatsSettings {
	StatsSettings {
		text_histogram_max_size: 100,
		number_histogram_max_size: 100,
	}
}

fn strings(values: &[&str]) -> Vec<String> {
	values.iter().map(|s| s.to_string()).collect()
}

/// Splits text into lowercase runs of alphanumeric characters.
fn words(text: &str) -> Vec<String> {
	text.split(|c: char| !c.is_alphanumeric())
		.filter(|w| !w.is_empty())
		.map(|w| w.to_lowercase())
		.collect()
}

/// Pairs each word with the next, joined by a space.
fn word_pairs(words: &[String]) -> Vec<String> {
	words.windows(2).map(|w| format!("{} {}", w[0], w[1])).collect()
}

#[test]
fn test_histogram_add_keeps_keys_sorted_by_bytes() {
	let mut h: Histogram<String> = Histogram::new();
	h.add("b".to_owned(), 2);
	h.add("a".to_owned(), 1);
	h.add("Z".to_owned(), 5);
	h.add("b".to_owned(), 3);
	assert_eq!(h.len(), 3);
	assert_eq!(h.keys(), strings(&["Z", "a", "b"]));
	assert_eq!(h.get(&"b".to_owned()), 5);
	assert_eq!(h.get(&"c".to_owned()), 0);
	assert!(h.contains_key(&"a".to_owned()));
	assert!(!h.contains_key(&"c".to_owned()));
}

#[test]
fn test_histogram_merge_adds_counts() {
	let mut a: Histogram<u32> = Histogram::new();
	a.add(1, 1);
	a.add(5, 2);
	let mut b: Histogram<u32> = Histogram::new();
	b.add(5, 3);
	b.add(7, 4);
	let m = a.merge(&b);
	assert_eq!(m.entries(), &vec![(1, 1), (5, 5), (7, 4)]);
	// Merging is commutative.
	let n = b.merge(&a);
	assert_eq!(n.entries(), m.entries());
}

#[test]
fn test_compare_bytes_is_lexicographic() {
	assert_eq!(compare_bytes(b"abc", b"abd"), KeyOrder::Less);
	assert_eq!(compare_bytes(b"ab", b"abc"), KeyOrder::Less);
	assert_eq!(compare_bytes(b"abc", b"abc"), KeyOrder::Equal);
	assert_eq!(compare_bytes(b"b", b"abc"), KeyOrder::Greater);
	assert_eq!(compare_bytes(b"", b""), KeyOrder::Equal);
}

#[test]
fn test_number_dataset_stats_compute() {
	let data = [Some(3u32), None, Some(1), Some(3)];
	let stats = NumberDatasetStats::compute(&NumberColumnView { data: &data }, &settings());
	assert_eq!(stats.count, 4);
	assert_eq!(stats.valid_count, 3);
	assert_eq!(stats.invalid_count, 1);
	assert_eq!(stats.histogram.entries(), &vec![(1, 1), (3, 2)]);
}

#[test]
fn test_number_dataset_stats_merge_of_parts() {
	let whole = [Some(2u32), None, Some(2), Some(9), None];
	let (left, right) = whole.split_at(2);
	let a = NumberDatasetStats::compute(&NumberColumnView { data: left }, &settings());
	let b = NumberDatasetStats::compute(&NumberColumnView { data: right }, &settings());
	let merged = a.merge(&b);
	let expected = NumberDatasetStats::compute(&NumberColumnView { data: &whole }, &settings());
	assert_eq!(merged.count, expected.count);
	assert_eq!(merged.valid_count, expected.valid_count);
	assert_eq!(merged.invalid_count, expected.invalid_count);
	assert_eq!(merged.histogram.entries(), expected.histogram.entries());
	let swapped = b.merge(&a);
	assert_eq!(swapped.histogram.entries(), merged.histogram.entries());
}

#[test]
fn test_enum_dataset_stats_compute_and_merge() {
	let options = strings(&["red", "green"]);
	let data = [1usize, 0, 2, 1];
	let stats = EnumDatasetStats::compute(
		&EnumColumnView {
			options: &options,
			data: &data,
		},
		&settings(),
	);
	assert_eq!(stats.count, 4);
	assert_eq!(stats.invalid_count, 1);
	assert_eq!(stats.valid_count, 3);
	assert_eq!(stats.histogram, vec![1, 2, 1]);
	let (left, right) = data.split_at(1);
	let a = EnumDatasetStats::compute(
		&EnumColumnView {
			options: &options,
			data: left,
		},
		&settings(),
	);
	let b = EnumDatasetStats::compute(
		&EnumColumnView {
			options: &options,
			data: right,
		},
		&settings(),
	);
	let merged = a.merge(&b);
	assert_eq!(merged.count, stats.count);
	assert_eq!(merged.invalid_count, stats.invalid_count);
	assert_eq!(merged.valid_count, stats.valid_count);
	assert_eq!(merged.histogram, stats.histogram);
	assert_eq!(merged.options, options);
	assert_eq!(b.merge(&a).histogram, stats.histogram);
}

#[test]
fn test_unknown_dataset_stats() {
	let a = UnknownDatasetStats::compute(&UnknownColumnView { len: 3 });
	assert_eq!(a, UnknownDatasetStats { count: 3, invalid_count: 3 });
	let b = UnknownDatasetStats::compute(&UnknownColumnView { len: 4 });
	assert_eq!(a.merge(&b), UnknownDatasetStats { count: 7, invalid_count: 7 });
}

#[test]
fn test_text_dataset_stats_merge() {
	let mut unigrams_a: Histogram<String> = Histogram::new();
	unigrams_a.add("hello".to_owned(), 2);
	let mut unigrams_b: Histogram<String> = Histogram::new();
	unigrams_b.add("hello".to_owned(), 1);
	unigrams_b.add("world".to_owned(), 1);
	let a = TextDatasetStats {
		count: 2,
		tokenizer: AlphanumericTokenizer,
		unigram_histogram: unigrams_a.clone(),
		bigram_histogram: Histogram::new(),
		per_example_histogram: unigrams_a,
	};
	let b = TextDatasetStats {
		count: 1,
		tokenizer: AlphanumericTokenizer,
		unigram_histogram: unigrams_b.clone(),
		bigram_histogram: Histogram::new(),
		per_example_histogram: unigrams_b,
	};
	let merged = a.merge(&b);
	assert_eq!(merged.count, 3);
	assert_eq!(
		merged.unigram_histogram.entries(),
		&vec![("hello".to_owned(), 3), ("world".to_owned(), 1)]
	);
	assert_eq!(merged.bigram_histogram.len(), 0);
	let swapped = b.merge(&a);
	assert_eq!(
		swapped.unigram_histogram.entries(),
		merged.unigram_histogram.entries()
	);
}

#[test]
fn test_dataset_stats_compute_by_column_type() {
	let data = [Some(4u32)];
	match DatasetStats::compute(&ColumnView::Number(NumberColumnView { data: &data }), &settings(), words, word_pairs) {
		DatasetStats::Number(stats) => assert_eq!(stats.valid_count, 1),
		_ => panic!("expected number stats"),
	}
	match DatasetStats::compute(&ColumnView::Unknown(UnknownColumnView { len: 2 }), &settings(), words, word_pairs) {
		DatasetStats::Unknown(stats) => {
			let merged = DatasetStats::Unknown(stats).merge(&DatasetStats::Unknown(stats));
			match merged {
				DatasetStats::Unknown(m) => assert_eq!(m.count, 4),
				_ => panic!("expected unknown stats"),
			}
		}
		_ => panic!("expected unknown stats"),
	}
}

#[test]
fn test_column_stats_from_dataset_stats() {
	let options = strings(&["a", "b"]);
	let data = [0usize, 1, 1, 2];
	let stats = EnumDatasetStats::compute(
		&EnumColumnView {
			options: &options,
			data: &data,
		},
		&settings(),
	);
	let column_stats = compute_column_stats_enum("letters", &stats, &settings());
	assert_eq!(column_stats.column_name, "letters");
	assert_eq!(column_stats.count, 4);
	assert_eq!(column_stats.invalid_count, 1);
	assert_eq!(column_stats.unique_count, 2);
	assert_eq!(
		column_stats.histogram,
		vec![("a".to_owned(), 2), ("b".to_owned(), 1)]
	);
	let unknown = compute_column_stats_unknown(
		"nothing",
		&UnknownDatasetStats {
			count: 5,
			invalid_count: 5,
		},
	);
	assert_eq!(unknown.column_name, "nothing");
	assert_eq!(unknown.count, 5);
}

#[test]
fn test_compute_histogram_stats_by_type() {
	let data = [Some(1u32), Some(1), None];
	let number = DatasetStats::Number(NumberDatasetStats::compute(
		&NumberColumnView { data: &data },
		&settings(),
	));
	let stats = compute_histogram_stats(&number, |histogram: &Histogram<u32>, valid_count: usize| {
		assert_eq!(histogram.len(), 1);
		assert_eq!(valid_count, 2);
		NumberHistogramStats {
			mean: 1.0f32,
			variance: 0.0,
			min: 1.0,
			p25: 1.0,
			p50: 1.0,
			p75: 1.0,
			max: 1.0,
			binned_histogram: None,
		}
	});
	match stats {
		HistogramStats::Number(s) => assert_eq!(s.mean, 1.0),
		_ => panic!("expected number histogram stats"),
	}
	let unknown = DatasetStats::Unknown(UnknownDatasetStats {
		count: 1,
		invalid_count: 1,
	});
	let stats = compute_histogram_stats(&unknown, |_: &Histogram<u32>, _: usize| -> NumberHistogramStats<f32> {
		panic!("not a number column")
	});
	assert!(matches!(stats, HistogramStats::Unknown(_)));
}

#[test]
fn test_compute_train_test_dataset_stats() {
	let train_numbers = [Some(1u32), Some(2), None];
	let test_numbers = [Some(2u32)];
	let options = strings(&["a", "b"]);
	let train_enums = [1usize, 2, 2];
	let test_enums = [0usize];
	let train = [
		ColumnView::Number(NumberColumnView {
			data: &train_numbers,
		}),
		ColumnView::Enum(EnumColumnView {
			options: &options,
			data: &train_enums,
		}),
		ColumnView::Unknown(UnknownColumnView { len: 3 }),
	];
	let test = [
		ColumnView::Number(NumberColumnView { data: &test_numbers }),
		ColumnView::Enum(EnumColumnView {
			options: &options,
			data: &test_enums,
		}),
		ColumnView::Unknown(UnknownColumnView { len: 1 }),
	];
	let (train_stats, test_stats, overall) = compute_train_test_dataset_stats(&train, &test, &settings(), words, word_pairs);
	assert_eq!(train_stats.len(), 3);
	assert_eq!(test_stats.len(), 3);
	match &overall[0] {
		DatasetStats::Number(s) => {
			assert_eq!(s.count, 4);
			assert_eq!(s.invalid_count, 1);
			assert_eq!(s.histogram.entries(), &vec![(1, 1), (2, 2)]);
		}
		_ => panic!("expected number stats"),
	}
	match &overall[1] {
		DatasetStats::Enum(s) => assert_eq!(s.histogram, vec![1, 1, 2]),
		_ => panic!("expected enum stats"),
	}
	match &overall[2] {
		DatasetStats::Unknown(s) => assert_eq!(s.count, 4),
		_ => panic!("expected unknown stats"),
	}
}

fn number_stats(mean: f32, variance: f32) -> NumberHistogramStats<f32> {
	NumberHistogramStats {
		mean,
		variance,
		min: 1.0,
		p25: 1.0,
		p50: 2.0,
		p75: 2.0,
		max: 3.0,
		binned_histogram: None,
	}
}

fn idf(n_examples: usize, document_frequency: usize) -> f32 {
	((1.0 + n_examples as f32) / (1.0 + document_frequency as f32)).ln() + 1.0
}

fn text_stats() -> TextDatasetStats {
	let mut unigrams: Histogram<String> = Histogram::new();
	unigrams.add("apple".to_owned(), 5);
	unigrams.add("pear".to_owned(), 9);
	unigrams.add("plum".to_owned(), 1);
	let mut bigrams: Histogram<String> = Histogram::new();
	bigrams.add("apple pear".to_owned(), 3);
	let mut per_example: Histogram<String> = Histogram::new();
	per_example.add("apple".to_owned(), 4);
	per_example.add("pear".to_owned(), 1);
	per_example.add("plum".to_owned(), 1);
	per_example.add("apple pear".to_owned(), 2);
	TextDatasetStats {
		count: 6,
		tokenizer: AlphanumericTokenizer,
		unigram_histogram: unigrams,
		bigram_histogram: bigrams,
		per_example_histogram: per_example,
	}
}

#[test]
fn test_text_column_stats_keeps_frequent_tokens_in_two_examples() {
	let stats = compute_column_stats_text("review", &text_stats(), &settings(), idf);
	assert_eq!(stats.column_name, "review");
	assert_eq!(stats.count, 6);
	// "pear" is the most frequent but occurs in one example only, as does "plum".
	let tokens: Vec<(String, u64)> = stats.top_tokens.iter().map(|(t, c, _)| (t.clone(), *c)).collect();
	assert_eq!(tokens, vec![("apple".to_owned(), 5), ("apple pear".to_owned(), 3)]);
	assert!((stats.top_tokens[0].2 - ((7.0f32 / 5.0).ln() + 1.0)).abs() < 1e-6);
	assert!((stats.top_tokens[1].2 - ((7.0f32 / 3.0).ln() + 1.0)).abs() < 1e-6);
}

#[test]
fn test_text_column_stats_without_tokens() {
	let stats = TextDatasetStats {
		count: 2,
		tokenizer: AlphanumericTokenizer,
		unigram_histogram: Histogram::new(),
		bigram_histogram: Histogram::new(),
		per_example_histogram: Histogram::new(),
	};
	let stats = compute_column_stats_text("empty", &stats, &settings(), idf);
	assert!(stats.top_tokens.is_empty());
}

#[test]
fn test_number_column_stats_histogram_within_limit() {
	let data = [Some(3u32), Some(1), Some(3), None];
	let dataset_stats = NumberDatasetStats::compute(&NumberColumnView { data: &data }, &settings());
	let histogram_stats = number_stats(2.0, 4.0);
	let stats = compute_column_stats_number("x", &dataset_stats, &histogram_stats, &settings(), |v: f32| v.sqrt());
	assert_eq!(stats.column_name, "x");
	assert_eq!(stats.count, 4);
	assert_eq!(stats.unique_count, 2);
	assert_eq!(stats.invalid_count, 1);
	assert_eq!(stats.histogram, Some(vec![(1, 1), (3, 2)]));
	assert_eq!(stats.mean, 2.0);
	assert_eq!(stats.variance, 4.0);
	assert_eq!(stats.std, 2.0);
	assert_eq!(stats.p50, 2.0);
	assert_eq!(stats.max, 3.0);
	let small = StatsSettings {
		text_histogram_max_size: 100,
		number_histogram_max_size: 1,
	};
	let stats = compute_column_stats_number("x", &dataset_stats, &histogram_stats, &small, |v: f32| v.sqrt());
	assert_eq!(stats.histogram, None);
	assert_eq!(stats.unique_count, 2);
}

#[test]
fn test_unique_values_sorted() {
	let enum_stats: ColumnStats<f32> = ColumnStats::Enum(EnumColumnStats {
		column_name: "color".to_owned(),
		count: 3,
		histogram: vec![("red".to_owned(), 1), ("blue".to_owned(), 2)],
		invalid_count: 0,
		unique_count: 2,
	});
	assert_eq!(enum_stats.column_name(), "color");
	assert_eq!(enum_stats.unique_values(|k: u32| k.to_string()), Some(strings(&["blue", "red"])));
	let number_stats: ColumnStats<f32> = ColumnStats::Number(NumberColumnStats {
		column_name: "n".to_owned(),
		count: 3,
		histogram: Some(vec![(2, 1), (10, 2)]),
		unique_count: 2,
		max: 10.0,
		mean: 7.0,
		min: 2.0,
		invalid_count: 0,
		variance: 1.0,
		std: 1.0,
		p25: 2.0,
		p50: 10.0,
		p75: 10.0,
	});
	// Sorted as text: "10" before "2".
	assert_eq!(number_stats.unique_values(|k: u32| k.to_string()), Some(strings(&["10", "2"])));
	let unknown: ColumnStats<f32> = ColumnStats::Unknown(UnknownColumnStats {
		column_name: "u".to_owned(),
		count: 1,
	});
	assert_eq!(unknown.unique_values(|k: u32| k.to_string()), None);
}

#[test]
fn test_column_stats_for_column_by_type() {
	let data = [Some(1u32), Some(2)];
	let number = DatasetStats::Number(NumberDatasetStats::compute(&NumberColumnView { data: &data }, &settings()));
	let histogram_stats = compute_histogram_stats(&number, |_: &Histogram<u32>, _: usize| number_stats(1.5, 0.25));
	let stats = compute_column_stats_for_column("n", &number, &histogram_stats, &settings(), |v: f32| v.sqrt(), idf);
	match stats {
		ColumnStats::Number(s) => {
			assert_eq!(s.std, 0.5);
			assert_eq!(s.histogram, Some(vec![(1, 1), (2, 1)]));
		}
		_ => panic!("expected number column stats"),
	}
	let text = DatasetStats::Text(text_stats());
	let histogram_stats = compute_histogram_stats(&text, |_: &Histogram<u32>, _: usize| number_stats(0.0, 0.0));
	let stats = compute_column_stats_for_column("t", &text, &histogram_stats, &settings(), |v: f32| v.sqrt(), idf);
	match stats {
		ColumnStats::Text(s) => assert_eq!(s.top_tokens.len(), 2),
		_ => panic!("expected text column stats"),
	}
	let names = strings(&["n", "t"]);
	let number_histogram = compute_histogram_stats(&number, |_: &Histogram<u32>, _: usize| number_stats(1.5, 0.25));
	let all = compute_column_stats(
		&names,
		&[number, text],
		&[number_histogram, histogram_stats],
		&settings(),
		|v: f32| v.sqrt(),
		idf,
	);
	assert_eq!(all.len(), 2);
	assert_eq!(all[0].column_name(), "n");
	assert_eq!(all[1].column_name(), "t");
	// As many column stats as there are names, dataset stats and histogram stats.
	let none = compute_column_stats(&names[..0], &[], &[], &settings(), |v: f32| v.sqrt(), idf);
	assert!(none.is_empty());
}

#[test]
fn test_compute_stats_train_test_overall() {
	let train_numbers = [Some(1u32), Some(2), None];
	let test_numbers = [Some(2u32)];
	let options = strings(&["a", "b"]);
	let train_enums = [1usize, 2, 2];
	let test_enums = [0usize];
	let train = [
		ColumnView::Number(NumberColumnView { data: &train_numbers }),
		ColumnView::Enum(EnumColumnView { options: &options, data: &train_enums }),
	];
	let test = [
		ColumnView::Number(NumberColumnView { data: &test_numbers }),
		ColumnView::Enum(EnumColumnView { options: &options, data: &test_enums }),
	];
	let names = strings(&["n", "e"]);
	let progress = RefCell::new(Vec::new());
	let output = compute_stats(
		&names,
		&train,
		&test,
		&settings(),
		words,
		word_pairs,
		|histogram: &Histogram<u32>, valid_count: usize| number_stats(histogram.len() as f32, valid_count as f32),
		|v: f32| v.sqrt(),
		idf,
		|p: StatsProgress| progress.borrow_mut().push(p),
	);
	assert_eq!(output.train_column_stats.len(), 2);
	assert_eq!(output.test_column_stats.len(), 2);
	assert_eq!(output.overall_column_stats.len(), 2);
	match &output.overall_column_stats[0] {
		ColumnStats::Number(s) => {
			assert_eq!(s.column_name, "n");
			assert_eq!(s.count, 4);
			assert_eq!(s.invalid_count, 1);
			assert_eq!(s.histogram, Some(vec![(1, 1), (2, 2)]));
			assert_eq!(s.mean, 2.0);
			assert_eq!(s.variance, 3.0);
		}
		_ => panic!("expected number column stats"),
	}
	match &output.train_column_stats[1] {
		ColumnStats::Enum(s) => {
			assert_eq!(s.column_name, "e");
			assert_eq!(s.histogram, vec![("a".to_owned(), 1), ("b".to_owned(), 2)]);
		}
		_ => panic!("expected enum column stats"),
	}
	match &output.test_column_stats[1] {
		ColumnStats::Enum(s) => {
			assert_eq!(s.invalid_count, 1);
			assert_eq!(s.histogram, vec![("a".to_owned(), 0), ("b".to_owned(), 0)]);
		}
		_ => panic!("expected enum column stats"),
	}
	// Two columns of four rows; the train histogram of two entries, counted four times.
	assert_eq!(
		progress.into_inner(),
		vec![StatsProgress::DatasetStats(8), StatsProgress::HistogramStats(8)]
	);
}

#[test]
fn test_text_dataset_stats_counts_tokens_and_examples() {
	let data = strings(&["The cat, the hat.", "A cat"]);
	let stats = TextDatasetStats::compute(&TextColumnView { data: &data }, &settings(), words, word_pairs);
	assert_eq!(stats.count, 2);
	assert_eq!(stats.unigram_histogram.get(&"the".to_owned()), 2);
	assert_eq!(stats.unigram_histogram.get(&"cat".to_owned()), 2);
	assert_eq!(stats.unigram_histogram.get(&"a".to_owned()), 1);
	assert_eq!(stats.bigram_histogram.get(&"the cat".to_owned()), 1);
	assert_eq!(stats.bigram_histogram.get(&"a cat".to_owned()), 1);
	assert_eq!(stats.bigram_histogram.len(), 4);
	// "the" occurs twice in the first value but counts once per example.
	assert_eq!(stats.per_example_histogram.get(&"the".to_owned()), 1);
	assert_eq!(stats.per_example_histogram.get(&"cat".to_owned()), 2);
	assert_eq!(stats.per_example_histogram.get(&"cat the".to_owned()), 1);
}

#[test]
fn test_text_stats_of_parts_merge_to_stats_of_whole() {
	let train = strings(&["red fox", "red"]);
	let test = strings(&["fox red fox"]);
	let train_view = [ColumnView::Text(TextColumnView { data: &train })];
	let test_view = [ColumnView::Text(TextColumnView { data: &test })];
	let (_, _, overall) = compute_train_test_dataset_stats(&train_view, &test_view, &settings(), words, word_pairs);
	let whole = strings(&["red fox", "red", "fox red fox"]);
	let expected = TextDatasetStats::compute(&TextColumnView { data: &whole }, &settings(), words, word_pairs);
	match &overall[0] {
		DatasetStats::Text(s) => {
			assert_eq!(s.count, 3);
			assert_eq!(s.unigram_histogram.entries(), expected.unigram_histogram.entries());
			assert_eq!(s.bigram_histogram.entries(), expected.bigram_histogram.entries());
			assert_eq!(s.per_example_histogram.entries(), expected.per_example_histogram.entries());
			assert_eq!(s.unigram_histogram.get(&"fox".to_owned()), 3);
			assert_eq!(s.per_example_histogram.get(&"fox".to_owned()), 2);
		}
		_ => panic!("expected text stats"),
	}
}

#[test]
fn test_compute_stats_text_column() {
	let train = strings(&["big red apple", "red apple", "green apple", "red"]);
	let test = strings(&["red apple"]);
	let train_view = [ColumnView::Text(TextColumnView { data: &train })];
	let test_view = [ColumnView::Text(TextColumnView { data: &test })];
	let names = strings(&["review"]);
	let output = compute_stats(
		&names,
		&train_view,
		&test_view,
		&settings(),
		words,
		word_pairs,
		|_: &Histogram<u32>, _: usize| number_stats(0.0, 0.0),
		|v: f32| v.sqrt(),
		idf,
		|_: StatsProgress| {},
	);
	match &output.overall_column_stats[0] {
		ColumnStats::Text(s) => {
			assert_eq!(s.count, 5);
			let tokens: Vec<(String, u64)> = s.top_tokens.iter().map(|(t, c, _)| (t.clone(), *c)).collect();
			// "apple" and "red" occur four times each, "red apple" three times; the
			// others are in a single example.
			assert_eq!(tokens.len(), 3);
			assert_eq!(tokens[2], ("red apple".to_owned(), 3));
			let mut first_two = vec![tokens[0].clone(), tokens[1].clone()];
			first_two.sort();
			assert_eq!(first_two, vec![("apple".to_owned(), 4), ("red".to_owned(), 4)]);
		}
		_ => panic!("expected text column stats"),
	}
}

#[test]
fn test_histogram_min_max_and_quantile_positions() {
	// The values 10, 10, 10, 20, as the keys of a number histogram.
	let mut histogram: Histogram<u32> = Histogram::new();
	histogram.add(20, 1);
	histogram.add(10, 3);
	assert_eq!(histogram_min_max(&histogram), Some((10, 20)));
	// Positions 0, 1 and 2 are those of the quartiles of four values; position 3
	// is the last value and 4 is past the end.
	assert_eq!(
		histogram_values_at(&histogram, &[0, 1, 2, 3, 4]),
		vec![
			(Some(10), Some(10)),
			(Some(10), Some(10)),
			(Some(10), Some(20)),
			(Some(20), None),
			(None, None),
		]
	);
	let empty: Histogram<u32> = Histogram::new();
	assert_eq!(histogram_min_max(&empty), None);
	assert_eq!(histogram_values_at(&empty, &[0]), vec![(None, None)]);
}
