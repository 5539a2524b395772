use tangram::column_stats::{
	ColumnStatsOutput, EnumColumnStatsOutput, NumberColumnStatsOutput, TextColumnStatsOutput,
	TokenStats, Tokenizer, UnknownColumnStatsOutput,
};
use tangram::bag_of_words::tokens_map_of;
use tangram::compute_features::{compute_features_array_value, compute_features_dataframe};
use tangram::dataframe::{
	DataFrameColumn, DataFrameColumnView, DataFrameValue, DataFrameView, EnumDataFrameColumnView,
	NumberDataFrameColumn, NumberDataFrameColumnView, TextDataFrameColumnView,
};
use std::cell::Cell;
use tangram::features::{
	choose_feature_groups_linear, choose_feature_groups_tree, BagOfWordsFeatureGroup,
	BagOfWordsFeatureGroupToken, BagOfWordsFeatureGroupTokenizer, BagOfWordsFeatureGroupTokensEntry, FeatureGroup,
	FitBagOfWordsFeatureGroupSettings, IdentityFeatureGroup, NormalizedFeatureGroup, OneHotEncodedFeatureGroup,
};

fn number(name: &str, mean: f32, variance: f32) -> ColumnStatsOutput<f32> {
	ColumnStatsOutput::Number(NumberColumnStatsOutput {
		column_name: name.to_owned(),
		count: 3,
		histogram: None,
		unique_count: 3,
		max: 3.0,
		mean,
		min: 1.0,
		invalid_count: 0,
		variance,
		std: variance.sqrt(),
		p25: 1.0,
		p50: 2.0,
		p75: 3.0,
	})
}

fn stats() -> Vec<ColumnStatsOutput<f32>> {
	vec![
		ColumnStatsOutput::Unknown(UnknownColumnStatsOutput {
			column_name: "skip".to_owned(),
			count: 3,
		}),
		number("x", 2.0, 0.5),
		ColumnStatsOutput::Enum(EnumColumnStatsOutput {
			column_name: "color".to_owned(),
			count: 3,
			histogram: vec![
				("red".to_owned(), 1),
				("Blue".to_owned(), 1),
				("green".to_owned(), 1),
			],
			invalid_count: 0,
			unique_count: 3,
		}),
		ColumnStatsOutput::Text(TextColumnStatsOutput {
			column_name: "title".to_owned(),
			count: 3,
			top_tokens: vec![
				TokenStats {
					token: BagOfWordsFeatureGroupToken::Bigram("the".to_owned(), "cat".to_owned()),
					count: 1,
					examples_count: 1,
					idf: 2.0,
				},
				TokenStats {
					token: BagOfWordsFeatureGroupToken::Unigram("the".to_owned()),
					count: 3,
					examples_count: 2,
					idf: 1.5,
				},
				TokenStats {
					token: BagOfWordsFeatureGroupToken::Unigram("cat".to_owned()),
					count: 1,
					examples_count: 1,
					idf: 2.0,
				},
			],
			tokenizer: Tokenizer::Alphanumeric,
		}),
	]
}

fn expect_bag_of_words(group: &FeatureGroup<f32>) {
	match group {
		FeatureGroup::BagOfWords(g) => {
			assert_eq!(g.source_column_name, "title");
			let tokens: Vec<String> = g.tokens.iter().map(|t| t.token.to_string()).collect();
			assert_eq!(tokens, vec!["cat", "the", "the cat"]);
			assert_eq!(g.tokens[1].idf, 1.5);
			assert_eq!(g.tokens_map.len(), 3);
			for (i, entry) in g.tokens.iter().enumerate() {
				assert_eq!(g.tokens_map.get(&entry.token), i);
			}
		}
		_ => panic!("expected a bag of words feature group"),
	}
}

#[test]
fn test_choose_feature_groups_linear() {
	let groups = choose_feature_groups_linear(&stats());
	assert_eq!(groups.len(), 3);
	match &groups[0] {
		FeatureGroup::Normalized(g) => {
			assert_eq!(g.source_column_name, "x");
			assert_eq!(g.mean, 2.0);
			assert_eq!(g.variance, 0.5);
		}
		_ => panic!("expected a normalized feature group"),
	}
	match &groups[1] {
		FeatureGroup::OneHotEncoded(g) => {
			assert_eq!(g.source_column_name, "color");
			// Sorted by bytes: upper case first.
			assert_eq!(g.options, vec!["Blue", "green", "red"]);
		}
		_ => panic!("expected a one hot encoded feature group"),
	}
	expect_bag_of_words(&groups[2]);
	assert_eq!(groups[1].n_features(), 4);
	assert_eq!(groups[2].n_features(), 3);
}

#[test]
fn test_choose_feature_groups_tree() {
	let groups = choose_feature_groups_tree(&stats());
	assert_eq!(groups.len(), 3);
	match (&groups[0], &groups[1]) {
		(FeatureGroup::Identity(a), FeatureGroup::Identity(b)) => {
			assert_eq!(a.source_column_name, "x");
			assert_eq!(b.source_column_name, "color");
		}
		_ => panic!("expected identity feature groups"),
	}
	expect_bag_of_words(&groups[2]);
	assert_eq!(stats()[1].column_name(), "x");
	assert!(choose_feature_groups_tree::<f32>(&[]).is_empty());
}

/// Splits text into lowercase runs of alphanumeric characters.
fn words(text: &str) -> Vec<String> {
	text.split(|c: char| !c.is_alphanumeric())
		.filter(|w| !w.is_empty())
		.map(|w| w.to_lowercase())
		.collect()
}

fn idf(n_examples: usize, examples_count: usize) -> f32 {
	((1.0 + n_examples as f32) / (1.0 + examples_count as f32)).ln() + 1.0
}

fn unigram(w: &str) -> BagOfWordsFeatureGroupToken {
	BagOfWordsFeatureGroupToken::Unigram(w.to_owned())
}

fn bigram(a: &str, b: &str) -> BagOfWordsFeatureGroupToken {
	BagOfWordsFeatureGroupToken::Bigram(a.to_owned(), b.to_owned())
}

#[test]
fn test_bag_of_words_fit_book_titles() {
	let titles = vec![
		"The Little Prince".to_owned(),
		"Stuart Little".to_owned(),
		"The Cat in the Hat".to_owned(),
	];
	let column: DataFrameColumnView<f32> = DataFrameColumnView::Text(TextDataFrameColumnView {
		name: Some("book_titles"),
		data: &titles,
	});
	let group = BagOfWordsFeatureGroup::fit(column, FitBagOfWordsFeatureGroupSettings::default(), words, idf);
	assert_eq!(group.source_column_name, "book_titles");
	assert_eq!(group.tokenizer, BagOfWordsFeatureGroupTokenizer::Alphanumeric);
	// 7 distinct words, 7 distinct pairs of words in a row.
	assert_eq!(group.tokens.len(), 14);
	// "the" occurs three times in two titles, "little" twice in two; every other token once.
	assert_eq!(group.tokens[0].token, unigram("the"));
	assert_eq!(group.tokens[1].token, unigram("little"));
	assert_eq!(group.tokens[0].idf, idf(3, 2));
	assert_eq!(group.tokens[1].idf, idf(3, 2));
	let rest: Vec<BagOfWordsFeatureGroupToken> = group.tokens[2..].iter().map(|e| e.token.clone()).collect();
	for token in [
		unigram("prince"),
		unigram("stuart"),
		unigram("cat"),
		unigram("in"),
		unigram("hat"),
		bigram("the", "little"),
		bigram("little", "prince"),
		bigram("stuart", "little"),
		bigram("the", "cat"),
		bigram("cat", "in"),
		bigram("in", "the"),
		bigram("the", "hat"),
	] {
		assert!(rest.contains(&token), "missing {:?}", token);
	}
	for entry in &group.tokens[2..] {
		assert_eq!(entry.idf, idf(3, 1));
	}
	// The tokens map gives each token its position.
	assert_eq!(group.tokens_map.len(), 14);
	for (i, entry) in group.tokens.iter().enumerate() {
		assert_eq!(group.tokens_map.get(&entry.token), i);
	}
}

#[test]
fn test_tokens_map_keeps_last_position() {
	let tokens = vec![
		BagOfWordsFeatureGroupTokensEntry { token: unigram("a"), idf: 1.0f32 },
		BagOfWordsFeatureGroupTokensEntry { token: unigram("b"), idf: 1.0 },
		BagOfWordsFeatureGroupTokensEntry { token: unigram("a"), idf: 1.0 },
	];
	let map = tokens_map_of(&tokens);
	assert_eq!(map.len(), 2);
	assert_eq!(map.get(&unigram("a")), 2);
	assert_eq!(map.get(&unigram("b")), 1);
	assert!(!map.contains_key(&unigram("c")));
}

#[test]
fn test_bag_of_words_fit_keeps_top_tokens() {
	let values = vec!["a b a".to_owned(), "a".to_owned()];
	let column: DataFrameColumnView<f32> = DataFrameColumnView::Text(TextDataFrameColumnView {
		name: Some("t"),
		data: &values,
	});
	let settings = FitBagOfWordsFeatureGroupSettings {
		include_unigrams: true,
		include_bigrams: true,
		top_tokens_count: 1,
	};
	let group = BagOfWordsFeatureGroup::fit(column, settings, words, idf);
	assert_eq!(group.tokens.len(), 1);
	assert_eq!(group.tokens[0].token, unigram("a"));
	assert_eq!(group.tokens[0].idf, idf(2, 2));
}

#[test]
fn test_compute_features_dataframe_by_group() {
	let numbers = [1.0f32, 2.0, 3.0];
	let other_numbers = [9.0f32, 9.0, 9.0];
	let options = vec!["a".to_owned(), "b".to_owned()];
	let enums = [1usize, 0, 2];
	let view = DataFrameView {
		columns: vec![
			DataFrameColumnView::Number(NumberDataFrameColumnView { name: Some("x"), data: &numbers }),
			DataFrameColumnView::Enum(EnumDataFrameColumnView { name: Some("e"), options: &options, data: &enums }),
			DataFrameColumnView::Number(NumberDataFrameColumnView { name: Some("x"), data: &other_numbers }),
		],
	};
	let groups: Vec<FeatureGroup<f32>> = vec![
		FeatureGroup::Identity(IdentityFeatureGroup { source_column_name: "e".to_owned() }),
		FeatureGroup::Normalized(NormalizedFeatureGroup { source_column_name: "x".to_owned(), mean: 2.0, variance: 1.0 }),
		FeatureGroup::Identity(IdentityFeatureGroup { source_column_name: "x".to_owned() }),
	];
	let reported = Cell::new(0u64);
	let features = compute_features_dataframe(
		&view,
		&groups,
		|g: &NormalizedFeatureGroup<f32>, column: DataFrameColumnView<f32>| match column {
			DataFrameColumnView::Number(c) => DataFrameColumn::Number(NumberDataFrameColumn::new(
				c.name.map(|n| n.to_owned()),
				c.data.iter().map(|v| (v - g.mean) / g.variance.sqrt()).collect(),
			)),
			_ => panic!("expected a number column"),
		},
		|_: &BagOfWordsFeatureGroup<f32>, _: DataFrameColumnView<f32>| Vec::new(),
		|n: u64| reported.set(reported.get() + n),
	);
	assert_eq!(features.columns.len(), 3);
	match &features.columns[0] {
		DataFrameColumn::Enum(c) => {
			assert_eq!(c.data, vec![1, 0, 2]);
			assert_eq!(c.name, Some("e".to_owned()));
		}
		_ => panic!("expected an enum column"),
	}
	// The first column named "x" is read, not the later one.
	match &features.columns[1] {
		DataFrameColumn::Number(c) => assert_eq!(c.data, vec![-1.0, 0.0, 1.0]),
		_ => panic!("expected a number column"),
	}
	match &features.columns[2] {
		DataFrameColumn::Number(c) => assert_eq!(c.data, vec![1.0, 2.0, 3.0]),
		_ => panic!("expected a number column"),
	}
	// Each identity column reports one step.
	assert_eq!(reported.get(), 2);
}

fn describe(value: &DataFrameValue<f32>) -> String {
	match value {
		DataFrameValue::Unknown => "unknown".to_owned(),
		DataFrameValue::Number(n) => format!("number {}", n),
		DataFrameValue::Enum(e) => format!("enum {}", e),
		DataFrameValue::Text(t) => format!("text {}", t),
	}
}

#[test]
fn test_compute_features_array_value_rows() {
	let numbers = [1.0f32, 2.0, 3.0];
	let options = vec!["a".to_owned(), "b".to_owned()];
	let enums = [1usize, 0];
	let titles = vec!["the cat".to_owned(), "a dog".to_owned(), "the dog".to_owned()];
	let view = DataFrameView {
		columns: vec![
			DataFrameColumnView::Number(NumberDataFrameColumnView { name: Some("x"), data: &numbers }),
			DataFrameColumnView::Enum(EnumDataFrameColumnView { name: Some("e"), options: &options, data: &enums }),
			DataFrameColumnView::Text(TextDataFrameColumnView { name: Some("title"), data: &titles }),
		],
	};
	let tokens = vec![
		BagOfWordsFeatureGroupTokensEntry { token: BagOfWordsFeatureGroupToken::Unigram("the".to_owned()), idf: 1.0 },
		BagOfWordsFeatureGroupTokensEntry { token: BagOfWordsFeatureGroupToken::Unigram("dog".to_owned()), idf: 1.0 },
	];
	let groups: Vec<FeatureGroup<f32>> = vec![
		FeatureGroup::Identity(IdentityFeatureGroup { source_column_name: "e".to_owned() }),
		FeatureGroup::Normalized(NormalizedFeatureGroup { source_column_name: "x".to_owned(), mean: 2.0, variance: 1.0 }),
		FeatureGroup::BagOfWords(BagOfWordsFeatureGroup {
			source_column_name: "title".to_owned(),
			tokenizer: BagOfWordsFeatureGroupTokenizer::Alphanumeric,
			tokens_map: tokens_map_of(&tokens),
			tokens,
		}),
	];
	let reported = Cell::new(0u64);
	let rows = compute_features_array_value(
		&view,
		&groups,
		|g: &NormalizedFeatureGroup<f32>, column: DataFrameColumnView<f32>| match column {
			DataFrameColumnView::Number(c) => c.data.iter().map(|v| DataFrameValue::Number((v - g.mean) / g.variance.sqrt())).collect(),
			_ => panic!("expected a number column"),
		},
		// Only the first token's column is given, and it has one value too few.
		|_: &BagOfWordsFeatureGroup<f32>, _: DataFrameColumnView<f32>| vec![vec![DataFrameValue::Number(1.0), DataFrameValue::Number(0.0)]],
		|| reported.set(reported.get() + 1),
	);
	let described: Vec<Vec<String>> = rows.iter().map(|row| row.iter().map(describe).collect()).collect();
	assert_eq!(
		described,
		vec![
			vec!["enum 1", "number -1", "number 1", "unknown"],
			vec!["enum 0", "number 0", "number 0", "unknown"],
			vec!["unknown", "number 1", "unknown", "unknown"],
		]
	);
	// The identity group reports each value of its column.
	assert_eq!(reported.get(), 2);
}

#[test]
fn test_compute_features_array_value_without_columns() {
	let view: DataFrameView<f32> = DataFrameView { columns: vec![] };
	let groups: Vec<FeatureGroup<f32>> = vec![];
	let rows = compute_features_array_value(
		&view,
		&groups,
		|_: &NormalizedFeatureGroup<f32>, _: DataFrameColumnView<f32>| Vec::new(),
		|_: &BagOfWordsFeatureGroup<f32>, _: DataFrameColumnView<f32>| Vec::new(),
		|| {},
	);
	assert!(rows.is_empty());
}

#[test]
fn test_one_hot_encoded_compute_array() {
	let options = vec!["red".to_owned(), "green".to_owned(), "blue".to_owned()];
	let group = OneHotEncodedFeatureGroup { source_column_name: "color".to_owned(), options: options.clone() };
	let values = [0usize, 1, 2, 3];
	let reported = Cell::new(0u64);
	let rows = group.compute_array_f32(
		EnumDataFrameColumnView { name: Some("color"), options: &options, data: &values },
		5,
		0.0f32,
		1.0f32,
		|| reported.set(reported.get() + 1),
	);
	assert_eq!(
		rows,
		vec![
			vec![1.0, 0.0, 0.0, 0.0],
			vec![0.0, 1.0, 0.0, 0.0],
			vec![0.0, 0.0, 1.0, 0.0],
			vec![0.0, 0.0, 0.0, 1.0],
			vec![0.0, 0.0, 0.0, 0.0],
		]
	);
	assert_eq!(reported.get(), 4);
}
