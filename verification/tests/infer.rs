use std::time::Duration;
use tangram::dataframe::{
	DataFrameColumn, DataFrameColumnView, DataFrameValue, EnumDataFrameColumn, NumberDataFrameColumn,
};
use tangram::features::{
	BagOfWordsFeatureGroupToken, FeatureGroup, FitBagOfWordsFeatureGroupSettings,
	IdentityFeatureGroup, OneHotEncodedFeatureGroup,
};
use tangram::infer::{is_invalid_value, DataFrameColumnType, InferOptions, InferStats};
use tangram::timing::{Timing, TimingDuration};

fn is_number(value: &str) -> bool {
	value.parse::<f32>().map(|v| v.is_finite()).unwrap_or(false)
}

fn infer(values: &[&str], max: usize) -> DataFrameColumnType {
	let options = InferOptions {
		enum_max_unique_values: max,
	};
	let mut stats = InferStats::new(&options);
	for value in values {
		stats.update(value, is_number(value));
	}
	stats.finalize()
}

#[test]
fn test_infer_stats_types() {
	assert!(matches!(infer(&[], 10), DataFrameColumnType::Unknown));
	assert!(matches!(infer(&["", "NaN", "?"], 10), DataFrameColumnType::Unknown));
	assert!(matches!(infer(&["1.5", "2", "-3"], 10), DataFrameColumnType::Number));
	match infer(&["b", "a", "b"], 10) {
		DataFrameColumnType::Enum { options } => assert_eq!(options, vec!["a", "b"]),
		_ => panic!("expected an enum type"),
	}
	assert!(matches!(infer(&["a", "b", "c"], 2), DataFrameColumnType::Text));
	// A text value after numbers makes an enum column while the values are few.
	match infer(&["1", "x"], 10) {
		DataFrameColumnType::Enum { options } => assert_eq!(options, vec!["1", "x"]),
		_ => panic!("expected an enum type"),
	}
	// A number after text leaves the column an enum one.
	match infer(&["x", "1"], 10) {
		DataFrameColumnType::Enum { options } => assert_eq!(options, vec!["1", "x"]),
		_ => panic!("expected an enum type"),
	}
}

#[test]
fn test_infer_stats_zero_one_numbers_are_enum() {
	match infer(&["1", "0", "1", "0"], 10) {
		DataFrameColumnType::Enum { options } => assert_eq!(options, vec!["0", "1"]),
		_ => panic!("expected an enum type"),
	}
	// Not all values are zero or one: a number column.
	assert!(matches!(infer(&["2", "0", "1"], 10), DataFrameColumnType::Number));
	assert!(matches!(infer(&["0", "1", "2"], 10), DataFrameColumnType::Number));
	// Only zeros: a number column.
	assert!(matches!(infer(&["0", "0"], 10), DataFrameColumnType::Number));
	// A value before "0" in byte order keeps the column a number column.
	assert!(matches!(infer(&["-1", "0", "1"], 10), DataFrameColumnType::Number));
	// Too many distinct numbers to keep: a number column.
	assert!(matches!(infer(&["0", "1", "2"], 2), DataFrameColumnType::Number));
}

#[test]
fn test_default_invalid_values() {
	for value in ["", "null", "NULL", "n/a", "N/A", "nan", "-nan", "NaN", "-NaN", "?"] {
		assert!(is_invalid_value(value));
	}
	assert!(!is_invalid_value("none"));
	assert!(!is_invalid_value("0"));
	assert_eq!(InferOptions::default().enum_max_unique_values, 100);
}

#[test]
fn test_one_hot_encoded_fit_and_feature_counts() {
	let column = EnumDataFrameColumn::new(
		Some("color".to_owned()),
		vec!["red".to_owned(), "blue".to_owned()],
		vec![1, 2],
	);
	let view: DataFrameColumnView<f32> = DataFrameColumnView::Enum(column.view());
	let group = OneHotEncodedFeatureGroup::fit(view);
	assert_eq!(group.source_column_name, "color");
	assert_eq!(group.options, vec!["red".to_owned(), "blue".to_owned()]);
	let group: FeatureGroup<f32> = FeatureGroup::OneHotEncoded(group);
	assert_eq!(group.n_features(), 3);
	let identity: FeatureGroup<f32> = FeatureGroup::Identity(IdentityFeatureGroup {
		source_column_name: "x".to_owned(),
	});
	assert_eq!(identity.n_features(), 1);
}

#[test]
fn test_token_to_string() {
	assert_eq!(
		BagOfWordsFeatureGroupToken::Unigram("hello".to_owned()).to_string(),
		"hello"
	);
	assert_eq!(
		BagOfWordsFeatureGroupToken::Bigram("hello".to_owned(), "world".to_owned()).to_string(),
		"hello world"
	);
	let settings = FitBagOfWordsFeatureGroupSettings::default();
	assert!(settings.include_unigrams);
	assert!(settings.include_bigrams);
	assert_eq!(settings.top_tokens_count, 20000);
}

#[test]
fn test_timing_durations() {
	let timing = Timing::new();
	assert_eq!(timing.find_split.get(), Duration::from_nanos(0));
	assert_eq!(timing.find_split.inc(Duration::from_nanos(5)), 0);
	assert_eq!(timing.find_split.inc(Duration::from_micros(1)), 5);
	assert_eq!(timing.find_split.get(), Duration::from_nanos(1005));
	let total = TimingDuration::new();
	assert_eq!(total.get(), Duration::ZERO);
	assert_eq!(total.try_inc(Duration::from_nanos(7)), Some(0));
	// A duration whose nanoseconds do not fit in a u64 is not added.
	assert_eq!(total.try_inc(Duration::from_secs(u64::MAX)), None);
	assert_eq!(total.get(), Duration::from_nanos(7));
}

#[test]
fn test_identity_feature_group() {
	let column = NumberDataFrameColumn::new(Some("x".to_owned()), vec![1.5f32, 2.5]);
	let group = IdentityFeatureGroup {
		source_column_name: "x".to_owned(),
	};
	let copy = group.compute_dataframe(DataFrameColumnView::Number(column.view()), |n| {
		assert_eq!(n, 2)
	});
	match copy {
		DataFrameColumn::Number(c) => {
			assert_eq!(c.name.as_deref(), Some("x"));
			assert_eq!(c.data, vec![1.5, 2.5]);
		}
		_ => panic!("expected a number column"),
	}
	let mut features = vec![DataFrameValue::Unknown; 3];
	group.compute_array_value(&mut features, DataFrameColumnView::Number(column.view()), || {});
	assert_eq!(features[0].as_number(), Some(&1.5));
	assert_eq!(features[1].as_number(), Some(&2.5));
	assert!(matches!(features[2], DataFrameValue::Unknown));
	let colors = EnumDataFrameColumn::new(None, vec!["red".to_owned()], vec![1, 0]);
	match group.compute_dataframe::<f32, _>(DataFrameColumnView::Enum(colors.view()), |_| {}) {
		DataFrameColumn::Enum(c) => {
			assert_eq!(c.name, None);
			assert_eq!(c.options, vec!["red".to_owned()]);
			assert_eq!(c.data, vec![1, 0]);
		}
		_ => panic!("expected an enum column"),
	}
}
