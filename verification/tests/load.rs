use tangram::config::ColumnType;
use tangram::dataframe::{DataFrame, DataFrameColumn};
use tangram::infer::{DataFrameColumnType, InferOptions};
use tangram::load::{FromCsvOptions, LoadError};

fn parse_number(bytes: &[u8]) -> Option<f32> {
	match lexical::parse::<f32, _>(bytes) {
		Ok(value) if value.is_finite() => Some(value),
		_ => None,
	}
}

fn load(csv: &[u8], options: &FromCsvOptions) -> Result<DataFrame<f32>, LoadError> {
	DataFrame::from_csv(csv, options, parse_number, f32::NAN, |_| {})
}

fn expect_number(column: &DataFrameColumn<f32>, name: &str, data: &[f32]) {
	match column {
		DataFrameColumn::Number(column) => {
			assert_eq!(column.name.as_deref(), Some(name));
			assert_eq!(column.data.len(), data.len());
			for (a, b) in column.data.iter().zip(data.iter()) {
				assert!(a == b || (a.is_nan() && b.is_nan()));
			}
		}
		_ => panic!("expected a number column"),
	}
}

fn expect_enum(column: &DataFrameColumn<f32>, name: &str, options: &[&str], data: &[usize]) {
	match column {
		DataFrameColumn::Enum(column) => {
			assert_eq!(column.name.as_deref(), Some(name));
			assert_eq!(column.options, options);
			assert_eq!(column.data, data);
		}
		_ => panic!("expected an enum column"),
	}
}

fn expect_text(column: &DataFrameColumn<f32>, name: &str, data: &[&str]) {
	match column {
		DataFrameColumn::Text(column) => {
			assert_eq!(column.name.as_deref(), Some(name));
			assert_eq!(column.data, data);
		}
		_ => panic!("expected a text column"),
	}
}

#[test]
fn test_infer() {
	let csv = r#"number,enum,text
1,test,hello
2,test,world
"#;
	let df = load(
		csv.as_bytes(),
		&FromCsvOptions {
			column_types: None,
			infer_options: InferOptions {
				enum_max_unique_values: 1,
			},
		},
	)
	.unwrap();
	assert_eq!(df.columns.len(), 3);
	expect_number(&df.columns[0], "number", &[1.0, 2.0]);
	expect_enum(&df.columns[1], "enum", &["test"], &[1, 1]);
	expect_text(&df.columns[2], "text", &["hello", "world"]);
}

#[test]
fn test_column_types() {
	let csv = r#"number,text,enum
1,test,hello
2,test,world
"#;
	let column_types = vec![
		("text".to_owned(), DataFrameColumnType::Text),
		(
			"enum".to_owned(),
			DataFrameColumnType::Enum {
				options: vec!["hello".to_owned(), "world".to_owned()],
			},
		),
	];
	let df = load(
		csv.as_bytes(),
		&FromCsvOptions {
			column_types: Some(column_types),
			infer_options: InferOptions {
				enum_max_unique_values: 2,
			},
		},
	)
	.unwrap();
	assert_eq!(df.columns.len(), 3);
	expect_number(&df.columns[0], "number", &[1.0, 2.0]);
	expect_text(&df.columns[1], "text", &["test", "test"]);
	expect_enum(&df.columns[2], "enum", &["hello", "world"], &[1, 2]);
}

#[test]
fn test_load_default_options_read_missing_values() {
	let csv = "a,b\n1,x\n,y\nnan,x\n";
	let df = load(csv.as_bytes(), &FromCsvOptions::default()).unwrap();
	expect_number(&df.columns[0], "a", &[1.0, f32::NAN, f32::NAN]);
	expect_enum(&df.columns[1], "b", &["x", "y"], &[1, 2, 1]);
}

#[test]
fn test_load_zero_one_column_is_enum() {
	let csv = "flag\n1\n0\n1\n";
	let df = load(csv.as_bytes(), &FromCsvOptions::default()).unwrap();
	expect_enum(&df.columns[0], "flag", &["0", "1"], &[2, 1, 2]);
}

#[test]
fn test_load_only_missing_values_is_unknown() {
	let csv = "a,b\n,1\nnull,2\n";
	let df = load(csv.as_bytes(), &FromCsvOptions::default()).unwrap();
	match &df.columns[0] {
		DataFrameColumn::Unknown(column) => {
			assert_eq!(column.name.as_deref(), Some("a"));
			assert_eq!(column.len, 2);
		}
		_ => panic!("expected an unknown column"),
	}
	expect_number(&df.columns[1], "b", &[1.0, 2.0]);
}

#[test]
fn test_load_enum_value_not_an_option_is_zero() {
	let csv = "e\nred\nblue\ngreen\n";
	let options = FromCsvOptions {
		column_types: Some(vec![(
			"e".to_owned(),
			DataFrameColumnType::Enum {
				options: vec!["red".to_owned(), "green".to_owned()],
			},
		)]),
		infer_options: InferOptions::default(),
	};
	let df = load(csv.as_bytes(), &options).unwrap();
	expect_enum(&df.columns[0], "e", &["red", "green"], &[1, 0, 2]);
}

#[test]
fn test_load_unequal_records_is_csv_error() {
	let csv = "a,b\n1,2\n3\n";
	assert_eq!(
		load(csv.as_bytes(), &FromCsvOptions::default()).unwrap_err(),
		LoadError::Csv
	);
}

#[test]
fn test_load_invalid_utf8_text_is_error() {
	let csv = b"t\nabc\n\xff\xfe\n";
	let options = FromCsvOptions {
		column_types: Some(vec![("t".to_owned(), DataFrameColumnType::Text)]),
		infer_options: InferOptions::default(),
	};
	assert_eq!(load(csv, &options).unwrap_err(), LoadError::InvalidUtf8);
	// Inferring a type reads every value as text, so it fails too.
	assert_eq!(
		load(csv, &FromCsvOptions::default()).unwrap_err(),
		LoadError::InvalidUtf8
	);
	// An invalid value of a given enum column is read as no option.
	let options = FromCsvOptions {
		column_types: Some(vec![(
			"t".to_owned(),
			DataFrameColumnType::Enum {
				options: vec!["abc".to_owned()],
			},
		)]),
		infer_options: InferOptions::default(),
	};
	let df = load(csv, &options).unwrap();
	expect_enum(&df.columns[0], "t", &["abc"], &[1, 0]);
}

#[test]
fn test_load_reports_progress_per_record() {
	let csv = "a\n1\n2\n3\n";
	let positions = std::cell::RefCell::new(Vec::new());
	let df = DataFrame::from_csv(
		csv.as_bytes(),
		&FromCsvOptions::default(),
		parse_number,
		f32::NAN,
		|position| positions.borrow_mut().push(position),
	)
	.unwrap();
	expect_number(&df.columns[0], "a", &[1.0, 2.0, 3.0]);
	assert_eq!(positions.into_inner(), vec![2, 4, 6]);
}

#[test]
fn test_test_file_read_with_train_types() {
	let train = "n,e\n1,a\n2,b\n";
	let train_df = load(train.as_bytes(), &FromCsvOptions::default()).unwrap();
	let types = tangram::train::dataframe_column_types(&train_df);
	assert_eq!(types.len(), 2);
	assert_eq!(types[0].0, "n");
	assert!(matches!(types[0].1, DataFrameColumnType::Number));
	// Read alone, this file's first column would be an enum column.
	let test = "n,e\nx,b\ny,c\n";
	let options = FromCsvOptions {
		column_types: Some(types),
		infer_options: InferOptions::default(),
	};
	let test_df = load(test.as_bytes(), &options).unwrap();
	expect_number(&test_df.columns[0], "n", &[f32::NAN, f32::NAN]);
	expect_enum(&test_df.columns[1], "e", &["a", "b"], &[2, 0]);
}

#[test]
fn test_config_column_types() {
	let stated = vec![
		("a".to_owned(), ColumnType::Text),
		(
			"b".to_owned(),
			ColumnType::Enum {
				options: vec!["x".to_owned()],
			},
		),
	];
	let types = tangram::train::config_column_types(&stated);
	assert_eq!(types[0].0, "a");
	assert!(matches!(types[0].1, DataFrameColumnType::Text));
	match &types[1].1 {
		DataFrameColumnType::Enum { options } => assert_eq!(options, &vec!["x".to_owned()]),
		_ => panic!("expected an enum type"),
	}
}
