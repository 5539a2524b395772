use tangram::dataframe::{
	DataFrame, DataFrameColumn, DataFrameColumnTypeView, DataFrameColumnView, DataFrameValue,
	EnumDataFrameColumn, NumberDataFrameColumn, TextDataFrameColumn, UnknownDataFrameColumn,
};
use tangram::infer::DataFrameColumnType;

fn sample() -> DataFrame<i32> {
	DataFrame {
		columns: vec![
			DataFrameColumn::Number(NumberDataFrameColumn::new(
				Some("n".to_owned()),
				vec![10, 20, 30, 40, 50],
			)),
			DataFrameColumn::Enum(EnumDataFrameColumn::new(
				Some("e".to_owned()),
				vec!["x".to_owned(), "y".to_owned()],
				vec![1, 2, 0, 1, 2],
			)),
			DataFrameColumn::Text(TextDataFrameColumn::new(
				Some("t".to_owned()),
				vec![
					"a".to_owned(),
					"b".to_owned(),
					"c".to_owned(),
					"d".to_owned(),
					"e".to_owned(),
				],
			)),
		],
	}
}

#[test]
fn test_dataframe_new_makes_empty_typed_columns() {
	let df: DataFrame<f32> = DataFrame::new(
		vec![Some("a".to_owned()), Some("b".to_owned()), None],
		vec![
			DataFrameColumnType::Number,
			DataFrameColumnType::Enum {
				options: vec!["p".to_owned()],
			},
		],
	);
	assert_eq!(df.ncols(), 2);
	assert_eq!(df.nrows(), 0);
	match &df.columns[1] {
		DataFrameColumn::Enum(c) => {
			assert_eq!(c.name.as_deref(), Some("b"));
			assert_eq!(c.options, vec!["p".to_owned()]);
			assert!(c.data.is_empty());
		}
		_ => panic!("expected an enum column"),
	}
	assert_eq!(df.columns[0].name(), Some("a"));
}

#[test]
fn test_dataframe_view_and_rows() {
	let df = sample();
	assert_eq!(df.ncols(), 3);
	assert_eq!(df.nrows(), 5);
	let view = df.view();
	assert_eq!(view.ncols(), 3);
	assert_eq!(view.nrows(), 5);
	let mut row = vec![DataFrameValue::Unknown; 3];
	view.read_row(2, &mut row);
	assert_eq!(row[0].as_number(), Some(&30));
	assert_eq!(row[1].as_enum(), Some(&0));
	assert_eq!(row[2].as_text(), Some("c"));
	assert_eq!(row[0].as_enum(), None);
	match view.columns()[1].column_type() {
		DataFrameColumnTypeView::Enum { options } => assert_eq!(options, &["x".to_owned(), "y".to_owned()]),
		_ => panic!("expected an enum column"),
	}
}

#[test]
fn test_dataframe_split_at_row() {
	let df = sample();
	let (train, test) = df.view().split_at_row(3);
	assert_eq!(train.nrows(), 3);
	assert_eq!(test.nrows(), 2);
	match (&train.columns()[0], &test.columns()[0]) {
		(DataFrameColumnView::Number(a), DataFrameColumnView::Number(b)) => {
			assert_eq!(a.data, &[10, 20, 30]);
			assert_eq!(b.data, &[40, 50]);
			assert_eq!(a.name, Some("n"));
		}
		_ => panic!("expected number columns"),
	}
	match (&train.columns()[2], &test.columns()[2]) {
		(DataFrameColumnView::Text(a), DataFrameColumnView::Text(b)) => {
			assert_eq!(a.data.len() + b.data.len(), 5);
			assert_eq!(b.data[0], "d");
		}
		_ => panic!("expected text columns"),
	}
	let unknown_column = UnknownDataFrameColumn {
		name: None,
		len: 4,
	};
	let unknown = DataFrameColumnView::<i32>::Unknown(unknown_column.view());
	let (a, b) = unknown.split_at_row(1);
	assert_eq!(a.len(), 1);
	assert_eq!(b.len(), 3);
}

#[test]
fn test_dataframe_subview() {
	let df = sample();
	let view = df.view();
	let sub = view.subview(&[2, 0]);
	assert_eq!(sub.ncols(), 2);
	assert_eq!(sub.columns()[0].name(), Some("t"));
	assert_eq!(sub.columns()[1].name(), Some("n"));
}

#[test]
fn test_dataframe_shuffle_keeps_rows_together() {
	let mut df = sample();
	df.shuffle(42);
	let numbers = df.columns[0].as_number().unwrap().data.clone();
	let enums = df.columns[1].as_enum().unwrap().data.clone();
	let texts = df.columns[2].as_text().unwrap().data.clone();
	let before = sample();
	let before_numbers = &before.columns[0].as_number().unwrap().data;
	let before_enums = &before.columns[1].as_enum().unwrap().data;
	let before_texts = &before.columns[2].as_text().unwrap().data;
	let mut sorted = numbers.clone();
	sorted.sort();
	assert_eq!(&sorted, before_numbers);
	for i in 0..5 {
		let j = before_numbers.iter().position(|v| *v == numbers[i]).unwrap();
		assert_eq!(enums[i], before_enums[j]);
		assert_eq!(texts[i], before_texts[j]);
	}
	// The same seed gives the same order.
	let mut again = sample();
	again.shuffle(42);
	assert_eq!(&again.columns[0].as_number().unwrap().data, &numbers);
}

#[test]
fn test_enum_column_value_for_option() {
	let column = EnumDataFrameColumn::new(
		None,
		vec!["x".to_owned(), "y".to_owned(), "x".to_owned()],
		vec![],
	);
	assert_eq!(column.value_for_option("y"), Some(2));
	assert_eq!(column.value_for_option("x"), Some(3));
	assert_eq!(column.value_for_option("z"), None);
}

#[test]
fn test_dataframe_column_accessors() {
	let df = sample();
	assert_eq!(df.columns[0].len(), 5);
	assert!(!df.columns[0].is_empty());
	assert!(df.columns[0].as_text().is_none());
	assert_eq!(df.columns[1].as_enum().unwrap().options(), &["x".to_owned(), "y".to_owned()]);
	let value = df.columns[2].view().value(4);
	assert_eq!(value.as_text(), Some("e"));
}

#[test]
fn test_mutable_accessors_change_the_dataframe() {
	let mut df = sample();
	if let Some(column) = df.columns_mut()[0].as_number_mut() {
		column.data_mut().push(60);
	}
	assert!(df.columns_mut()[0].as_text_mut().is_none());
	if let Some(column) = df.columns_mut()[1].as_enum_mut() {
		column.data_mut()[2] = 2;
	}
	if let Some(column) = df.columns_mut()[2].as_text_mut() {
		column.data_mut()[0] = "changed".to_owned();
	}
	match &df.columns()[0] {
		DataFrameColumn::Number(c) => assert_eq!(c.data(), &[10, 20, 30, 40, 50, 60]),
		_ => panic!("expected a number column"),
	}
	match &df.columns()[1] {
		DataFrameColumn::Enum(c) => assert_eq!(c.data(), &[1, 2, 2, 1, 2]),
		_ => panic!("expected an enum column"),
	}
	match &df.columns()[2] {
		DataFrameColumn::Text(c) => assert_eq!(c.data()[0], "changed"),
		_ => panic!("expected a text column"),
	}
	let mut unknown = UnknownDataFrameColumn::new(None);
	*unknown.len_mut() = 7;
	assert_eq!(unknown.len(), 7);
}

#[test]
fn test_value_mutable_accessors() {
	let mut value: DataFrameValue<i32> = DataFrameValue::Number(3);
	if let Some(v) = value.as_number_mut() {
		*v = 4;
	}
	assert_eq!(value.as_number(), Some(&4));
	assert!(value.as_enum_mut().is_none());
	let mut value: DataFrameValue<i32> = DataFrameValue::Enum(1);
	*value.as_enum_mut().unwrap() = 2;
	assert_eq!(value.as_enum(), Some(&2));
	let mut value: DataFrameValue<i32> = DataFrameValue::Text("a");
	*value.as_text_mut().unwrap() = "b";
	assert_eq!(value.as_text(), Some("b"));
}

#[test]
fn test_column_views_and_iterators() {
	let df = sample();
	let view = df.view();
	match view.columns()[0] {
		DataFrameColumnView::Number(c) => {
			assert_eq!(c.name(), Some("n"));
			assert_eq!(c.len(), 5);
			assert!(!c.is_empty());
			assert_eq!(c.as_slice(), &[10, 20, 30, 40, 50]);
			assert_eq!(c.iter().copied().collect::<Vec<i32>>(), vec![10, 20, 30, 40, 50]);
			assert_eq!(c.view().data(), c.data());
		}
		_ => panic!("expected a number column view"),
	}
	match view.columns()[1] {
		DataFrameColumnView::Enum(c) => {
			assert_eq!(c.options(), &["x".to_owned(), "y".to_owned()]);
			assert_eq!(c.iter().copied().collect::<Vec<usize>>(), vec![1, 2, 0, 1, 2]);
		}
		_ => panic!("expected an enum column view"),
	}
	match &df.columns()[2] {
		DataFrameColumn::Text(c) => assert_eq!(c.iter().count(), c.len()),
		_ => panic!("expected a text column"),
	}
}

#[test]
fn test_to_rows_reads_each_row() {
	let df = sample();
	let rows = df.to_rows();
	assert_eq!(rows.len(), 5);
	assert_eq!(rows[0].len(), 3);
	assert!(matches!(rows[0][0], DataFrameValue::Number(10)));
	assert!(matches!(rows[2][1], DataFrameValue::Enum(0)));
	assert!(matches!(rows[4][2], DataFrameValue::Text("e")));
	let view = df.view();
	let view_rows = view.to_rows();
	assert_eq!(view_rows.len(), 5);
	assert!(matches!(view_rows[1][0], DataFrameValue::Number(20)));
}

#[test]
fn test_to_rows_shorter_columns_read_unknown() {
	let df: DataFrame<i32> = DataFrame {
		columns: vec![
			DataFrameColumn::Number(NumberDataFrameColumn::new(None, vec![1, 2, 3])),
			DataFrameColumn::Number(NumberDataFrameColumn::new(None, vec![7])),
			DataFrameColumn::Unknown(UnknownDataFrameColumn::new(None)),
		],
	};
	let rows = df.to_rows();
	assert_eq!(rows.len(), 3);
	assert!(matches!(rows[0][1], DataFrameValue::Number(7)));
	assert!(matches!(rows[2][1], DataFrameValue::Unknown));
	assert!(matches!(rows[1][2], DataFrameValue::Unknown));
}

#[test]
fn test_to_rows_f32_numbers_and_enums() {
	let df: DataFrame<f32> = DataFrame {
		columns: vec![
			DataFrameColumn::Number(NumberDataFrameColumn::new(None, vec![1.5, 2.5, 3.5])),
			DataFrameColumn::Enum(EnumDataFrameColumn::new(
				None,
				vec!["a".to_owned(), "b".to_owned()],
				vec![2, 0, 1],
			)),
		],
	};
	let rows = df.to_rows_f32(0.0, |v: usize| v as f32).unwrap();
	assert_eq!(rows, vec![vec![1.5, 2.0], vec![2.5, 0.0], vec![3.5, 1.0]]);
	let with_text: DataFrame<f32> = DataFrame {
		columns: vec![DataFrameColumn::Text(TextDataFrameColumn::new(None, vec!["x".to_owned()]))],
	};
	assert!(with_text.to_rows_f32(0.0, |v: usize| v as f32).is_none());
	let view = df.view();
	let split = view.split_at_row(2);
	let rows = split.1.to_rows_f32(0.0, |v: usize| v as f32).unwrap();
	assert_eq!(rows, vec![vec![3.5, 1.0]]);
}
