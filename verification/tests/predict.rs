use tangram::column_stats::{ColumnStatsOutput, EnumColumnStatsOutput, UnknownColumnStatsOutput};
use tangram::dataframe::DataFrameColumn;
use tangram::predict::{
	input_dataframe, Column, EnumColumn, InputValue, NumberColumn, TextColumn, UnknownColumn,
};

fn row(entries: Vec<(&str, InputValue<f32>)>) -> Vec<(String, InputValue<f32>)> {
	entries
		.into_iter()
		.map(|(name, value)| (name.to_owned(), value))
		.collect()
}

#[test]
fn test_input_dataframe() {
	let columns = vec![
		Column::Unknown(UnknownColumn {
			name: "id".to_owned(),
		}),
		Column::Number(NumberColumn {
			name: "age".to_owned(),
		}),
		Column::Enum(EnumColumn {
			name: "color".to_owned(),
			options: vec!["red".to_owned(), "blue".to_owned()],
		}),
		Column::Text(TextColumn {
			name: "note".to_owned(),
		}),
	];
	let input = vec![
		row(vec![
			("age", InputValue::Number(30.0)),
			("color", InputValue::String("blue".to_owned())),
			("note", InputValue::String("hi".to_owned())),
		]),
		row(vec![
			("age", InputValue::String("old".to_owned())),
			("color", InputValue::String("green".to_owned())),
			("note", InputValue::Number(1.0)),
		]),
		row(vec![]),
	];
	let df = input_dataframe(&columns, &input, f32::NAN);
	assert_eq!(df.columns.len(), 4);
	match &df.columns[0] {
		DataFrameColumn::Unknown(c) => assert_eq!(c.len, 3),
		_ => panic!("expected an unknown column"),
	}
	match &df.columns[1] {
		DataFrameColumn::Number(c) => {
			assert_eq!(c.name.as_deref(), Some("age"));
			assert_eq!(c.data[0], 30.0);
			assert!(c.data[1].is_nan());
			assert!(c.data[2].is_nan());
		}
		_ => panic!("expected a number column"),
	}
	match &df.columns[2] {
		DataFrameColumn::Enum(c) => {
			assert_eq!(c.options, vec!["red".to_owned(), "blue".to_owned()]);
			assert_eq!(c.data, vec![2, 0, 0]);
		}
		_ => panic!("expected an enum column"),
	}
	match &df.columns[3] {
		DataFrameColumn::Text(c) => assert_eq!(c.data, vec!["hi", "", ""]),
		_ => panic!("expected a text column"),
	}
}

#[test]
fn test_column_from_column_stats() {
	let column = Column::from_column_stats::<f32>(ColumnStatsOutput::Enum(EnumColumnStatsOutput {
		column_name: "color".to_owned(),
		count: 2,
		histogram: vec![("red".to_owned(), 1), ("blue".to_owned(), 1)],
		invalid_count: 0,
		unique_count: 2,
	}));
	match column {
		Column::Enum(c) => {
			assert_eq!(c.name, "color");
			assert_eq!(c.options, vec!["red".to_owned(), "blue".to_owned()]);
		}
		_ => panic!("expected an enum column"),
	}
	let unknown = Column::from_column_stats::<f32>(ColumnStatsOutput::Unknown(
		UnknownColumnStatsOutput {
			column_name: "x".to_owned(),
			count: 0,
		},
	));
	assert!(matches!(unknown, Column::Unknown(UnknownColumn { name }) if name == "x"));
}
