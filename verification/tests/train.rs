use tangram::config::{ColumnType, ComparisonMetric, Shuffle};
use tangram::infer::DataFrameColumnType;
use tangram::model::{
	frame_model_bytes, model_id, model_payload, BinaryClassificationComparisonMetric,
	MulticlassClassificationComparisonMetric, RegressionComparisonMetric, UnknownMajorVersion,
};
use tangram::dataframe::{DataFrame, DataFrameColumn, NumberDataFrameColumn};
use tangram::train::{
	choose_best_model, choose_comparison_metric, higher_is_better, shuffle, find_target_column_index, shuffle_seed, task_for_target_column,
	InvalidComparisonMetric, TargetColumnStats, Task, TrainComparisonMetric, DEFAULT_SHUFFLE_SEED,
};

#[test]
fn test_shuffle_seed() {
	assert_eq!(shuffle_seed(None), Some(DEFAULT_SHUFFLE_SEED));
	assert_eq!(shuffle_seed(Some(&Shuffle::Enabled(true))), Some(12));
	assert_eq!(shuffle_seed(Some(&Shuffle::Enabled(false))), None);
	assert_eq!(shuffle_seed(Some(&Shuffle::Options { seed: 7 })), Some(7));
}

#[test]
fn test_task_for_target_column() {
	assert_eq!(
		task_for_target_column(&TargetColumnStats::Number),
		Some(Task::Regression)
	);
	assert_eq!(
		task_for_target_column(&TargetColumnStats::Enum { unique_count: 2 }),
		Some(Task::BinaryClassification)
	);
	assert_eq!(
		task_for_target_column(&TargetColumnStats::Enum { unique_count: 3 }),
		Some(Task::MulticlassClassification)
	);
	assert_eq!(task_for_target_column(&TargetColumnStats::Text), None);
	assert_eq!(task_for_target_column(&TargetColumnStats::Unknown), None);
}

#[test]
fn test_choose_comparison_metric_defaults() {
	assert_eq!(
		choose_comparison_metric(None, &Task::Regression),
		Ok(TrainComparisonMetric::Regression(
			RegressionComparisonMetric::RootMeanSquaredError
		))
	);
	assert_eq!(
		choose_comparison_metric(None, &Task::BinaryClassification),
		Ok(TrainComparisonMetric::BinaryClassification(
			BinaryClassificationComparisonMetric::AUCROC
		))
	);
	assert_eq!(
		choose_comparison_metric(None, &Task::MulticlassClassification),
		Ok(TrainComparisonMetric::MulticlassClassification(
			MulticlassClassificationComparisonMetric::Accuracy
		))
	);
}

#[test]
fn test_choose_comparison_metric_choices() {
	assert_eq!(
		choose_comparison_metric(Some(&ComparisonMetric::MAE), &Task::Regression),
		Ok(TrainComparisonMetric::Regression(
			RegressionComparisonMetric::MeanAbsoluteError
		))
	);
	assert_eq!(
		choose_comparison_metric(Some(&ComparisonMetric::R2), &Task::Regression),
		Ok(TrainComparisonMetric::Regression(RegressionComparisonMetric::R2))
	);
	// Accuracy, chosen for binary classification, compares by the area under the ROC curve.
	assert_eq!(
		choose_comparison_metric(Some(&ComparisonMetric::Accuracy), &Task::BinaryClassification),
		Ok(TrainComparisonMetric::BinaryClassification(
			BinaryClassificationComparisonMetric::AUCROC
		))
	);
}

#[test]
fn test_choose_comparison_metric_invalid() {
	let error = choose_comparison_metric(Some(&ComparisonMetric::Accuracy), &Task::Regression)
		.unwrap_err();
	assert_eq!(
		error,
		InvalidComparisonMetric {
			metric: ComparisonMetric::Accuracy,
			task: Task::Regression,
		}
	);
	assert_eq!(
		error.message(),
		"Accuracy is an invalid model comparison metric for regression"
	);
	let error = choose_comparison_metric(Some(&ComparisonMetric::AUC), &Task::BinaryClassification)
		.unwrap_err();
	assert_eq!(
		error.message(),
		"Area Under the Receiver Operating Characteristic Curve is an invalid model comparison metric for binary classification"
	);
	assert!(
		choose_comparison_metric(Some(&ComparisonMetric::F1), &Task::MulticlassClassification)
			.is_err()
	);
}

#[test]
fn test_find_target_column_index() {
	let names = vec!["a".to_owned(), "b".to_owned(), "b".to_owned()];
	assert_eq!(find_target_column_index(&names, "b"), Some(1));
	assert_eq!(find_target_column_index(&names, "c"), None);
}

#[test]
fn test_comparison_metric_names() {
	assert_eq!(ComparisonMetric::MSE.to_string(), "Mean Squared Error");
	assert_eq!(ComparisonMetric::RMSE.name(), "Root Mean Squared Error");
}

#[test]
fn test_column_type_to_dataframe_column_type() {
	let t = ColumnType::Enum {
		options: vec!["x".to_owned()],
	}
	.to_dataframe_column_type();
	match t {
		DataFrameColumnType::Enum { options } => assert_eq!(options, vec!["x".to_owned()]),
		_ => panic!("expected an enum type"),
	}
	assert!(matches!(
		ColumnType::Number.to_dataframe_column_type(),
		DataFrameColumnType::Number
	));
}

#[test]
fn test_model_bytes_round_trip() {
	let payload = [7u8, 8, 9];
	let framed = frame_model_bytes(&payload);
	assert_eq!(framed, vec![0, 7, 8, 9]);
	assert_eq!(model_payload(&framed).unwrap(), &payload);
	assert_eq!(
		model_payload(&[3, 1]).unwrap_err(),
		UnknownMajorVersion { major_version: 3 }
	);
	assert_eq!(model_payload(&[0]).unwrap(), &[] as &[u8]);
}

#[test]
fn test_model_id() {
	assert_eq!(
		model_id("000000000000000000000000000000ff").unwrap().as_u128(),
		255
	);
	assert!(model_id("not an id").is_err());
}

#[test]
fn test_shuffle_follows_settings() {
	let make = || DataFrame {
		columns: vec![DataFrameColumn::Number(NumberDataFrameColumn::new(
			None,
			(0..50).collect::<Vec<i32>>(),
		))],
	};
	let data = |df: &DataFrame<i32>| df.columns[0].as_number().unwrap().data.clone();
	let reported = std::cell::Cell::new(false);
	let mut df = make();
	shuffle(&mut df, Some(&Shuffle::Enabled(false)), || reported.set(true));
	assert_eq!(data(&df), (0..50).collect::<Vec<i32>>());
	assert!(!reported.get());
	let mut by_default = make();
	shuffle(&mut by_default, None, || reported.set(true));
	assert!(reported.get());
	let mut seeded = make();
	shuffle(&mut seeded, Some(&Shuffle::Options { seed: 12 }), || {});
	assert_eq!(data(&by_default), data(&seeded));
	assert_ne!(data(&by_default), (0..50).collect::<Vec<i32>>());
	let mut sorted = data(&by_default);
	sorted.sort();
	assert_eq!(sorted, (0..50).collect::<Vec<i32>>());
}

#[test]
fn test_choose_best_model() {
	let rmse = TrainComparisonMetric::Regression(RegressionComparisonMetric::RootMeanSquaredError);
	let r2 = TrainComparisonMetric::Regression(RegressionComparisonMetric::R2);
	let auc = TrainComparisonMetric::BinaryClassification(BinaryClassificationComparisonMetric::AUCROC);
	let accuracy = TrainComparisonMetric::MulticlassClassification(MulticlassClassificationComparisonMetric::Accuracy);
	assert!(!higher_is_better(&rmse));
	assert!(higher_is_better(&r2));
	assert!(higher_is_better(&auc));
	assert!(higher_is_better(&accuracy));
	// The lowest error wins; of two equal best values the later model is taken.
	assert_eq!(choose_best_model(&[30, 10, 20, 10, 40], &rmse), 3);
	// The highest score wins, again the later of equals.
	assert_eq!(choose_best_model(&[30, 50, 20, 50, 40], &r2), 3);
	assert_eq!(choose_best_model(&[7, 9, 8], &auc), 1);
	assert_eq!(choose_best_model(&[5], &accuracy), 0);
}
