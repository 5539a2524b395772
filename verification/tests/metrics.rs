use tangram::metrics::{accumulate_tps_fps, compute_tps_fps_by_threshold, count_positives, TpsFpsPoint};

fn point(threshold: u32, true_positives: usize, false_positives: usize) -> TpsFpsPoint {
	TpsFpsPoint {
		threshold,
		true_positives,
		false_positives,
	}
}

#[test]
fn test_tps_fps_by_threshold_groups_equal_probabilities() {
	// Probabilities 0.9, 0.4, 0.4, 0.2, given by keys that order as they do.
	let probabilities = [9u32, 4, 4, 2];
	let labels = [2usize, 2, 1, 1];
	let points = compute_tps_fps_by_threshold(&probabilities, &labels);
	assert_eq!(points, vec![point(9, 1, 0), point(4, 1, 1), point(2, 0, 1)]);
}

#[test]
fn test_roc_counts_accumulate() {
	let probabilities = [9u32, 4, 4, 2];
	let labels = [2usize, 2, 1, 1];
	let mut points = compute_tps_fps_by_threshold(&probabilities, &labels);
	accumulate_tps_fps(&mut points);
	assert_eq!(points, vec![point(9, 1, 0), point(4, 2, 1), point(2, 2, 2)]);
	let positives = count_positives(&labels);
	assert_eq!(positives, 2);
	assert_eq!(labels.len() - positives, 2);
	// True and false positive rates 0.5/0, 1/0.5, 1/1.
	let rates: Vec<(f32, f32)> = points
		.iter()
		.map(|p| (p.true_positives as f32 / 2.0, p.false_positives as f32 / 2.0))
		.collect();
	assert_eq!(rates, vec![(0.5, 0.0), (1.0, 0.5), (1.0, 1.0)]);
}

#[test]
fn test_tps_fps_counts_as_many_examples_as_have_both() {
	let probabilities = [1u32, 1, 3];
	let labels = [1usize, 2];
	let points = compute_tps_fps_by_threshold(&probabilities, &labels);
	assert_eq!(points, vec![point(1, 1, 1)]);
	let mut empty: Vec<TpsFpsPoint> = Vec::new();
	accumulate_tps_fps(&mut empty);
	assert!(empty.is_empty());
	assert_eq!(count_positives(&[]), 0);
}
