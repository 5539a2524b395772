use std::cell::Cell;
use tangram::bin::{
	compute_bin_info, compute_binned_features, filter_binned_features, BinInfo, ComputeBinInfoOptions,
	FilterBinnedFeaturesOptions,
};
use tangram::dataset_stats::{ColumnView, EnumColumnView, NumberColumnView};
use tangram::bin_directions::BinDirections;
use tangram::tree::{
	count_splits_by_feature, BranchSplit, Node, SplitDirection, TrainBranchNode, TrainBranchSplit,
	TrainBranchSplitContinuous, TrainBranchSplitDiscrete, TrainLeafNode, TrainNode, TrainTree,
	Tree,
};

fn leaf(value: i32) -> TrainNode<i32> {
	TrainNode::Leaf(TrainLeafNode {
		value,
		examples_fraction: 0,
	})
}

/// Root splits feature 0 at bin 2; its right child splits feature 1 by category.
fn sample_tree() -> TrainTree<i32> {
	let mut directions = BinDirections::new(4, false);
	directions.set(2, true);
	TrainTree {
		nodes: vec![
			TrainNode::Branch(TrainBranchNode {
				left_child_index: Some(1),
				right_child_index: Some(2),
				split: TrainBranchSplit::Continuous(TrainBranchSplitContinuous {
					feature_index: 0,
					split_value: 100,
					bin_index: 2,
					invalid_values_direction: SplitDirection::Left,
				}),
				missing_values_direction: SplitDirection::Left,
				examples_fraction: 1,
			}),
			leaf(10),
			TrainNode::Branch(TrainBranchNode {
				left_child_index: Some(3),
				right_child_index: Some(4),
				split: TrainBranchSplit::Discrete(TrainBranchSplitDiscrete {
					feature_index: 1,
					directions,
					invalid_values_direction: SplitDirection::Right,
				}),
				missing_values_direction: SplitDirection::Right,
				examples_fraction: 2,
			}),
			leaf(20),
			leaf(30),
		],
	}
}

#[test]
fn test_train_tree_predict() {
	let tree = sample_tree();
	assert_eq!(tree.predict(&[0, 0]), 10);
	assert_eq!(tree.predict(&[2, 3]), 10);
	assert_eq!(tree.predict(&[3, 0]), 20);
	assert_eq!(tree.predict(&[3, 2]), 30);
}

#[test]
fn test_tree_from_train_tree() {
	let tree = Tree::from_train_tree(sample_tree());
	assert_eq!(tree.nodes.len(), 5);
	match &tree.nodes[0] {
		Node::Branch(branch) => {
			assert_eq!(branch.left_child_index, 1);
			assert_eq!(branch.right_child_index, 2);
			assert_eq!(branch.split.feature_index(), 0);
			assert_eq!(*tree.nodes[0].examples_fraction(), 1);
			match &branch.split {
				BranchSplit::Continuous(split) => {
					assert_eq!(split.split_value, 100);
					assert_eq!(split.invalid_values_direction, SplitDirection::Left);
				}
				_ => panic!("expected a continuous split"),
			}
		}
		_ => panic!("expected a branch"),
	}
	match &tree.nodes[2] {
		Node::Branch(branch) => {
			assert_eq!(branch.split.feature_index(), 1);
			match &branch.split {
				BranchSplit::Discrete(split) => {
					assert_eq!(split.directions.get(2), Some(true));
					assert_eq!(split.directions.get(1), Some(false));
				}
				_ => panic!("expected a discrete split"),
			}
		}
		_ => panic!("expected a branch"),
	}
	match &tree.nodes[4] {
		Node::Leaf(leaf) => assert_eq!(leaf.value, 30),
		_ => panic!("expected a leaf"),
	}
}

#[test]
fn test_bin_directions() {
	let mut d = BinDirections::new(20, false);
	assert_eq!(d.get(19), Some(false));
	assert_eq!(d.get(20), None);
	d.set(9, true);
	assert_eq!(d.get(9), Some(true));
	assert_eq!(d.get(8), Some(false));
	assert_eq!(d.get(10), Some(false));
	d.set(9, false);
	assert_eq!(d.get(9), Some(false));
	let all = BinDirections::new(255, true);
	assert_eq!(all.get(254), Some(true));
	assert_eq!(all.get(255), None);
}

#[test]
fn test_bin_info_n_valid_bins() {
	let number: BinInfo<f32> = BinInfo::Number {
		thresholds: vec![0.5, 1.5],
	};
	assert_eq!(number.n_valid_bins(), 3);
	let options = vec!["a".to_owned(), "b".to_owned()];
	let enum_info: BinInfo<f32> = BinInfo::for_enum_column(&options);
	assert_eq!(enum_info.n_valid_bins(), 2);
}

#[test]
fn test_filter_binned_features() {
	let bin_info: Vec<BinInfo<f32>> = vec![
		// Splits between consecutive bins: the first bin, 4, leaves 6 after it.
		BinInfo::Number {
			thresholds: vec![0.0, 1.0],
		},
		// Every split leaves fewer than 3 on one side.
		BinInfo::Number {
			thresholds: vec![0.0],
		},
		// Bins 1 and 2 together hold 3 and leave 7.
		BinInfo::Enum { n_options: 3 },
		// One bin holds nearly everything.
		BinInfo::Enum { n_options: 2 },
		// Counts 1, 1, 6: no run of the counts by increasing size splits well,
		// but the bin of 6 alone holds 6 and leaves 4.
		BinInfo::Enum { n_options: 3 },
		// Counts 2, 2, 2, 4: the two bins of 2 hold 4 and leave 6 (m = 3 needs a side of 3 to 7).
		BinInfo::Enum { n_options: 4 },
		// No bins: no split.
		BinInfo::Enum { n_options: 0 },
	];
	let stats = vec![
		vec![4, 2, 4, 0],
		vec![9, 1, 0],
		vec![7, 1, 2, 0],
		vec![9, 1, 0],
		vec![1, 1, 6, 2],
		vec![2, 2, 2, 4, 0],
		vec![10],
	];
	let keep = filter_binned_features(
		10,
		&stats,
		&bin_info,
		FilterBinnedFeaturesOptions {
			min_examples_split: 3,
		},
	);
	assert_eq!(keep, vec![true, false, true, false, true, true, false]);
}

#[test]
fn test_compute_binned_features() {
	let numbers = [Some(5u32), Some(10), Some(15), Some(20), Some(25), None];
	let options = vec!["a".to_owned(), "b".to_owned()];
	let enums = [1usize, 0, 2, 2, 1, 1];
	let features = [
		ColumnView::Number(NumberColumnView { data: &numbers }),
		ColumnView::Enum(EnumColumnView {
			options: &options,
			data: &enums,
		}),
	];
	let bin_info = [
		BinInfo::Number {
			thresholds: vec![10u32, 20],
		},
		BinInfo::Enum { n_options: 2 },
	];
	let calls = Cell::new(0);
	let (binned, stats) = compute_binned_features(&features, &bin_info, 4, || calls.set(calls.get() + 1));
	// A value equal to a threshold goes to the bin that the threshold closes.
	assert_eq!(binned[0], vec![1, 1, 2, 2, 3, 0]);
	assert_eq!(binned[1], vec![1, 0, 2, 2, 1, 1]);
	assert_eq!(stats[0], vec![1, 2, 2, 1]);
	assert_eq!(stats[1], vec![1, 3, 2, 0]);
	assert_eq!(calls.get(), 12);
}

#[test]
fn test_train_node_as_branch_mut() {
	let mut tree = sample_tree();
	match tree.nodes[0].as_branch_mut() {
		Some(branch) => branch.right_child_index = Some(3),
		None => panic!("expected a branch"),
	}
	assert_eq!(tree.predict(&[3, 0]), 20);
	assert!(tree.nodes[1].as_branch_mut().is_none());
}

#[test]
fn test_compute_bin_info_by_column_type() {
	let numbers = [Some(3u32), Some(1), None, Some(2)];
	let options = vec!["a".to_owned(), "b".to_owned(), "c".to_owned()];
	let enums = [1usize, 3, 0];
	let features = [
		ColumnView::Number(NumberColumnView { data: &numbers }),
		ColumnView::Enum(EnumColumnView { options: &options, data: &enums }),
	];
	let options = ComputeBinInfoOptions {
		max_valid_bins: 255,
		max_number_column_examples_for_bin_info: 100,
	};
	// Thresholds between consecutive distinct keys, standing in for the float midpoints.
	let info = compute_bin_info(&features, &options, |c: NumberColumnView, _: ComputeBinInfoOptions| {
		let mut keys: Vec<u32> = c.data.iter().filter_map(|k| *k).collect();
		keys.sort();
		keys.dedup();
		keys.windows(2).map(|w| w[0]).collect::<Vec<u32>>()
	});
	assert_eq!(info.len(), 2);
	match &info[0] {
		BinInfo::Number { thresholds } => assert_eq!(thresholds, &vec![1, 2]),
		_ => panic!("expected number bin info"),
	}
	match &info[1] {
		BinInfo::Enum { n_options } => assert_eq!(*n_options, 3),
		_ => panic!("expected enum bin info"),
	}
	assert_eq!(info[1].n_valid_bins(), 3);
}

#[test]
fn test_count_splits_by_feature() {
	let trees = vec![sample_tree(), sample_tree(), TrainTree { nodes: vec![leaf(1)] }];
	// Two trees split once on feature 0 and once on feature 1; no tree splits on feature 2.
	assert_eq!(count_splits_by_feature(&trees, 3), vec![2, 2, 0]);
	assert_eq!(count_splits_by_feature::<i32>(&[], 2), vec![0, 0]);
}
