//! Verified core logic of a tabular machine-learning toolkit: reading csv into
//! dataframes and inferring their column types, dataset, histogram and column
//! statistics of the train and test parts of a dataset, counting the tokens of
//! text, choosing and fitting feature groups and computing feature columns,
//! binning features and filtering them, decision trees, the decisions that drive
//! training, and model identifiers.
//!
//! The floating-point numbers that the toolkit computes on (feature values,
//! thresholds, statistics) are carried as type parameters, or, where they are
//! counted or ordered, as integer keys that order as the numbers do: the logic
//! here moves, orders and counts them but does not compute on them. Where a step
//! computes on them, or splits text into words, the caller passes it in as a
//! closure, and the contracts say what is done with what it gives.

pub mod id;
pub mod bin_directions;
pub mod tree;
pub mod histogram;
pub mod dataset_stats;
pub mod infer;
pub mod timing;
pub mod config;
pub mod model;
pub mod train;
pub mod bin;
pub mod dataframe;
pub mod features;
pub mod column_stats;
pub mod load;
pub mod sorting;
pub mod metrics;
pub mod histogram_stats;
pub mod predict;
pub mod stats;
pub mod text_stats;
pub mod bag_of_words;
pub mod compute_features;
