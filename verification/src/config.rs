//! The settings a user gives for training: column types, shuffling and the metric
//! by which the trained models are compared.

use crate::infer::{string_views, ColumnTypeView, DataFrameColumnType};
use crate::dataset_stats::clone_strings;
use vstd::prelude::*;

verus! {

/// The type of a column, as the user states it.
#[derive(Debug)]
pub enum ColumnType {
    Unknown,
    Number,
    Enum { options: Vec<String> },
    Text,
}

/// Whether and how to shuffle the dataset before splitting it.
#[derive(Debug)]
pub enum Shuffle {
    Enabled(bool),
    Options { seed: u64 },
}

/// The metric by which the trained models are compared.
#[derive(Debug, Clone, Copy, PartialEq, Eq, Structural)]
pub enum ComparisonMetric {
    MAE,
    MSE,
    RMSE,
    R2,
    Accuracy,
    AUC,
    F1,
}

/// The name of a comparison metric.
pub open spec fn comparison_metric_name(m: ComparisonMetric) -> Seq<char> {
    match m {
        ComparisonMetric::MAE => "Mean Absolute Error"@,
        ComparisonMetric::MSE => "Mean Squared Error"@,
        ComparisonMetric::RMSE => "Root Mean Squared Error"@,
        ComparisonMetric::R2 => "R2"@,
        ComparisonMetric::Accuracy => "Accuracy"@,
        ComparisonMetric::AUC => "Area Under the Receiver Operating Characteristic Curve"@,
        ComparisonMetric::F1 => "F1"@,
    }
}

impl ComparisonMetric {
    /// The name of the metric, as it is shown to the user.
    pub fn name(&self) -> (r: &'static str)
        ensures
            r@ == comparison_metric_name(*self),
    {
        match self {
            ComparisonMetric::MAE => "Mean Absolute Error",
            ComparisonMetric::MSE => "Mean Squared Error",
            ComparisonMetric::RMSE => "Root Mean Squared Error",
            ComparisonMetric::R2 => "R2",
            ComparisonMetric::Accuracy => "Accuracy",
            ComparisonMetric::AUC => "Area Under the Receiver Operating Characteristic Curve",
            ComparisonMetric::F1 => "F1",
        }
    }

    /// The name of the metric, as it is shown to the user.
    pub fn to_string(&self) -> (r: String)
        ensures
            r@ == comparison_metric_name(*self),
    {
        self.name().to_owned()
    }
}

/// The column type that a stated type asks for.
pub open spec fn stated_type_view(t: ColumnType) -> ColumnTypeView {
    match t {
        ColumnType::Unknown => ColumnTypeView::Unknown,
        ColumnType::Number => ColumnTypeView::Number,
        ColumnType::Enum { options } => ColumnTypeView::Enum { options: string_views(options@) },
        ColumnType::Text => ColumnTypeView::Text,
    }
}

impl ColumnType {
    /// The dataframe column type that this stated type asks for.
    pub fn to_dataframe_column_type(&self) -> (r: DataFrameColumnType)
        ensures
            r@ == stated_type_view(*self),
            match (self, r) {
                (ColumnType::Unknown, DataFrameColumnType::Unknown) => true,
                (ColumnType::Number, DataFrameColumnType::Number) => true,
                (ColumnType::Enum { options: a }, DataFrameColumnType::Enum { options: b }) => a@ == b@,
                (ColumnType::Text, DataFrameColumnType::Text) => true,
                _ => false,
            },
    {
        match self {
            ColumnType::Unknown => DataFrameColumnType::Unknown,
            ColumnType::Number => DataFrameColumnType::Number,
            ColumnType::Enum { options } => DataFrameColumnType::Enum { options: clone_strings(options) },
            ColumnType::Text => DataFrameColumnType::Text,
        }
    }
}

} // verus!
