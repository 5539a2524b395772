//! The decisions taken while training: whether and how to shuffle, what task the
//! target column calls for, where the target column is, and by which metric the
//! trained models are compared.

use crate::config::{comparison_metric_name, stated_type_view, ColumnType, ComparisonMetric, Shuffle};
use crate::dataframe::{column_name, column_type_view, is_shuffled_column, DataFrame, DataFrameColumn};
use crate::infer::DataFrameColumnType;
use crate::load::{final_type, lemma_given_type_at, FromCsvOptions};
use crate::infer::str_equals;
use crate::model::{
    BinaryClassificationComparisonMetric, MulticlassClassificationComparisonMetric,
    RegressionComparisonMetric,
};
use vstd::prelude::*;

verus! {

/// The kind of model that the target column calls for.
#[derive(Debug, Clone, Copy, PartialEq, Eq, Structural)]
pub enum Task {
    Regression,
    BinaryClassification,
    MulticlassClassification,
}

/// The metric by which the models trained for a task are compared.
#[derive(Debug, Clone, Copy, PartialEq, Eq, Structural)]
pub enum TrainComparisonMetric {
    Regression(RegressionComparisonMetric),
    BinaryClassification(BinaryClassificationComparisonMetric),
    MulticlassClassification(MulticlassClassificationComparisonMetric),
}

/// What training reads of the stats of the target column: its type, and for an
/// enum column the number of its distinct values.
#[derive(Debug, Clone, Copy, PartialEq, Eq, Structural)]
pub enum TargetColumnStats {
    Unknown,
    Number,
    Enum { unique_count: usize },
    Text,
}

/// The seed used when shuffling is enabled without one.
pub const DEFAULT_SHUFFLE_SEED: u64 = 12;

/// The seed to shuffle the dataset with, or `None` when it is not to be shuffled:
/// shuffling is on unless the user turns it off, with the seed 12 unless the user gives one.
pub open spec fn spec_shuffle_seed(shuffle: Option<Shuffle>) -> Option<u64> {
    match shuffle {
        None => Some(DEFAULT_SHUFFLE_SEED),
        Some(Shuffle::Enabled(enabled)) => if enabled {
            Some(DEFAULT_SHUFFLE_SEED)
        } else {
            None
        },
        Some(Shuffle::Options { seed }) => Some(seed),
    }
}

/// The seed to shuffle the dataset with, or `None` when it is not to be shuffled.
pub fn shuffle_seed(shuffle: Option<&Shuffle>) -> (r: Option<u64>)
    ensures
        r == spec_shuffle_seed(
            match shuffle {
                Some(s) => Some(*s),
                None => None,
            },
        ),
{
    match shuffle {
        None => Some(DEFAULT_SHUFFLE_SEED),
        Some(Shuffle::Enabled(enabled)) => if *enabled {
            Some(DEFAULT_SHUFFLE_SEED)
        } else {
            None
        },
        Some(Shuffle::Options { seed }) => Some(*seed),
    }
}

/// Shuffles the rows of the dataframe when the settings ask for it (see
/// `shuffle_seed`), first calling `report`, which tells the user that shuffling begins.
pub fn shuffle<N, P: Fn()>(dataframe: &mut DataFrame<N>, settings: Option<&Shuffle>, report: P)
    requires
        call_requires(report, ()),
    ensures
        match spec_shuffle_seed(
            match settings {
                Some(s) => Some(*s),
                None => None,
            },
        ) {
            None => *final(dataframe) == *old(dataframe),
            Some(seed) => final(dataframe).columns@.len() == old(dataframe).columns@.len() && forall|c: int|
                0 <= c < old(dataframe).columns@.len() ==> is_shuffled_column(
                    #[trigger] final(dataframe).columns@[c],
                    old(dataframe).columns@[c],
                    seed,
                ),
        },
{
    if let Some(seed) = shuffle_seed(settings) {
        report();
        dataframe.shuffle(seed);
    }
}

/// The column types that the settings state, by column name, as the csv is read with them.
pub fn config_column_types(column_types: &Vec<(String, ColumnType)>) -> (r: Vec<(String, DataFrameColumnType)>)
    ensures
        r@.len() == column_types@.len(),
        forall|i: int|
            0 <= i < r@.len() ==> #[trigger] r@[i].0 == column_types@[i].0 && r@[i].1@ == stated_type_view(
                column_types@[i].1,
            ),
{
    let mut r: Vec<(String, DataFrameColumnType)> = Vec::new();
    let mut i: usize = 0;
    while i < column_types.len()
        invariant
            i <= column_types@.len(),
            r@.len() == i,
            forall|k: int|
                0 <= k < i ==> #[trigger] r@[k].0 == column_types@[k].0 && r@[k].1@ == stated_type_view(
                    column_types@[k].1,
                ),
        decreases column_types@.len() - i,
    {
        r.push((column_types[i].0.clone(), column_types[i].1.to_dataframe_column_type()));
        i = i + 1;
    }
    r
}

/// The type of each column of a dataframe whose columns all have names, by name: a
/// second csv file is read with the types found in the first.
pub fn dataframe_column_types<N>(dataframe: &DataFrame<N>) -> (r: Vec<(String, DataFrameColumnType)>)
    requires
        forall|c: int| 0 <= c < dataframe.columns@.len() ==> (#[trigger] column_name(dataframe.columns@[c])) is Some,
    ensures
        r@.len() == dataframe.columns@.len(),
        forall|c: int|
            0 <= c < r@.len() ==> Some(#[trigger] r@[c].0) == column_name(dataframe.columns@[c]) && r@[c].1@
                == column_type_view(dataframe.columns@[c]),
{
    let mut r: Vec<(String, DataFrameColumnType)> = Vec::new();
    let mut c: usize = 0;
    while c < dataframe.columns.len()
        invariant
            forall|k: int| 0 <= k < dataframe.columns@.len() ==> (#[trigger] column_name(dataframe.columns@[k])) is Some,
            c <= dataframe.columns@.len(),
            r@.len() == c,
            forall|k: int|
                0 <= k < c ==> Some(#[trigger] r@[k].0) == column_name(dataframe.columns@[k]) && r@[k].1@
                    == column_type_view(dataframe.columns@[k]),
        decreases dataframe.columns@.len() - c,
    {
        let column = &dataframe.columns[c];
        assert(column_name(*column) is Some);
        let entry = match column {
            DataFrameColumn::Unknown(x) => (x.name.clone().unwrap(), DataFrameColumnType::Unknown),
            DataFrameColumn::Number(x) => (x.name.clone().unwrap(), DataFrameColumnType::Number),
            DataFrameColumn::Enum(x) => (
                x.name.clone().unwrap(),
                DataFrameColumnType::Enum { options: crate::dataset_stats::clone_strings(&x.options) },
            ),
            DataFrameColumn::Text(x) => (x.name.clone().unwrap(), DataFrameColumnType::Text),
        };
        r.push(entry);
        c = c + 1;
    }
    r
}

/// A second csv file read with the types of the columns of a first dataframe: each of
/// its columns named as a column of the first dataframe, the first of that name, gets
/// that column's type, whatever its values.
pub proof fn lemma_types_carry_over<N>(
    dataframe: DataFrame<N>,
    types: Vec<(String, DataFrameColumnType)>,
    options: FromCsvOptions,
    headers: Seq<Seq<char>>,
    fields: Seq<Seq<Seq<u8>>>,
    parsed: Seq<Seq<Option<N>>>,
    c: int,
    h: int,
)
    requires
        types@.len() == dataframe.columns@.len(),
        forall|k: int|
            0 <= k < types@.len() ==> Some(#[trigger] types@[k].0) == column_name(dataframe.columns@[k])
                && types@[k].1@ == column_type_view(dataframe.columns@[k]),
        options.column_types == Some(types),
        0 <= c < types@.len(),
        forall|k: int| 0 <= k < c ==> (#[trigger] types@[k]).0@ != types@[c].0@,
        0 <= h < headers.len(),
        headers[h] == types@[c].0@,
    ensures
        final_type(options, headers, fields, parsed, h) == column_type_view(dataframe.columns@[c]),
{
    lemma_given_type_at(types@, c);
}

/// The task for a target column: regression for a number column, binary
/// classification for an enum column with two distinct values, multiclass
/// classification for any other enum column, and none for other columns.
pub open spec fn spec_task_for_target(target: TargetColumnStats) -> Option<Task> {
    match target {
        TargetColumnStats::Number => Some(Task::Regression),
        TargetColumnStats::Enum { unique_count } => if unique_count == 2 {
            Some(Task::BinaryClassification)
        } else {
            Some(Task::MulticlassClassification)
        },
        _ => None,
    }
}

/// The task for a target column, or `None` when the column cannot be a target.
pub fn task_for_target_column(target: &TargetColumnStats) -> (r: Option<Task>)
    ensures
        r == spec_task_for_target(*target),
{
    match target {
        TargetColumnStats::Number => Some(Task::Regression),
        TargetColumnStats::Enum { unique_count } => if *unique_count == 2 {
            Some(Task::BinaryClassification)
        } else {
            Some(Task::MulticlassClassification)
        },
        _ => None,
    }
}

/// The metric for a task: the one the user chose, when it suits the task, else an error;
/// without a choice, the root mean squared error for regression, the area under the
/// ROC curve for binary classification and the accuracy for multiclass classification.
/// For binary classification, a choice of accuracy selects the area under the ROC curve.
pub open spec fn spec_choose_comparison_metric(metric: Option<ComparisonMetric>, task: Task) -> Option<TrainComparisonMetric> {
    match task {
        Task::Regression => match metric {
            None => Some(TrainComparisonMetric::Regression(RegressionComparisonMetric::RootMeanSquaredError)),
            Some(ComparisonMetric::MAE) => Some(TrainComparisonMetric::Regression(RegressionComparisonMetric::MeanAbsoluteError)),
            Some(ComparisonMetric::MSE) => Some(TrainComparisonMetric::Regression(RegressionComparisonMetric::MeanSquaredError)),
            Some(ComparisonMetric::RMSE) => Some(TrainComparisonMetric::Regression(RegressionComparisonMetric::RootMeanSquaredError)),
            Some(ComparisonMetric::R2) => Some(TrainComparisonMetric::Regression(RegressionComparisonMetric::R2)),
            Some(_) => None,
        },
        Task::BinaryClassification => match metric {
            None => Some(TrainComparisonMetric::BinaryClassification(BinaryClassificationComparisonMetric::AUCROC)),
            Some(ComparisonMetric::Accuracy) => Some(TrainComparisonMetric::BinaryClassification(BinaryClassificationComparisonMetric::AUCROC)),
            Some(_) => None,
        },
        Task::MulticlassClassification => match metric {
            None => Some(TrainComparisonMetric::MulticlassClassification(MulticlassClassificationComparisonMetric::Accuracy)),
            Some(ComparisonMetric::Accuracy) => Some(TrainComparisonMetric::MulticlassClassification(MulticlassClassificationComparisonMetric::Accuracy)),
            Some(_) => None,
        },
    }
}

/// The error for a comparison metric that does not suit the task.
#[derive(Debug, Clone, Copy, PartialEq, Eq, Structural)]
pub struct InvalidComparisonMetric {
    pub metric: ComparisonMetric,
    pub task: Task,
}

/// The name of a task, as error messages give it.
pub open spec fn task_name(task: Task) -> Seq<char> {
    match task {
        Task::Regression => "regression"@,
        Task::BinaryClassification => "binary classification"@,
        Task::MulticlassClassification => "multiclass classification"@,
    }
}

impl InvalidComparisonMetric {
    /// The message: `<metric> is an invalid model comparison metric for <task>`.
    pub fn message(&self) -> (r: String)
        ensures
            r@ == comparison_metric_name(self.metric) + " is an invalid model comparison metric for "@ + task_name(
                self.task,
            ),
    {
        let mut s = self.metric.to_string();
        s.append(" is an invalid model comparison metric for ");
        let task = match self.task {
            Task::Regression => "regression",
            Task::BinaryClassification => "binary classification",
            Task::MulticlassClassification => "multiclass classification",
        };
        s.append(task);
        s
    }
}

/// Chooses the metric by which the models trained for a task are compared.
pub fn choose_comparison_metric(metric: Option<&ComparisonMetric>, task: &Task) -> (r: Result<
    TrainComparisonMetric,
    InvalidComparisonMetric,
>)
    ensures
        ({
            let chosen = match metric {
                Some(m) => Some(*m),
                None => None,
            };
            match spec_choose_comparison_metric(chosen, *task) {
                Some(c) => r == Ok::<TrainComparisonMetric, InvalidComparisonMetric>(c),
                None => r == Err::<TrainComparisonMetric, InvalidComparisonMetric>(
                    InvalidComparisonMetric { metric: chosen->0, task: *task },
                ),
            }
        }),
{
    match task {
        Task::Regression => match metric {
            None => Ok(TrainComparisonMetric::Regression(RegressionComparisonMetric::RootMeanSquaredError)),
            Some(ComparisonMetric::MAE) => Ok(TrainComparisonMetric::Regression(RegressionComparisonMetric::MeanAbsoluteError)),
            Some(ComparisonMetric::MSE) => Ok(TrainComparisonMetric::Regression(RegressionComparisonMetric::MeanSquaredError)),
            Some(ComparisonMetric::RMSE) => Ok(TrainComparisonMetric::Regression(RegressionComparisonMetric::RootMeanSquaredError)),
            Some(ComparisonMetric::R2) => Ok(TrainComparisonMetric::Regression(RegressionComparisonMetric::R2)),
            Some(m) => Err(InvalidComparisonMetric { metric: *m, task: *task }),
        },
        Task::BinaryClassification => match metric {
            None => Ok(TrainComparisonMetric::BinaryClassification(BinaryClassificationComparisonMetric::AUCROC)),
            Some(ComparisonMetric::Accuracy) => Ok(TrainComparisonMetric::BinaryClassification(BinaryClassificationComparisonMetric::AUCROC)),
            Some(m) => Err(InvalidComparisonMetric { metric: *m, task: *task }),
        },
        Task::MulticlassClassification => match metric {
            None => Ok(TrainComparisonMetric::MulticlassClassification(MulticlassClassificationComparisonMetric::Accuracy)),
            Some(ComparisonMetric::Accuracy) => Ok(TrainComparisonMetric::MulticlassClassification(MulticlassClassificationComparisonMetric::Accuracy)),
            Some(m) => Err(InvalidComparisonMetric { metric: *m, task: *task }),
        },
    }
}

/// The position of the first column with the given name.
pub fn find_target_column_index(column_names: &[String], target_column_name: &str) -> (r: Option<usize>)
    ensures
        match r {
            Some(i) => i < column_names@.len() && column_names@[i as int]@ == target_column_name@
                && forall|j: int| 0 <= j < i ==> #[trigger] column_names@[j]@ != target_column_name@,
            None => forall|j: int| 0 <= j < column_names@.len() ==> #[trigger] column_names@[j]@ != target_column_name@,
        },
{
    let mut i: usize = 0;
    while i < column_names.len()
        invariant
            i <= column_names@.len(),
            forall|j: int| 0 <= j < i ==> #[trigger] column_names@[j]@ != target_column_name@,
        decreases column_names@.len() - i,
    {
        if str_equals(column_names[i].as_str(), target_column_name) {
            return Some(i);
        }
        i = i + 1;
    }
    None
}

/// Whether a larger value of a comparison metric marks a better model: so for R²,
/// the area under the ROC curve and the accuracy; the errors are better smaller.
pub open spec fn spec_higher_is_better(metric: TrainComparisonMetric) -> bool {
    match metric {
        TrainComparisonMetric::Regression(m) => m == RegressionComparisonMetric::R2,
        TrainComparisonMetric::BinaryClassification(_) => true,
        TrainComparisonMetric::MulticlassClassification(_) => true,
    }
}

/// Whether a larger value of the comparison metric marks a better model.
pub fn higher_is_better(metric: &TrainComparisonMetric) -> (r: bool)
    ensures
        r == spec_higher_is_better(*metric),
{
    match metric {
        TrainComparisonMetric::Regression(RegressionComparisonMetric::R2) => true,
        TrainComparisonMetric::Regression(_) => false,
        TrainComparisonMetric::BinaryClassification(_) => true,
        TrainComparisonMetric::MulticlassClassification(_) => true,
    }
}

/// Whether the metric value with order key `a` is at least as good as the one with key `b`.
pub open spec fn ranks_at_least(a: u32, b: u32, higher_is_better: bool) -> bool {
    if higher_is_better {
        a >= b
    } else {
        a <= b
    }
}

/// The position of the best of the trained models, given the value of the comparison
/// metric of each as an order key (keys order as the values do): the last of the
/// models with the best value, the highest or the lowest as the metric calls for.
pub fn choose_best_model(metric_keys: &[u32], comparison_metric: &TrainComparisonMetric) -> (r: usize)
    requires
        metric_keys@.len() > 0,
    ensures
        r < metric_keys@.len(),
        forall|i: int|
            0 <= i < metric_keys@.len() ==> ranks_at_least(
                metric_keys@[r as int],
                #[trigger] metric_keys@[i],
                spec_higher_is_better(*comparison_metric),
            ),
        forall|i: int| r < i < metric_keys@.len() ==> #[trigger] metric_keys@[i] != metric_keys@[r as int],
{
    let higher = higher_is_better(comparison_metric);
    let mut best: usize = 0;
    let mut i: usize = 1;
    while i < metric_keys.len()
        invariant
            1 <= i <= metric_keys@.len(),
            best < i,
            higher == spec_higher_is_better(*comparison_metric),
            forall|k: int| 0 <= k < i ==> ranks_at_least(metric_keys@[best as int], #[trigger] metric_keys@[k], higher),
            forall|k: int| best < k < i ==> #[trigger] metric_keys@[k] != metric_keys@[best as int],
        decreases metric_keys@.len() - i,
    {
        if ranks_at_least_exec(metric_keys[i], metric_keys[best], higher) {
            best = i;
        }
        i = i + 1;
    }
    best
}

/// Whether the metric value with order key `a` is at least as good as the one with key `b`.
fn ranks_at_least_exec(a: u32, b: u32, higher_is_better: bool) -> (r: bool)
    ensures
        r == ranks_at_least(a, b, higher_is_better),
{
    if higher_is_better {
        a >= b
    } else {
        a <= b
    }
}


/// Whether a regression metric measures an error: the mean absolute, mean squared
/// and root mean squared errors, of which less is better.
pub open spec fn is_error_metric(m: RegressionComparisonMetric) -> bool {
    ||| m == RegressionComparisonMetric::MeanAbsoluteError
    ||| m == RegressionComparisonMetric::MeanSquaredError
    ||| m == RegressionComparisonMetric::RootMeanSquaredError
}

/// The best model by an error metric is one with the least error; by R², the area
/// under the ROC curve or the accuracy, one with the highest value. `r` is any
/// position that `choose_best_model` may return.
pub proof fn lemma_best_model_by_metric(metric_keys: Seq<u32>, comparison_metric: TrainComparisonMetric, r: int)
    requires
        0 <= r < metric_keys.len(),
        forall|i: int|
            0 <= i < metric_keys.len() ==> ranks_at_least(
                metric_keys[r],
                #[trigger] metric_keys[i],
                spec_higher_is_better(comparison_metric),
            ),
    ensures
        comparison_metric matches TrainComparisonMetric::Regression(m) && is_error_metric(m) ==> forall|i: int|
            0 <= i < metric_keys.len() ==> metric_keys[r] <= #[trigger] metric_keys[i],
        !(comparison_metric matches TrainComparisonMetric::Regression(m) && is_error_metric(m)) ==> forall|i: int|
            0 <= i < metric_keys.len() ==> metric_keys[r] >= #[trigger] metric_keys[i],
        comparison_metric matches TrainComparisonMetric::Regression(m) ==> (spec_higher_is_better(comparison_metric)
            <==> !is_error_metric(m)),
{
}

/// The name of a regression metric, as the configuration names it.
pub open spec fn regression_metric_name(m: RegressionComparisonMetric) -> Seq<char> {
    match m {
        RegressionComparisonMetric::MeanAbsoluteError => "Mean Absolute Error"@,
        RegressionComparisonMetric::MeanSquaredError => "Mean Squared Error"@,
        RegressionComparisonMetric::RootMeanSquaredError => "Root Mean Squared Error"@,
        RegressionComparisonMetric::R2 => "R2"@,
    }
}

/// A regression metric that the user chooses is kept: the metric chosen for a
/// regression task has the name of the one asked for.
pub proof fn lemma_chosen_regression_metric_keeps_name(m: ComparisonMetric)
    ensures
        spec_choose_comparison_metric(Some(m), Task::Regression) matches Some(TrainComparisonMetric::Regression(
            r,
        )) ==> regression_metric_name(r) == comparison_metric_name(m),
{
}

} // verus!
