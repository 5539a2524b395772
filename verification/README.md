# tangram

The core of a tabular machine-learning toolkit, verified with Verus: reading csv
into dataframes and inferring their column types, dataset, histogram and column
statistics, text tokens and bag of words feature groups, feature groups chosen
from statistics, binning features, decision trees, the decisions that drive
training, and model identifiers.

Every function in `src/` is verified by Verus against its `requires`/`ensures`
contract. A few have no `ensures`: the timing totals, kept in atomics whose
contents Verus does not see, and the random identifier. Floating-point numbers are never computed on in `src/`: values that are
counted or ordered are given by integer keys that order as the numbers do, and
values computed from floats (means, variances, inverse document frequencies,
thresholds) are carried as a type parameter or produced by closures the caller
passes in.

## Layout

- `src/` — the verified library.
  - `dataframe.rs`, `load.rs`, `infer.rs`: dataframes, csv loading, column type inference.
  - `histogram.rs`, `dataset_stats.rs`, `text_stats.rs`, `histogram_stats.rs`,
    `column_stats.rs`, `stats.rs`: statistics of train and test parts, merged.
  - `features.rs`, `bag_of_words.rs`, `compute_features.rs`: feature groups,
    fitting them, and the feature columns they give.
  - `bin.rs`, `bin_directions.rs`, `tree.rs`: binned features and trees.
  - `train.rs`, `config.rs`, `model.rs`, `predict.rs`, `timing.rs`, `metrics.rs`,
    `id.rs`, `sorting.rs`: training decisions, model framing, prediction inputs,
    identifiers and orders.
- `tests/` — tests of the library on concrete values.
- `app/` — what stays outside the library: reading files, parsing numbers,
  JSON and serde conversions, and floating-point arithmetic.
