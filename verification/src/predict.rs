//! Preparing the input of a prediction: the values given for each example, by
//! column name, are read into a dataframe with the model's columns.
//!
//! What a value given for a number column reads as is carried as a type
//! parameter `N`, as in dataframes.

use crate::column_stats::ColumnStatsOutput;
use crate::dataframe::{
    column_name, DataFrame, DataFrameColumn, EnumDataFrameColumn, NumberDataFrameColumn,
    TextDataFrameColumn, UnknownDataFrameColumn,
};
use crate::infer::{str_equals, string_views};
use crate::load::{option_index, option_value};
use vstd::prelude::*;

verus! {

/// A column of a model: what the values given for it are read as.
#[derive(Debug, Clone)]
pub enum Column {
    Unknown(UnknownColumn),
    Number(NumberColumn),
    Enum(EnumColumn),
    Text(TextColumn),
}

#[derive(Debug, Clone)]
pub struct UnknownColumn {
    pub name: String,
}

#[derive(Debug, Clone)]
pub struct NumberColumn {
    pub name: String,
}

#[derive(Debug, Clone)]
pub struct EnumColumn {
    pub name: String,
    pub options: Vec<String>,
}

#[derive(Debug, Clone)]
pub struct TextColumn {
    pub name: String,
}

/// The name of a column of a model.
pub open spec fn model_column_name(c: Column) -> String {
    match c {
        Column::Unknown(c) => c.name,
        Column::Number(c) => c.name,
        Column::Enum(c) => c.name,
        Column::Text(c) => c.name,
    }
}

impl Column {
    /// The column of a model that the stats of a column describe: its name, and for
    /// an enum column its options, in the order of the stats' histogram.
    pub fn from_column_stats<T>(value: ColumnStatsOutput<T>) -> (r: Column)
        ensures
            match (value, r) {
                (ColumnStatsOutput::Unknown(s), Column::Unknown(c)) => c.name == s.column_name,
                (ColumnStatsOutput::Number(s), Column::Number(c)) => c.name == s.column_name,
                (ColumnStatsOutput::Enum(s), Column::Enum(c)) => c.name == s.column_name && c.options@.len()
                    == s.histogram@.len() && forall|i: int|
                    0 <= i < c.options@.len() ==> #[trigger] c.options@[i] == s.histogram@[i].0,
                (ColumnStatsOutput::Text(s), Column::Text(c)) => c.name == s.column_name,
                _ => false,
            },
    {
        match value {
            ColumnStatsOutput::Unknown(s) => Column::Unknown(UnknownColumn { name: s.column_name }),
            ColumnStatsOutput::Number(s) => Column::Number(NumberColumn { name: s.column_name }),
            ColumnStatsOutput::Enum(s) => {
                let mut options: Vec<String> = Vec::new();
                let mut i: usize = 0;
                while i < s.histogram.len()
                    invariant
                        i <= s.histogram@.len(),
                        options@.len() == i,
                        forall|k: int| 0 <= k < i ==> #[trigger] options@[k] == s.histogram@[k].0,
                    decreases s.histogram@.len() - i,
                {
                    options.push(s.histogram[i].0.clone());
                    i = i + 1;
                }
                Column::Enum(EnumColumn { name: s.column_name, options })
            },
            ColumnStatsOutput::Text(s) => Column::Text(TextColumn { name: s.column_name }),
        }
    }
}

/// What a value given for an example reads as: a number, a string, or something else.
#[derive(Debug, Clone)]
pub enum InputValue<N> {
    Number(N),
    String(String),
    Other,
}

/// The value given for a column name in an example: that of the first entry with the name.
pub open spec fn input_value<N>(row: Seq<(String, InputValue<N>)>, name: Seq<char>) -> Option<InputValue<N>>
    decreases row.len(),
{
    if row.len() == 0 {
        None
    } else if row[0].0@ == name {
        Some(row[0].1)
    } else {
        input_value(row.drop_first(), name)
    }
}

/// The entries of the examples.
pub open spec fn input_rows<N>(input: Seq<Vec<(String, InputValue<N>)>>) -> Seq<Seq<(String, InputValue<N>)>> {
    input.map_values(|r: Vec<(String, InputValue<N>)>| r@)
}

/// Whether a column of the dataframe holds the values that the examples give for a
/// column of the model: a number where one is given for a number column, else
/// `missing`; for an enum column, one more than the index of the last option equal to
/// the string given, else 0; for a text column the string given, else the empty text;
/// and for a column of unknown type, only as many values as there are examples.
pub open spec fn is_input_column<N>(
    col: DataFrameColumn<N>,
    model_column: Column,
    rows: Seq<Seq<(String, InputValue<N>)>>,
    missing: N,
) -> bool {
    let n = rows.len();
    let name = model_column_name(model_column);
    &&& column_name(col) == Some(name)
    &&& match (col, model_column) {
        (DataFrameColumn::Unknown(x), Column::Unknown(_)) => x.len == n,
        (DataFrameColumn::Number(x), Column::Number(_)) => x.data@.len() == n && forall|i: int|
            0 <= i < n ==> #[trigger] x.data@[i] == match input_value(rows[i], name@) {
                Some(InputValue::Number(v)) => v,
                _ => missing,
            },
        (DataFrameColumn::Enum(x), Column::Enum(m)) => x.options@ == m.options@ && x.data@.len() == n && forall|i: int|
            0 <= i < n ==> #[trigger] x.data@[i] == match input_value(rows[i], name@) {
                Some(InputValue::String(s)) => option_value(string_views(m.options@), s@) as int,
                _ => 0,
            },
        (DataFrameColumn::Text(x), Column::Text(_)) => x.data@.len() == n && forall|i: int|
            0 <= i < n ==> #[trigger] x.data@[i]@ == match input_value(rows[i], name@) {
                Some(InputValue::String(s)) => s@,
                _ => Seq::<char>::empty(),
            },
        _ => false,
    }
}

/// The value given for a column name in an example.
fn find_input_value<'a, N>(row: &'a Vec<(String, InputValue<N>)>, name: &str) -> (r: Option<&'a InputValue<N>>)
    ensures
        match input_value(row@, name@) {
            Some(v) => r == Some(&v),
            None => r is None,
        },
{
    let mut i: usize = 0;
    assert(row@.skip(0) =~= row@);
    while i < row.len()
        invariant
            i <= row@.len(),
            input_value(row@, name@) == input_value(row@.skip(i as int), name@),
        decreases row@.len() - i,
    {
        assert(row@.skip(i as int)[0] == row@[i as int]);
        if str_equals(row[i].0.as_str(), name) {
            return Some(&row[i].1);
        }
        assert(row@.skip(i as int).drop_first() =~= row@.skip(i + 1));
        i = i + 1;
    }
    assert(row@.skip(i as int).len() == 0);
    None
}

/// The column of the dataframe for one column of the model.
fn input_column<N: Copy>(model_column: &Column, input: &Vec<Vec<(String, InputValue<N>)>>, missing: N) -> (r:
    DataFrameColumn<N>)
    ensures
        is_input_column(r, *model_column, input_rows(input@), missing),
{
    let ghost rows = input_rows(input@);
    let n = input.len();
    match model_column {
        Column::Unknown(m) => DataFrameColumn::Unknown(UnknownDataFrameColumn { name: Some(m.name.clone()), len: n }),
        Column::Number(m) => {
            let mut data: Vec<N> = Vec::new();
            let mut i: usize = 0;
            while i < n
                invariant
                    n == input@.len(),
                    rows == input_rows(input@),
                    i <= n,
                    data@.len() == i,
                    forall|k: int|
                        0 <= k < i ==> #[trigger] data@[k] == match input_value(rows[k], m.name@) {
                            Some(InputValue::Number(v)) => v,
                            _ => missing,
                        },
                decreases n - i,
            {
                let v = match find_input_value(&input[i], m.name.as_str()) {
                    Some(InputValue::Number(v)) => *v,
                    _ => missing,
                };
                data.push(v);
                i = i + 1;
            }
            DataFrameColumn::Number(NumberDataFrameColumn { name: Some(m.name.clone()), data })
        },
        Column::Enum(m) => {
            let mut data: Vec<usize> = Vec::new();
            let mut i: usize = 0;
            while i < n
                invariant
                    n == input@.len(),
                    rows == input_rows(input@),
                    i <= n,
                    data@.len() == i,
                    forall|k: int|
                        0 <= k < i ==> #[trigger] data@[k] == match input_value(rows[k], m.name@) {
                            Some(InputValue::String(s)) => option_value(string_views(m.options@), s@) as int,
                            _ => 0,
                        },
                decreases n - i,
            {
                let v = match find_input_value(&input[i], m.name.as_str()) {
                    Some(InputValue::String(s)) => option_index(&m.options, s.as_str()),
                    _ => 0,
                };
                data.push(v);
                i = i + 1;
            }
            let options = crate::dataset_stats::clone_strings(&m.options);
            DataFrameColumn::Enum(EnumDataFrameColumn { name: Some(m.name.clone()), options, data })
        },
        Column::Text(m) => {
            let mut data: Vec<String> = Vec::new();
            let mut i: usize = 0;
            while i < n
                invariant
                    n == input@.len(),
                    rows == input_rows(input@),
                    i <= n,
                    data@.len() == i,
                    forall|k: int|
                        0 <= k < i ==> #[trigger] data@[k]@ == match input_value(rows[k], m.name@) {
                            Some(InputValue::String(s)) => s@,
                            _ => Seq::<char>::empty(),
                        },
                decreases n - i,
            {
                let v = match find_input_value(&input[i], m.name.as_str()) {
                    Some(InputValue::String(s)) => s.clone(),
                    _ => String::new(),
                };
                data.push(v);
                i = i + 1;
            }
            DataFrameColumn::Text(TextDataFrameColumn { name: Some(m.name.clone()), data })
        },
    }
}

/// The dataframe that a prediction is made on: one column per column of the model,
/// each holding the values that the examples give for it (see `is_input_column`).
pub fn input_dataframe<N: Copy>(columns: &[Column], input: &Vec<Vec<(String, InputValue<N>)>>, missing: N) -> (r:
    DataFrame<N>)
    ensures
        r.columns@.len() == columns@.len(),
        forall|c: int|
            0 <= c < columns@.len() ==> is_input_column(
                #[trigger] r.columns@[c],
                columns@[c],
                input_rows(input@),
                missing,
            ),
{
    let mut result: Vec<DataFrameColumn<N>> = Vec::new();
    let mut c: usize = 0;
    while c < columns.len()
        invariant
            c <= columns@.len(),
            result@.len() == c,
            forall|k: int|
                0 <= k < c ==> is_input_column(#[trigger] result@[k], columns@[k], input_rows(input@), missing),
        decreases columns@.len() - c,
    {
        result.push(input_column(&columns[c], input, missing));
        c = c + 1;
    }
    DataFrame { columns: result }
}

} // verus!
