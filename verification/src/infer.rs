//! Inferring the type of a column from its text values, one value at a time.

use crate::histogram::{compare_bytes, keys_sorted, Histogram, KeyOrder};
use crate::dataset_stats::clone_strings;
use vstd::prelude::*;

verus! {

/// Options for inferring column types.
#[derive(Clone, Copy, Debug)]
pub struct InferOptions {
    /// A column with more distinct values than this is not an enum column.
    pub enum_max_unique_values: usize,
}

impl Default for InferOptions {
    fn default() -> (r: Self)
        ensures
            r.enum_max_unique_values == 100,
    {
        InferOptions { enum_max_unique_values: 100 }
    }
}

/// The type of a column of a dataframe.
#[derive(Clone, Debug)]
pub enum DataFrameColumnType {
    Unknown,
    Number,
    Enum { options: Vec<String> },
    Text,
}

/// A column type as a mathematical value: an enum column by the views of its options.
pub enum ColumnTypeView {
    Unknown,
    Number,
    Enum { options: Seq<Seq<char>> },
    Text,
}

impl View for DataFrameColumnType {
    type V = ColumnTypeView;

    open spec fn view(&self) -> ColumnTypeView {
        match self {
            DataFrameColumnType::Unknown => ColumnTypeView::Unknown,
            DataFrameColumnType::Number => ColumnTypeView::Number,
            DataFrameColumnType::Enum { options } => ColumnTypeView::Enum { options: string_views(options@) },
            DataFrameColumnType::Text => ColumnTypeView::Text,
        }
    }
}

/// A copy of a column type.
pub(crate) fn duplicate_column_type(t: &DataFrameColumnType) -> (r: DataFrameColumnType)
    ensures
        r@ == t@,
{
    match t {
        DataFrameColumnType::Unknown => DataFrameColumnType::Unknown,
        DataFrameColumnType::Number => DataFrameColumnType::Number,
        DataFrameColumnType::Enum { options } => DataFrameColumnType::Enum { options: clone_strings(options) },
        DataFrameColumnType::Text => DataFrameColumnType::Text,
    }
}

/// The type that the values seen so far suggest.
#[derive(Clone, Copy, Debug, PartialEq, Eq, Structural)]
pub enum InferColumnType {
    Unknown,
    Number,
    Enum,
    Text,
}

/// Whether a value is one of those read as missing: `""`, `"null"`, `"NULL"`,
/// `"n/a"`, `"N/A"`, `"nan"`, `"-nan"`, `"NaN"`, `"-NaN"` and `"?"`.
pub open spec fn is_default_invalid_value(s: Seq<char>) -> bool {
    ||| s == ""@
    ||| s == "null"@
    ||| s == "NULL"@
    ||| s == "n/a"@
    ||| s == "N/A"@
    ||| s == "nan"@
    ||| s == "-nan"@
    ||| s == "NaN"@
    ||| s == "-NaN"@
    ||| s == "?"@
}

/// Whether two strings are equal.
pub(crate) fn str_equals(a: &str, b: &str) -> (r: bool)
    ensures
        r == (a@ == b@),
{
    let x = a.as_bytes();
    let y = b.as_bytes();
    proof {
        vstd::utf8::encode_utf8_decode_utf8(a@);
        vstd::utf8::encode_utf8_decode_utf8(b@);
    }
    compare_bytes(x, y) == KeyOrder::Equal
}

/// Whether a value is one of those read as missing.
pub fn is_invalid_value(value: &str) -> (r: bool)
    ensures
        r == is_default_invalid_value(value@),
{
    str_equals(value, "") || str_equals(value, "null") || str_equals(value, "NULL") || str_equals(
        value,
        "n/a",
    ) || str_equals(value, "N/A") || str_equals(value, "nan") || str_equals(value, "-nan")
        || str_equals(value, "NaN") || str_equals(value, "-NaN") || str_equals(value, "?")
}

/// The type suggested after a valid value, from the type suggested before it,
/// whether the value reads as a finite number, and whether the distinct values
/// are still few enough for an enum column.
pub open spec fn next_column_type(before: InferColumnType, is_finite_number: bool, few_unique_values: bool) -> InferColumnType {
    match before {
        InferColumnType::Unknown | InferColumnType::Number => if is_finite_number {
            InferColumnType::Number
        } else if few_unique_values {
            InferColumnType::Enum
        } else {
            InferColumnType::Text
        },
        InferColumnType::Enum => if !few_unique_values {
            InferColumnType::Text
        } else {
            InferColumnType::Enum
        },
        InferColumnType::Text => InferColumnType::Text,
    }
}

/// What has been learned about a column from the values seen so far.
#[derive(Clone, Debug)]
pub struct InferStats<'a> {
    infer_options: &'a InferOptions,
    column_type: InferColumnType,
    unique_values: Option<Histogram<String>>,
}

impl<'a> InferStats<'a> {
    /// The type that the values seen so far suggest.
    pub closed spec fn kind(&self) -> InferColumnType {
        self.column_type
    }

    /// The distinct valid values seen so far, while there are few enough of them.
    pub closed spec fn unique(&self) -> Option<Histogram<String>> {
        self.unique_values
    }

    /// The options the inference runs with.
    pub closed spec fn options(&self) -> InferOptions {
        *self.infer_options
    }

    /// The distinct values are kept sorted, and an enum type is only suggested while they are kept.
    pub open spec fn wf(&self) -> bool {
        &&& (self.unique() matches Some(h) ==> h.wf())
        &&& (self.kind() == InferColumnType::Enum ==> self.unique() is Some)
    }

    /// Nothing seen yet.
    pub fn new(infer_options: &'a InferOptions) -> (r: Self)
        ensures
            r.wf(),
            r.options() == *infer_options,
            r.kind() == InferColumnType::Unknown,
            r.unique() matches Some(h) && h.spec_entries().len() == 0,
    {
        InferStats {
            infer_options,
            column_type: InferColumnType::Unknown,
            unique_values: Some(Histogram::new()),
        }
    }

    /// Takes in one more value of the column. The caller tells whether it reads as a finite number.
    pub fn update(&mut self, value: &str, value_is_finite_number: bool)
        requires
            old(self).wf(),
        ensures
            final(self).wf(),
            final(self).options() == old(self).options(),
            is_default_invalid_value(value@) ==> (final(self).kind() == old(self).kind() && final(self).unique()
                == old(self).unique()),
            !is_default_invalid_value(value@) ==> {
                &&& match old(self).unique() {
                    None => final(self).unique() is None,
                    Some(h) => {
                        let grown = h.spec_entries().len() + if h.contains(value@) {
                            0int
                        } else {
                            1int
                        };
                        if grown > old(self).options().enum_max_unique_values {
                            final(self).unique() is None
                        } else {
                            final(self).unique() matches Some(h2) && h2.spec_entries().len() == grown
                                && forall|k: Seq<char>| #[trigger] h2.contains(k) <==> (h.contains(k) || k == value@)
                        }
                    },
                }
                &&& final(self).kind() == next_column_type(
                    old(self).kind(),
                    value_is_finite_number,
                    final(self).unique() is Some,
                )
            },
    {
        if is_invalid_value(value) {
            return;
        }
        let max = self.infer_options.enum_max_unique_values;
        let unique_values = self.unique_values.take();
        self.unique_values = match unique_values {
            Some(mut unique_values) => {
                let value_string = value.to_owned();
                if !unique_values.contains_key(&value_string) {
                    unique_values.add(value_string, 0);
                }
                if unique_values.len() > max {
                    None
                } else {
                    Some(unique_values)
                }
            },
            None => None,
        };
        match self.column_type {
            InferColumnType::Unknown | InferColumnType::Number => {
                if value_is_finite_number {
                    self.column_type = InferColumnType::Number;
                } else if self.unique_values.is_some() {
                    self.column_type = InferColumnType::Enum;
                } else {
                    self.column_type = InferColumnType::Text;
                }
            },
            InferColumnType::Enum => {
                if self.unique_values.is_none() {
                    self.column_type = InferColumnType::Text;
                }
            },
            InferColumnType::Text => {},
        }
    }
}

/// What the values of a column, taken in order, tell of its type: the type they
/// suggest, and their distinct valid values while there are at most `max` of them.
/// `numbers[i]` tells whether `values[i]` reads as a finite number.
pub open spec fn infer_state(values: Seq<Seq<char>>, numbers: Seq<bool>, max: nat) -> (InferColumnType, Option<
    Set<Seq<char>>,
>)
    decreases values.len(),
{
    if values.len() == 0 {
        (InferColumnType::Unknown, Some(Set::empty()))
    } else {
        let (kind, unique) = infer_state(values.drop_last(), numbers.drop_last(), max);
        let v = values.last();
        if is_default_invalid_value(v) {
            (kind, unique)
        } else {
            let grown = match unique {
                None => None,
                Some(s) => if s.insert(v).len() > max {
                    None
                } else {
                    Some(s.insert(v))
                },
            };
            (next_column_type(kind, numbers.last(), grown is Some), grown)
        }
    }
}

/// The strings of a set, in increasing byte order.
pub open spec fn sorted_values(s: Set<Seq<char>>) -> Seq<Seq<char>> {
    choose|q: Seq<Seq<char>>| keys_sorted::<String>(q) && forall|k: Seq<char>| #[trigger] q.contains(k) <==> s.contains(k)
}

/// The type inferred for a column from its values: see `InferStats::finalize`.
pub open spec fn inferred_type(values: Seq<Seq<char>>, numbers: Seq<bool>, max: nat) -> ColumnTypeView {
    let (kind, unique) = infer_state(values, numbers, max);
    match kind {
        InferColumnType::Unknown => ColumnTypeView::Unknown,
        InferColumnType::Number => match unique {
            Some(s) => if is_zero_one(sorted_values(s)) {
                ColumnTypeView::Enum { options: sorted_values(s) }
            } else {
                ColumnTypeView::Number
            },
            None => ColumnTypeView::Number,
        },
        InferColumnType::Enum => ColumnTypeView::Enum { options: sorted_values(unique->0) },
        InferColumnType::Text => ColumnTypeView::Text,
    }
}

/// The views of a list of strings.
pub open spec fn string_views(v: Seq<String>) -> Seq<Seq<char>> {
    v.map_values(|s: String| s@)
}

/// Whether the sorted distinct values are exactly `"0"` and `"1"`.
pub open spec fn is_zero_one(keys: Seq<Seq<char>>) -> bool {
    keys.len() == 2 && keys[0] == "0"@ && keys[1] == "1"@
}

impl<'a> InferStats<'a> {
    /// The column type that the values seen suggest. A number column whose valid
    /// values are all zero or one, that is whose distinct values, while few enough to
    /// be kept, are exactly `"0"` and `"1"`, is an enum column with those two options. An enum column's options are its
    /// distinct values, sorted.
    pub fn finalize(self) -> (r: DataFrameColumnType)
        requires
            self.wf(),
        ensures
            match self.kind() {
                InferColumnType::Unknown => r is Unknown,
                InferColumnType::Number => match self.unique() {
                    Some(h) => if is_zero_one(h.key_views()) {
                        r matches DataFrameColumnType::Enum { options } && string_views(options@) == h.key_views()
                    } else {
                        r is Number
                    },
                    None => r is Number,
                },
                InferColumnType::Enum => r matches DataFrameColumnType::Enum { options } && string_views(options@)
                    == self.unique()->0.key_views(),
                InferColumnType::Text => r is Text,
            },
    {
        match self.column_type {
            InferColumnType::Unknown => DataFrameColumnType::Unknown,
            InferColumnType::Number => {
                if let Some(unique_values) = self.unique_values {
                    let values = unique_values.keys();
                    if values.len() == 2 && str_equals(values[0].as_str(), "0") && str_equals(values[1].as_str(), "1") {
                        assert(string_views(values@) =~= unique_values.key_views());
                        return DataFrameColumnType::Enum { options: values };
                    }
                    proof {
                        if is_zero_one(unique_values.key_views()) {
                            assert(values@[0]@ == unique_values.key_views()[0]);
                            assert(values@[1]@ == unique_values.key_views()[1]);
                        }
                    }
                }
                DataFrameColumnType::Number
            },
            InferColumnType::Enum => {
                let unique_values = self.unique_values.unwrap();
                let values = unique_values.keys();
                assert(string_views(values@) =~= unique_values.key_views());
                DataFrameColumnType::Enum { options: values }
            },
            InferColumnType::Text => DataFrameColumnType::Text,
        }
    }
}

/// The distinct valid values among `values`: those not read as missing.
pub open spec fn valid_value_set(values: Seq<Seq<char>>) -> Set<Seq<char>>
    decreases values.len(),
{
    if values.len() == 0 {
        Set::empty()
    } else if is_default_invalid_value(values.last()) {
        valid_value_set(values.drop_last())
    } else {
        valid_value_set(values.drop_last()).insert(values.last())
    }
}

/// Whether every valid value among `values` reads as a finite number
/// (`numbers[i]` tells it of `values[i]`).
pub open spec fn all_valid_numbers(values: Seq<Seq<char>>, numbers: Seq<bool>) -> bool
    decreases values.len(),
{
    if values.len() == 0 {
        true
    } else {
        all_valid_numbers(values.drop_last(), numbers.drop_last()) && (is_default_invalid_value(values.last())
            || numbers.last())
    }
}

/// The column type of values, stated whole: unknown without a valid value; when
/// every valid value is a number, an enum with the options `"0"` and `"1"` when the
/// distinct valid values are exactly those two (and no more than `max`), else a
/// number column; otherwise an enum column of the distinct valid values, sorted,
/// when there are at most `max` of them, else a text column.
pub open spec fn closed_inferred_type(values: Seq<Seq<char>>, numbers: Seq<bool>, max: nat) -> ColumnTypeView {
    let d = valid_value_set(values);
    if d.len() == 0 {
        ColumnTypeView::Unknown
    } else if all_valid_numbers(values, numbers) {
        if d.len() <= max && is_zero_one(sorted_values(d)) {
            ColumnTypeView::Enum { options: sorted_values(d) }
        } else {
            ColumnTypeView::Number
        }
    } else if d.len() <= max {
        ColumnTypeView::Enum { options: sorted_values(d) }
    } else {
        ColumnTypeView::Text
    }
}

/// What the values tell of the type, stated whole: see `closed_inferred_type`.
pub open spec fn closed_kind(values: Seq<Seq<char>>, numbers: Seq<bool>, max: nat) -> InferColumnType {
    if valid_value_set(values).len() == 0 {
        InferColumnType::Unknown
    } else if all_valid_numbers(values, numbers) {
        InferColumnType::Number
    } else if valid_value_set(values).len() <= max {
        InferColumnType::Enum
    } else {
        InferColumnType::Text
    }
}

proof fn lemma_non_number_is_valid(values: Seq<Seq<char>>, numbers: Seq<bool>)
    requires
        numbers.len() == values.len(),
        !all_valid_numbers(values, numbers),
    ensures
        valid_value_set(values).len() > 0,
        valid_value_set(values).finite(),
    decreases values.len(),
{
    lemma_valid_value_set_finite(values);
    let p = values.drop_last();
    let set = valid_value_set(p);
    lemma_valid_value_set_finite(p);
    if !is_default_invalid_value(values.last()) {
        let grown = set.insert(values.last());
        assert(grown.contains(values.last()));
        if grown.len() == 0 {
            grown.lemma_len0_is_empty();
        }
    } else {
        lemma_non_number_is_valid(p, numbers.drop_last());
    }
}

proof fn lemma_valid_value_set_finite(values: Seq<Seq<char>>)
    ensures
        valid_value_set(values).finite(),
    decreases values.len(),
{
    if values.len() > 0 {
        lemma_valid_value_set_finite(values.drop_last());
    }
}

proof fn lemma_infer_state_closed(values: Seq<Seq<char>>, numbers: Seq<bool>, max: nat)
    requires
        numbers.len() == values.len(),
    ensures
        valid_value_set(values).finite(),
        infer_state(values, numbers, max).0 == closed_kind(values, numbers, max),
        infer_state(values, numbers, max).1 == if valid_value_set(values).len() <= max {
            Some(valid_value_set(values))
        } else {
            None::<Set<Seq<char>>>
        },
    decreases values.len(),
{
    if values.len() > 0 {
        let p = values.drop_last();
        let q = numbers.drop_last();
        lemma_infer_state_closed(p, q, max);
        lemma_valid_value_set_finite(p);
        if !all_valid_numbers(p, q) {
            lemma_non_number_is_valid(p, q);
        }
        let v = values.last();
        let set = valid_value_set(p);
        if !is_default_invalid_value(v) {
            let grown = set.insert(v);
            assert(grown.finite());
            if set.contains(v) {
                assert(grown =~= set);
            } else {
                assert(grown.len() == set.len() + 1);
            }
            assert(grown.len() >= 1) by {
                assert(grown.contains(v));
                if grown.len() == 0 {
                    grown.lemma_len0_is_empty();
                }
            }
        }
    }
}

/// The type that inference gives is its closed form: the type depends only on
/// whether there is a valid value, whether all valid values are numbers, and the
/// distinct valid values, whatever the order the values came in.
pub proof fn lemma_inferred_type_closed_form(values: Seq<Seq<char>>, numbers: Seq<bool>, max: nat)
    requires
        numbers.len() == values.len(),
    ensures
        inferred_type(values, numbers, max) == closed_inferred_type(values, numbers, max),
{
    lemma_infer_state_closed(values, numbers, max);
}

} // verus!
