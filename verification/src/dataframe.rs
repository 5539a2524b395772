//! Dataframes: two-dimensional tables whose columns each have their own type,
//! and views that borrow parts of them.
//!
//! The values of number columns are carried as a type parameter `N`: the logic
//! here stores, moves and splits them but never computes on them. An enum value
//! is 0 when invalid, else one more than the index of its option.

use crate::infer::{string_views, str_equals, ColumnTypeView, DataFrameColumnType};
use rand::seq::SliceRandom;
use rand::SeedableRng;
use rand_xoshiro::Xoshiro256Plus;
use vstd::prelude::*;

verus! {

#[derive(Debug, Clone)]
pub struct DataFrame<N> {
    pub columns: Vec<DataFrameColumn<N>>,
}

#[derive(Debug, Clone)]
pub enum DataFrameColumn<N> {
    Unknown(UnknownDataFrameColumn),
    Number(NumberDataFrameColumn<N>),
    Enum(EnumDataFrameColumn),
    Text(TextDataFrameColumn),
}

#[derive(Debug, Clone)]
pub struct UnknownDataFrameColumn {
    pub name: Option<String>,
    pub len: usize,
}

#[derive(Debug, Clone)]
pub struct NumberDataFrameColumn<N> {
    pub name: Option<String>,
    pub data: Vec<N>,
}

#[derive(Debug, Clone)]
pub struct EnumDataFrameColumn {
    pub name: Option<String>,
    pub options: Vec<String>,
    pub data: Vec<usize>,
}

#[derive(Debug, Clone)]
pub struct TextDataFrameColumn {
    pub name: Option<String>,
    pub data: Vec<String>,
}

#[derive(Debug, Clone)]
pub struct DataFrameView<'a, N> {
    pub columns: Vec<DataFrameColumnView<'a, N>>,
}

#[derive(Debug, Clone, Copy)]
pub enum DataFrameColumnView<'a, N> {
    Unknown(UnknownDataFrameColumnView<'a>),
    Number(NumberDataFrameColumnView<'a, N>),
    Enum(EnumDataFrameColumnView<'a>),
    Text(TextDataFrameColumnView<'a>),
}

#[derive(Debug, Clone, Copy)]
pub struct UnknownDataFrameColumnView<'a> {
    pub name: Option<&'a str>,
    pub len: usize,
}

#[derive(Debug, Clone, Copy)]
pub struct NumberDataFrameColumnView<'a, N> {
    pub name: Option<&'a str>,
    pub data: &'a [N],
}

#[derive(Debug, Clone, Copy)]
pub struct EnumDataFrameColumnView<'a> {
    pub name: Option<&'a str>,
    pub options: &'a [String],
    pub data: &'a [usize],
}

#[derive(Debug, Clone, Copy)]
pub struct TextDataFrameColumnView<'a> {
    pub name: Option<&'a str>,
    pub data: &'a [String],
}

/// The type of a column view.
#[derive(Debug, Clone, Copy)]
pub enum DataFrameColumnTypeView<'a> {
    Unknown,
    Number,
    Enum { options: &'a [String] },
    Text,
}

/// One value of a dataframe.
#[derive(Debug, Clone, Copy)]
pub enum DataFrameValue<'a, N> {
    Unknown,
    Number(N),
    Enum(usize),
    Text(&'a str),
}

/// The number of values of a column.
pub open spec fn column_len<N>(c: DataFrameColumn<N>) -> nat {
    match c {
        DataFrameColumn::Unknown(c) => c.len as nat,
        DataFrameColumn::Number(c) => c.data@.len(),
        DataFrameColumn::Enum(c) => c.data@.len(),
        DataFrameColumn::Text(c) => c.data@.len(),
    }
}

/// The name of a column.
pub open spec fn column_name<N>(c: DataFrameColumn<N>) -> Option<String> {
    match c {
        DataFrameColumn::Unknown(c) => c.name,
        DataFrameColumn::Number(c) => c.name,
        DataFrameColumn::Enum(c) => c.name,
        DataFrameColumn::Text(c) => c.name,
    }
}

/// The type of a column.
pub open spec fn column_type_view<N>(c: DataFrameColumn<N>) -> ColumnTypeView {
    match c {
        DataFrameColumn::Unknown(_) => ColumnTypeView::Unknown,
        DataFrameColumn::Number(_) => ColumnTypeView::Number,
        DataFrameColumn::Enum(c) => ColumnTypeView::Enum { options: string_views(c.options@) },
        DataFrameColumn::Text(_) => ColumnTypeView::Text,
    }
}

/// Whether a column has the given type and no values.
pub open spec fn is_empty_column_of_type<N>(c: DataFrameColumn<N>, t: DataFrameColumnType) -> bool {
    match (c, t) {
        (DataFrameColumn::Unknown(c), DataFrameColumnType::Unknown) => c.len == 0,
        (DataFrameColumn::Number(c), DataFrameColumnType::Number) => c.data@.len() == 0,
        (DataFrameColumn::Enum(c), DataFrameColumnType::Enum { options }) => c.data@.len() == 0 && c.options@ == options@,
        (DataFrameColumn::Text(c), DataFrameColumnType::Text) => c.data@.len() == 0,
        _ => false,
    }
}

/// The number of values of a column view.
pub open spec fn view_len<'a, N>(c: DataFrameColumnView<'a, N>) -> nat {
    match c {
        DataFrameColumnView::Unknown(c) => c.len as nat,
        DataFrameColumnView::Number(c) => c.data@.len(),
        DataFrameColumnView::Enum(c) => c.data@.len(),
        DataFrameColumnView::Text(c) => c.data@.len(),
    }
}

/// The name of a column as a borrowed string.
pub open spec fn name_view(name: Option<String>, r: Option<&str>) -> bool {
    match (name, r) {
        (Some(a), Some(b)) => a@ == b@,
        (None, None) => true,
        _ => false,
    }
}

/// The view of a column: the same name, type, options and values.
pub open spec fn is_view_of<'a, N>(v: DataFrameColumnView<'a, N>, c: DataFrameColumn<N>) -> bool {
    match (v, c) {
        (DataFrameColumnView::Unknown(v), DataFrameColumn::Unknown(c)) => name_view(c.name, v.name) && v.len == c.len,
        (DataFrameColumnView::Number(v), DataFrameColumn::Number(c)) => name_view(c.name, v.name) && v.data@ == c.data@,
        (DataFrameColumnView::Enum(v), DataFrameColumn::Enum(c)) => name_view(c.name, v.name) && v.data@ == c.data@
            && v.options@ == c.options@,
        (DataFrameColumnView::Text(v), DataFrameColumn::Text(c)) => name_view(c.name, v.name) && v.data@ == c.data@,
        _ => false,
    }
}

fn borrow_name(name: &Option<String>) -> (r: Option<&str>)
    ensures
        name_view(*name, r),
{
    match name {
        Some(s) => Some(s.as_str()),
        None => None,
    }
}

fn clone_name(name: &Option<String>) -> (r: Option<String>)
    ensures
        r == *name,
{
    match name {
        Some(s) => Some(s.clone()),
        None => None,
    }
}

impl<N> DataFrameColumn<N> {
    /// An empty column of the given type.
    pub fn empty_of_type(name: Option<String>, column_type: DataFrameColumnType) -> (r: Self)
        ensures
            is_empty_column_of_type(r, column_type),
            column_name(r) == name,
    {
        match column_type {
            DataFrameColumnType::Unknown => DataFrameColumn::Unknown(UnknownDataFrameColumn::new(name)),
            DataFrameColumnType::Number => DataFrameColumn::Number(NumberDataFrameColumn::new(name, Vec::new())),
            DataFrameColumnType::Enum { options } => DataFrameColumn::Enum(EnumDataFrameColumn::new(name, options, Vec::new())),
            DataFrameColumnType::Text => DataFrameColumn::Text(TextDataFrameColumn::new(name, Vec::new())),
        }
    }

    /// The number of values.
    pub fn len(&self) -> (r: usize)
        ensures
            r == column_len(*self),
    {
        match self {
            DataFrameColumn::Unknown(s) => s.len(),
            DataFrameColumn::Number(s) => s.len(),
            DataFrameColumn::Enum(s) => s.len(),
            DataFrameColumn::Text(s) => s.len(),
        }
    }

    /// Whether there are no values.
    pub fn is_empty(&self) -> (r: bool)
        ensures
            r == (column_len(*self) == 0),
    {
        match self {
            DataFrameColumn::Unknown(s) => s.len == 0,
            DataFrameColumn::Number(s) => s.data.len() == 0,
            DataFrameColumn::Enum(s) => s.data.len() == 0,
            DataFrameColumn::Text(s) => s.data.len() == 0,
        }
    }

    /// The name of the column.
    pub fn name(&self) -> (r: Option<&str>)
        ensures
            name_view(column_name(*self), r),
    {
        match self {
            DataFrameColumn::Unknown(s) => borrow_name(&s.name),
            DataFrameColumn::Number(s) => borrow_name(&s.name),
            DataFrameColumn::Enum(s) => borrow_name(&s.name),
            DataFrameColumn::Text(s) => borrow_name(&s.name),
        }
    }

    pub fn as_number(&self) -> (r: Option<&NumberDataFrameColumn<N>>)
        ensures
            match self {
                DataFrameColumn::Number(s) => r == Some(s),
                _ => r is None,
            },
    {
        match self {
            DataFrameColumn::Number(s) => Some(s),
            _ => None,
        }
    }

    pub fn as_enum(&self) -> (r: Option<&EnumDataFrameColumn>)
        ensures
            match self {
                DataFrameColumn::Enum(s) => r == Some(s),
                _ => r is None,
            },
    {
        match self {
            DataFrameColumn::Enum(s) => Some(s),
            _ => None,
        }
    }

    pub fn as_text(&self) -> (r: Option<&TextDataFrameColumn>)
        ensures
            match self {
                DataFrameColumn::Text(s) => r == Some(s),
                _ => r is None,
            },
    {
        match self {
            DataFrameColumn::Text(s) => Some(s),
            _ => None,
        }
    }

    /// A view of the whole column.
    pub fn view(&self) -> (r: DataFrameColumnView<'_, N>)
        ensures
            is_view_of(r, *self),
    {
        match self {
            DataFrameColumn::Unknown(column) => DataFrameColumnView::Unknown(column.view()),
            DataFrameColumn::Number(column) => DataFrameColumnView::Number(column.view()),
            DataFrameColumn::Enum(column) => DataFrameColumnView::Enum(column.view()),
            DataFrameColumn::Text(column) => DataFrameColumnView::Text(column.view()),
        }
    }
}

impl<N> DataFrameColumn<N> {
    /// The number column, to change, if this is one.
    pub fn as_number_mut(&mut self) -> (r: Option<&mut NumberDataFrameColumn<N>>)
        ensures
            match *old(self) {
                DataFrameColumn::Number(c) => r matches Some(m) && *m == c && *final(self) == DataFrameColumn::<N>::Number(*final(m)),
                _ => r is None && *final(self) == *old(self),
            },
    {
        match self {
            DataFrameColumn::Number(s) => Some(s),
            _ => None,
        }
    }

    /// The enum column, to change, if this is one.
    pub fn as_enum_mut(&mut self) -> (r: Option<&mut EnumDataFrameColumn>)
        ensures
            match *old(self) {
                DataFrameColumn::Enum(c) => r matches Some(m) && *m == c && *final(self) == DataFrameColumn::<N>::Enum(*final(m)),
                _ => r is None && *final(self) == *old(self),
            },
    {
        match self {
            DataFrameColumn::Enum(s) => Some(s),
            _ => None,
        }
    }

    /// The text column, to change, if this is one.
    pub fn as_text_mut(&mut self) -> (r: Option<&mut TextDataFrameColumn>)
        ensures
            match *old(self) {
                DataFrameColumn::Text(c) => r matches Some(m) && *m == c && *final(self) == DataFrameColumn::<N>::Text(*final(m)),
                _ => r is None && *final(self) == *old(self),
            },
    {
        match self {
            DataFrameColumn::Text(s) => Some(s),
            _ => None,
        }
    }
}

impl UnknownDataFrameColumn {
    pub fn new(name: Option<String>) -> (r: Self)
        ensures
            r.name == name,
            r.len == 0,
    {
        UnknownDataFrameColumn { name, len: 0 }
    }

    pub fn name(&self) -> (r: &Option<String>)
        ensures
            *r == self.name,
    {
        &self.name
    }

    pub fn is_empty(&self) -> (r: bool)
        ensures
            r == (self.len == 0),
    {
        self.len == 0
    }

    pub fn len(&self) -> (r: usize)
        ensures
            r == self.len,
    {
        self.len
    }

    /// The number of values, to change.
    pub fn len_mut(&mut self) -> (r: &mut usize)
        ensures
            *r == old(self).len,
            final(self).len == *final(r),
            final(self).name == old(self).name,
    {
        &mut self.len
    }

    pub fn view(&self) -> (r: UnknownDataFrameColumnView<'_>)
        ensures
            name_view(self.name, r.name),
            r.len == self.len,
    {
        UnknownDataFrameColumnView { name: borrow_name(&self.name), len: self.len }
    }
}

impl<N> NumberDataFrameColumn<N> {
    pub fn new(name: Option<String>, data: Vec<N>) -> (r: Self)
        ensures
            r.name == name,
            r.data == data,
    {
        NumberDataFrameColumn { name, data }
    }

    pub fn name(&self) -> (r: &Option<String>)
        ensures
            *r == self.name,
    {
        &self.name
    }

    pub fn is_empty(&self) -> (r: bool)
        ensures
            r == (self.data@.len() == 0),
    {
        self.data.len() == 0
    }

    pub fn len(&self) -> (r: usize)
        ensures
            r == self.data@.len(),
    {
        self.data.len()
    }

    /// The values, in order.
    pub fn data(&self) -> (r: &[N])
        ensures
            r@ == self.data@,
    {
        self.data.as_slice()
    }

    /// The values, in order, one by one.
    pub fn iter(&self) -> (r: std::slice::Iter<'_, N>)
        ensures
            vstd::std_specs::slice::into_iter_elts(r) == self.data@,
    {
        let r = self.data.as_slice().iter();
        proof {
            broadcast use vstd::std_specs::slice::axiom_spec_slice_iter;
            assert(vstd::std_specs::slice::into_iter_elts(r) =~= self.data@);
        }
        r
    }

    /// The values, to change.
    pub fn data_mut(&mut self) -> (r: &mut Vec<N>)
        ensures
            *r == old(self).data,
            final(self).data == *final(r),
            final(self).name == old(self).name,
    {
        &mut self.data
    }

    pub fn view(&self) -> (r: NumberDataFrameColumnView<'_, N>)
        ensures
            name_view(self.name, r.name),
            r.data@ == self.data@,
    {
        NumberDataFrameColumnView { name: borrow_name(&self.name), data: self.data.as_slice() }
    }
}

impl EnumDataFrameColumn {
    pub fn new(name: Option<String>, options: Vec<String>, data: Vec<usize>) -> (r: Self)
        ensures
            r.name == name,
            r.options == options,
            r.data == data,
    {
        EnumDataFrameColumn { name, options, data }
    }

    pub fn name(&self) -> (r: &Option<String>)
        ensures
            *r == self.name,
    {
        &self.name
    }

    pub fn options(&self) -> (r: &[String])
        ensures
            r@ == self.options@,
    {
        self.options.as_slice()
    }

    pub fn is_empty(&self) -> (r: bool)
        ensures
            r == (self.data@.len() == 0),
    {
        self.data.len() == 0
    }

    pub fn len(&self) -> (r: usize)
        ensures
            r == self.data@.len(),
    {
        self.data.len()
    }

    /// The values, in order.
    pub fn data(&self) -> (r: &[usize])
        ensures
            r@ == self.data@,
    {
        self.data.as_slice()
    }

    /// The values, in order, one by one.
    pub fn iter(&self) -> (r: std::slice::Iter<'_, usize>)
        ensures
            vstd::std_specs::slice::into_iter_elts(r) == self.data@,
    {
        let r = self.data.as_slice().iter();
        proof {
            broadcast use vstd::std_specs::slice::axiom_spec_slice_iter;
            assert(vstd::std_specs::slice::into_iter_elts(r) =~= self.data@);
        }
        r
    }

    /// The values, to change.
    pub fn data_mut(&mut self) -> (r: &mut Vec<usize>)
        ensures
            *r == old(self).data,
            final(self).data == *final(r),
            final(self).name == old(self).name,
            final(self).options == old(self).options,
    {
        &mut self.data
    }

    pub fn view(&self) -> (r: EnumDataFrameColumnView<'_>)
        ensures
            name_view(self.name, r.name),
            r.data@ == self.data@,
            r.options@ == self.options@,
    {
        EnumDataFrameColumnView {
            name: borrow_name(&self.name),
            data: self.data.as_slice(),
            options: self.options.as_slice(),
        }
    }

    /// The value that an option stands for, or `None` when it is not an option of the column.
    pub fn value_for_option(&self, option: &str) -> (r: Option<usize>)
        requires
            self.options@.len() < usize::MAX,
        ensures
            match r {
                Some(v) => 1 <= v <= self.options@.len() && self.options@[v - 1]@ == option@ && forall|j: int|
                    v <= j < self.options@.len() ==> #[trigger] self.options@[j]@ != option@,
                None => forall|j: int| 0 <= j < self.options@.len() ==> #[trigger] self.options@[j]@ != option@,
            },
    {
        let mut i: usize = self.options.len();
        while i > 0
            invariant
                i <= self.options@.len(),
                self.options@.len() < usize::MAX,
                forall|j: int| i <= j < self.options@.len() ==> #[trigger] self.options@[j]@ != option@,
            decreases i,
        {
            if str_equals(self.options[i - 1].as_str(), option) {
                return Some(i);
            }
            i = i - 1;
        }
        None
    }
}

impl TextDataFrameColumn {
    pub fn new(name: Option<String>, data: Vec<String>) -> (r: Self)
        ensures
            r.name == name,
            r.data == data,
    {
        TextDataFrameColumn { name, data }
    }

    pub fn name(&self) -> (r: &Option<String>)
        ensures
            *r == self.name,
    {
        &self.name
    }

    pub fn is_empty(&self) -> (r: bool)
        ensures
            r == (self.data@.len() == 0),
    {
        self.data.len() == 0
    }

    pub fn len(&self) -> (r: usize)
        ensures
            r == self.data@.len(),
    {
        self.data.len()
    }

    /// The values, in order.
    pub fn data(&self) -> (r: &[String])
        ensures
            r@ == self.data@,
    {
        self.data.as_slice()
    }

    /// The values, in order, one by one.
    pub fn iter(&self) -> (r: std::slice::Iter<'_, String>)
        ensures
            vstd::std_specs::slice::into_iter_elts(r) == self.data@,
    {
        let r = self.data.as_slice().iter();
        proof {
            broadcast use vstd::std_specs::slice::axiom_spec_slice_iter;
            assert(vstd::std_specs::slice::into_iter_elts(r) =~= self.data@);
        }
        r
    }

    /// The values, to change.
    pub fn data_mut(&mut self) -> (r: &mut Vec<String>)
        ensures
            *r == old(self).data,
            final(self).data == *final(r),
            final(self).name == old(self).name,
    {
        &mut self.data
    }

    pub fn view(&self) -> (r: TextDataFrameColumnView<'_>)
        ensures
            name_view(self.name, r.name),
            r.data@ == self.data@,
    {
        TextDataFrameColumnView { name: borrow_name(&self.name), data: self.data.as_slice() }
    }
}

impl<N> DataFrame<N> {
    /// An empty dataframe with a column for each name and type, as far as both lists go.
    pub fn new(column_names: Vec<Option<String>>, column_types: Vec<DataFrameColumnType>) -> (r: Self)
        ensures
            r.columns@.len() == if column_names@.len() < column_types@.len() {
                column_names@.len()
            } else {
                column_types@.len()
            },
            forall|i: int|
                0 <= i < r.columns@.len() ==> is_empty_column_of_type(#[trigger] r.columns@[i], column_types@[i])
                    && column_name(r.columns@[i]) == column_names@[i],
    {
        let ghost names = column_names@;
        let ghost types = column_types@;
        let mut column_names = column_names;
        let mut column_types = column_types;
        let n = if column_names.len() < column_types.len() {
            column_names.len()
        } else {
            column_types.len()
        };
        column_names.truncate(n);
        column_types.truncate(n);
        let mut reversed: Vec<DataFrameColumn<N>> = Vec::new();
        while column_names.len() > 0
            invariant
                column_names@.len() == column_types@.len(),
                column_names@.len() + reversed@.len() == n,
                n <= names.len(),
                n <= types.len(),
                column_names@ == names.subrange(0, column_names@.len() as int),
                column_types@ == types.subrange(0, column_types@.len() as int),
                forall|k: int|
                    0 <= k < reversed@.len() ==> is_empty_column_of_type(#[trigger] reversed@[k], types[n - 1 - k])
                        && column_name(reversed@[k]) == names[n - 1 - k],
            decreases column_names@.len(),
        {
            let name = column_names.pop().unwrap();
            let column_type = column_types.pop().unwrap();
            reversed.push(DataFrameColumn::empty_of_type(name, column_type));
        }
        let mut columns: Vec<DataFrameColumn<N>> = Vec::new();
        while reversed.len() > 0
            invariant
                columns@.len() + reversed@.len() == n,
                n <= names.len(),
                n <= types.len(),
                forall|k: int|
                    0 <= k < reversed@.len() ==> is_empty_column_of_type(#[trigger] reversed@[k], types[n - 1 - k])
                        && column_name(reversed@[k]) == names[n - 1 - k],
                forall|k: int|
                    0 <= k < columns@.len() ==> is_empty_column_of_type(#[trigger] columns@[k], types[k])
                        && column_name(columns@[k]) == names[k],
            decreases reversed@.len(),
        {
            let column = reversed.pop().unwrap();
            columns.push(column);
        }
        DataFrame { columns }
    }

    pub fn columns(&self) -> (r: &Vec<DataFrameColumn<N>>)
        ensures
            r == &self.columns,
    {
        &self.columns
    }

    /// The columns, to change.
    pub fn columns_mut(&mut self) -> (r: &mut Vec<DataFrameColumn<N>>)
        ensures
            *r == old(self).columns,
            final(self).columns == *final(r),
    {
        &mut self.columns
    }

    /// The number of columns.
    pub fn ncols(&self) -> (r: usize)
        ensures
            r == self.columns@.len(),
    {
        self.columns.len()
    }

    /// The number of rows: the length of the first column, 0 when there is none.
    pub fn nrows(&self) -> (r: usize)
        ensures
            r == if self.columns@.len() == 0 {
                0
            } else {
                column_len(self.columns@[0])
            },
    {
        if self.columns.len() == 0 {
            0
        } else {
            self.columns[0].len()
        }
    }

    /// A view of the whole dataframe.
    pub fn view(&self) -> (r: DataFrameView<'_, N>)
        ensures
            r.columns@.len() == self.columns@.len(),
            forall|i: int| 0 <= i < r.columns@.len() ==> is_view_of(#[trigger] r.columns@[i], self.columns@[i]),
    {
        let mut columns: Vec<DataFrameColumnView<'_, N>> = Vec::new();
        let mut i: usize = 0;
        while i < self.columns.len()
            invariant
                i <= self.columns@.len(),
                columns@.len() == i,
                forall|k: int| 0 <= k < i ==> is_view_of(#[trigger] columns@[k], self.columns@[k]),
            decreases self.columns@.len() - i,
        {
            columns.push(self.columns[i].view());
            i = i + 1;
        }
        DataFrameView { columns }
    }
}

/// Whether `v` is the value that row `index` of a column view holds.
pub open spec fn is_value_at<'a, N>(v: DataFrameValue<'a, N>, c: DataFrameColumnView<'a, N>, index: int) -> bool {
    match c {
        DataFrameColumnView::Unknown(_) => v is Unknown,
        DataFrameColumnView::Number(c) => v == DataFrameValue::<'a, N>::Number(c.data@[index]),
        DataFrameColumnView::Enum(c) => v == DataFrameValue::<'a, N>::Enum(c.data@[index]),
        DataFrameColumnView::Text(c) => v matches DataFrameValue::Text(t) && t@ == c.data@[index]@,
    }
}

/// Whether a row index can be read from a column view: unknown columns have no values to read.
pub open spec fn readable_at<'a, N>(c: DataFrameColumnView<'a, N>, index: int) -> bool {
    match c {
        DataFrameColumnView::Unknown(_) => true,
        _ => 0 <= index < view_len(c),
    }
}

/// The rows before `index` and the rows from `index` on, of one column view.
pub open spec fn is_split_of<'a, N>(
    a: DataFrameColumnView<'a, N>,
    b: DataFrameColumnView<'a, N>,
    c: DataFrameColumnView<'a, N>,
    index: int,
) -> bool {
    match (a, b, c) {
        (DataFrameColumnView::Unknown(a), DataFrameColumnView::Unknown(b), DataFrameColumnView::Unknown(c)) => a.name
            == c.name && b.name == c.name && a.len == index && b.len == c.len - index,
        (DataFrameColumnView::Number(a), DataFrameColumnView::Number(b), DataFrameColumnView::Number(c)) => a.name
            == c.name && b.name == c.name && a.data@ == c.data@.subrange(0, index) && b.data@ == c.data@.subrange(
            index,
            c.data@.len() as int,
        ),
        (DataFrameColumnView::Enum(a), DataFrameColumnView::Enum(b), DataFrameColumnView::Enum(c)) => a.name == c.name
            && b.name == c.name && a.options@ == c.options@ && b.options@ == c.options@ && a.data@
            == c.data@.subrange(0, index) && b.data@ == c.data@.subrange(index, c.data@.len() as int),
        (DataFrameColumnView::Text(a), DataFrameColumnView::Text(b), DataFrameColumnView::Text(c)) => a.name
            == c.name && b.name == c.name && a.data@ == c.data@.subrange(0, index) && b.data@ == c.data@.subrange(
            index,
            c.data@.len() as int,
        ),
        _ => false,
    }
}

impl<'a> UnknownDataFrameColumnView<'a> {
    pub fn name(&self) -> (r: Option<&'a str>)
        ensures
            r == self.name,
    {
        self.name
    }

    pub fn is_empty(&self) -> (r: bool)
        ensures
            r == (self.len == 0),
    {
        self.len == 0
    }

    pub fn len(&self) -> (r: usize)
        ensures
            r == self.len,
    {
        self.len
    }

    pub fn view(&self) -> (r: UnknownDataFrameColumnView<'a>)
        ensures
            r == *self,
    {
        *self
    }
}

impl<'a, N> NumberDataFrameColumnView<'a, N> {
    pub fn name(&self) -> (r: Option<&'a str>)
        ensures
            r == self.name,
    {
        self.name
    }

    pub fn data(&self) -> (r: &'a [N])
        ensures
            r@ == self.data@,
    {
        self.data
    }

    pub fn is_empty(&self) -> (r: bool)
        ensures
            r == (self.data@.len() == 0),
    {
        self.data.len() == 0
    }

    pub fn len(&self) -> (r: usize)
        ensures
            r == self.data@.len(),
    {
        self.data.len()
    }

    /// The values, in order, one by one.
    pub fn iter(&self) -> (r: std::slice::Iter<'a, N>)
        ensures
            vstd::std_specs::slice::into_iter_elts(r) == self.data@,
    {
        let r = self.data.iter();
        proof {
            broadcast use vstd::std_specs::slice::axiom_spec_slice_iter;
            assert(vstd::std_specs::slice::into_iter_elts(r) =~= self.data@);
        }
        r
    }

    pub fn as_slice(&self) -> (r: &'a [N])
        ensures
            r@ == self.data@,
    {
        self.data
    }

    pub fn view(&self) -> (r: NumberDataFrameColumnView<'a, N>)
        ensures
            r.name == self.name,
            r.data@ == self.data@,
    {
        NumberDataFrameColumnView { name: self.name, data: self.data }
    }
}

impl<'a> EnumDataFrameColumnView<'a> {
    pub fn name(&self) -> (r: Option<&'a str>)
        ensures
            r == self.name,
    {
        self.name
    }

    pub fn data(&self) -> (r: &'a [usize])
        ensures
            r@ == self.data@,
    {
        self.data
    }

    pub fn options(&self) -> (r: &'a [String])
        ensures
            r@ == self.options@,
    {
        self.options
    }

    pub fn is_empty(&self) -> (r: bool)
        ensures
            r == (self.data@.len() == 0),
    {
        self.data.len() == 0
    }

    pub fn len(&self) -> (r: usize)
        ensures
            r == self.data@.len(),
    {
        self.data.len()
    }

    /// The values, in order, one by one.
    pub fn iter(&self) -> (r: std::slice::Iter<'a, usize>)
        ensures
            vstd::std_specs::slice::into_iter_elts(r) == self.data@,
    {
        let r = self.data.iter();
        proof {
            broadcast use vstd::std_specs::slice::axiom_spec_slice_iter;
            assert(vstd::std_specs::slice::into_iter_elts(r) =~= self.data@);
        }
        r
    }

    pub fn as_slice(&self) -> (r: &'a [usize])
        ensures
            r@ == self.data@,
    {
        self.data
    }

    pub fn view(&self) -> (r: EnumDataFrameColumnView<'a>)
        ensures
            r.name == self.name,
            r.options@ == self.options@,
            r.data@ == self.data@,
    {
        EnumDataFrameColumnView { name: self.name, options: self.options, data: self.data }
    }
}

impl<'a> TextDataFrameColumnView<'a> {
    pub fn name(&self) -> (r: Option<&'a str>)
        ensures
            r == self.name,
    {
        self.name
    }

    pub fn data(&self) -> (r: &'a [String])
        ensures
            r@ == self.data@,
    {
        self.data
    }

    pub fn is_empty(&self) -> (r: bool)
        ensures
            r == (self.data@.len() == 0),
    {
        self.data.len() == 0
    }

    pub fn len(&self) -> (r: usize)
        ensures
            r == self.data@.len(),
    {
        self.data.len()
    }

    /// The values, in order, one by one.
    pub fn iter(&self) -> (r: std::slice::Iter<'a, String>)
        ensures
            vstd::std_specs::slice::into_iter_elts(r) == self.data@,
    {
        let r = self.data.iter();
        proof {
            broadcast use vstd::std_specs::slice::axiom_spec_slice_iter;
            assert(vstd::std_specs::slice::into_iter_elts(r) =~= self.data@);
        }
        r
    }

    pub fn as_slice(&self) -> (r: &'a [String])
        ensures
            r@ == self.data@,
    {
        self.data
    }

    pub fn view(&self) -> (r: TextDataFrameColumnView<'a>)
        ensures
            r.name == self.name,
            r.data@ == self.data@,
    {
        TextDataFrameColumnView { name: self.name, data: self.data }
    }
}

impl<'a, N: Copy> DataFrameColumnView<'a, N> {
    /// A copy of the view.
    pub fn view(&self) -> (r: DataFrameColumnView<'a, N>)
        ensures
            r == *self,
    {
        *self
    }

    /// The number of values.
    pub fn len(&self) -> (r: usize)
        ensures
            r == view_len(*self),
    {
        match self {
            DataFrameColumnView::Unknown(s) => s.len,
            DataFrameColumnView::Number(s) => s.data.len(),
            DataFrameColumnView::Enum(s) => s.data.len(),
            DataFrameColumnView::Text(s) => s.data.len(),
        }
    }

    /// Whether there are no values.
    pub fn is_empty(&self) -> (r: bool)
        ensures
            r == (view_len(*self) == 0),
    {
        match self {
            DataFrameColumnView::Unknown(s) => s.len == 0,
            DataFrameColumnView::Number(s) => s.data.len() == 0,
            DataFrameColumnView::Enum(s) => s.data.len() == 0,
            DataFrameColumnView::Text(s) => s.data.len() == 0,
        }
    }

    /// The name of the column.
    pub fn name(&self) -> (r: Option<&'a str>)
        ensures
            r == match *self {
                DataFrameColumnView::Unknown(s) => s.name,
                DataFrameColumnView::Number(s) => s.name,
                DataFrameColumnView::Enum(s) => s.name,
                DataFrameColumnView::Text(s) => s.name,
            },
    {
        match self {
            DataFrameColumnView::Unknown(s) => s.name,
            DataFrameColumnView::Number(s) => s.name,
            DataFrameColumnView::Enum(s) => s.name,
            DataFrameColumnView::Text(s) => s.name,
        }
    }

    /// The type of the column.
    pub fn column_type(&self) -> (r: DataFrameColumnTypeView<'a>)
        ensures
            match (*self, r) {
                (DataFrameColumnView::Unknown(_), DataFrameColumnTypeView::Unknown) => true,
                (DataFrameColumnView::Number(_), DataFrameColumnTypeView::Number) => true,
                (DataFrameColumnView::Enum(c), DataFrameColumnTypeView::Enum { options }) => options == c.options,
                (DataFrameColumnView::Text(_), DataFrameColumnTypeView::Text) => true,
                _ => false,
            },
    {
        match self {
            DataFrameColumnView::Unknown(_) => DataFrameColumnTypeView::Unknown,
            DataFrameColumnView::Number(_) => DataFrameColumnTypeView::Number,
            DataFrameColumnView::Enum(column) => DataFrameColumnTypeView::Enum { options: column.options },
            DataFrameColumnView::Text(_) => DataFrameColumnTypeView::Text,
        }
    }

    pub fn as_number(&self) -> (r: Option<NumberDataFrameColumnView<'a, N>>)
        ensures
            match *self {
                DataFrameColumnView::Number(s) => r == Some(s),
                _ => r is None,
            },
    {
        match self {
            DataFrameColumnView::Number(s) => Some(*s),
            _ => None,
        }
    }

    pub fn as_enum(&self) -> (r: Option<EnumDataFrameColumnView<'a>>)
        ensures
            match *self {
                DataFrameColumnView::Enum(s) => r == Some(s),
                _ => r is None,
            },
    {
        match self {
            DataFrameColumnView::Enum(s) => Some(*s),
            _ => None,
        }
    }

    pub fn as_text(&self) -> (r: Option<TextDataFrameColumnView<'a>>)
        ensures
            match *self {
                DataFrameColumnView::Text(s) => r == Some(s),
                _ => r is None,
            },
    {
        match self {
            DataFrameColumnView::Text(s) => Some(*s),
            _ => None,
        }
    }

    /// The rows before `index` and the rows from `index` on.
    pub fn split_at_row(&self, index: usize) -> (r: (DataFrameColumnView<'a, N>, DataFrameColumnView<'a, N>))
        requires
            index <= view_len(*self),
        ensures
            is_split_of(r.0, r.1, *self, index as int),
    {
        match self {
            DataFrameColumnView::Unknown(column) => (
                DataFrameColumnView::Unknown(UnknownDataFrameColumnView { name: column.name, len: index }),
                DataFrameColumnView::Unknown(UnknownDataFrameColumnView { name: column.name, len: column.len - index }),
            ),
            DataFrameColumnView::Number(column) => {
                let (data_a, data_b) = column.data.split_at(index);
                (
                    DataFrameColumnView::Number(NumberDataFrameColumnView { name: column.name, data: data_a }),
                    DataFrameColumnView::Number(NumberDataFrameColumnView { name: column.name, data: data_b }),
                )
            },
            DataFrameColumnView::Enum(column) => {
                let (data_a, data_b) = column.data.split_at(index);
                (
                    DataFrameColumnView::Enum(
                        EnumDataFrameColumnView { name: column.name, options: column.options, data: data_a },
                    ),
                    DataFrameColumnView::Enum(
                        EnumDataFrameColumnView { name: column.name, options: column.options, data: data_b },
                    ),
                )
            },
            DataFrameColumnView::Text(column) => {
                let (data_a, data_b) = column.data.split_at(index);
                (
                    DataFrameColumnView::Text(TextDataFrameColumnView { name: column.name, data: data_a }),
                    DataFrameColumnView::Text(TextDataFrameColumnView { name: column.name, data: data_b }),
                )
            },
        }
    }

    /// The value at row `index`.
    pub fn value(&self, index: usize) -> (r: DataFrameValue<'a, N>)
        requires
            readable_at(*self, index as int),
        ensures
            is_value_at(r, *self, index as int),
    {
        match self {
            DataFrameColumnView::Unknown(_) => DataFrameValue::Unknown,
            DataFrameColumnView::Number(column) => DataFrameValue::Number(column.data[index]),
            DataFrameColumnView::Enum(column) => DataFrameValue::Enum(column.data[index]),
            DataFrameColumnView::Text(column) => DataFrameValue::Text(column.data[index].as_str()),
        }
    }
}

/// Whether `v` is the value of a column view at row `i` in a table of rows: the
/// column's value there when the column has that many values, else unknown.
pub open spec fn is_row_value<'a, N>(v: DataFrameValue<'a, N>, c: DataFrameColumnView<'a, N>, i: int) -> bool {
    if i < view_len(c) {
        is_value_at(v, c, i)
    } else {
        v is Unknown
    }
}

/// Whether `v` is the value of a column at row `i` in a table of rows: the
/// column's value there when the column has that many values, else unknown.
pub open spec fn is_row_value_of_column<'a, N>(v: DataFrameValue<'a, N>, c: DataFrameColumn<N>, i: int) -> bool {
    if i < column_len(c) {
        match c {
            DataFrameColumn::Unknown(_) => v is Unknown,
            DataFrameColumn::Number(c) => v == DataFrameValue::<'a, N>::Number(c.data@[i]),
            DataFrameColumn::Enum(c) => v == DataFrameValue::<'a, N>::Enum(c.data@[i]),
            DataFrameColumn::Text(c) => v matches DataFrameValue::Text(t) && t@ == c.data@[i]@,
        }
    } else {
        v is Unknown
    }
}

/// Whether `v` is the number of a column view at row `i` in a table of numbers: a
/// number column's value, what `from_index` gives for an enum column's value, `zero`
/// where the column has fewer rows.
pub open spec fn is_number_row_value<'a, N, F: Fn(usize) -> N>(
    v: N,
    c: DataFrameColumnView<'a, N>,
    i: int,
    zero: N,
    from_index: F,
) -> bool {
    if i < view_len(c) {
        match c {
            DataFrameColumnView::Number(c) => v == c.data@[i],
            DataFrameColumnView::Enum(c) => call_ensures(from_index, (c.data@[i],), v),
            _ => false,
        }
    } else {
        v == zero
    }
}

/// Whether `v` is the number of a column at row `i` in a table of numbers: a number
/// column's value; for an enum column `zero` for an invalid value, else what
/// `from_index` gives for it; `zero` where the column has fewer rows.
pub open spec fn is_number_row_value_of_column<N, F: Fn(usize) -> N>(
    v: N,
    c: DataFrameColumn<N>,
    i: int,
    zero: N,
    from_index: F,
) -> bool {
    if i < column_len(c) {
        match c {
            DataFrameColumn::Number(c) => v == c.data@[i],
            DataFrameColumn::Enum(c) => if c.data@[i] == 0 {
                v == zero
            } else {
                call_ensures(from_index, (c.data@[i],), v)
            },
            _ => false,
        }
    } else {
        v == zero
    }
}

/// Whether an enum column view's value at row `i`, when it has one, is valid.
pub open spec fn valid_enum_at<'a, N>(c: DataFrameColumnView<'a, N>, i: int) -> bool {
    match c {
        DataFrameColumnView::Enum(e) => i < e.data@.len() ==> e.data@[i] != 0,
        _ => true,
    }
}

/// Whether every column view is a number or enum column.
pub open spec fn all_numeric<'a, N>(columns: Seq<DataFrameColumnView<'a, N>>) -> bool {
    forall|c: int| 0 <= c < columns.len() ==> (#[trigger] columns[c] is Number || columns[c] is Enum)
}

/// Whether every column is a number or enum column.
pub open spec fn all_numeric_columns<N>(columns: Seq<DataFrameColumn<N>>) -> bool {
    forall|c: int| 0 <= c < columns.len() ==> (#[trigger] columns[c] is Number || columns[c] is Enum)
}

impl<'a, N: Copy> DataFrameView<'a, N> {
    /// A copy of the view.
    pub fn view(&self) -> (r: DataFrameView<'a, N>)
        ensures
            r.columns@ == self.columns@,
    {
        let mut columns: Vec<DataFrameColumnView<'a, N>> = Vec::new();
        let mut c: usize = 0;
        while c < self.columns.len()
            invariant
                c <= self.columns@.len(),
                columns@ == self.columns@.take(c as int),
            decreases self.columns@.len() - c,
        {
            columns.push(self.columns[c]);
            assert(self.columns@.take(c + 1) =~= self.columns@.take(c as int).push(self.columns@[c as int]));
            c = c + 1;
        }
        assert(self.columns@.take(c as int) =~= self.columns@);
        DataFrameView { columns }
    }

    /// The values row by row as numbers, when every column is a number or enum
    /// column: enum values become numbers by `from_index`, and `zero` fills the rows
    /// a column does not have. `None` when some column is of another type. Every
    /// enum value read is valid.
    pub fn to_rows_f32<F: Fn(usize) -> N>(&self, zero: N, from_index: F) -> (r: Option<Vec<Vec<N>>>)
        requires
            forall|u: usize| call_requires(from_index, (u,)),
            forall|c: int, i: int|
                0 <= c < self.columns@.len() && 0 <= i < (if self.columns@.len() == 0 {
                    0
                } else {
                    view_len(self.columns@[0])
                }) ==> #[trigger] valid_enum_at(self.columns@[c], i),
        ensures
            r is Some <==> all_numeric(self.columns@),
            r matches Some(rows) ==> {
                &&& rows@.len() == if self.columns@.len() == 0 {
                    0
                } else {
                    view_len(self.columns@[0])
                }
                &&& forall|i: int|
                    #![trigger rows@[i]]
                    0 <= i < rows@.len() ==> rows@[i]@.len() == self.columns@.len() && forall|c: int|
                        0 <= c < self.columns@.len() ==> is_number_row_value(
                            #[trigger] rows@[i]@[c],
                            self.columns@[c],
                            i,
                            zero,
                            from_index,
                        )
            },
    {
        let ncols = self.columns.len();
        let mut c: usize = 0;
        while c < ncols
            invariant
                c <= ncols,
                ncols == self.columns@.len(),
                forall|d: int| 0 <= d < c ==> (#[trigger] self.columns@[d] is Number || self.columns@[d] is Enum),
            decreases ncols - c,
        {
            match &self.columns[c] {
                DataFrameColumnView::Number(_) => {},
                DataFrameColumnView::Enum(_) => {},
                _ => {
                    return None;
                },
            }
            c = c + 1;
        }
        let nrows = self.nrows();
        let mut rows: Vec<Vec<N>> = Vec::new();
        let mut i: usize = 0;
        while i < nrows
            invariant
                i <= nrows,
                nrows == (if self.columns@.len() == 0 {
                    0
                } else {
                    view_len(self.columns@[0])
                }),
                ncols == self.columns@.len(),
                all_numeric(self.columns@),
                forall|u: usize| call_requires(from_index, (u,)),
                forall|d: int, j: int|
                    0 <= d < self.columns@.len() && 0 <= j < nrows ==> #[trigger] valid_enum_at(self.columns@[d], j),
                rows@.len() == i,
                forall|k: int|
                    #![trigger rows@[k]]
                    0 <= k < i ==> rows@[k]@.len() == ncols && forall|d: int|
                        0 <= d < ncols ==> is_number_row_value(#[trigger] rows@[k]@[d], self.columns@[d], k, zero, from_index),
            decreases nrows - i,
        {
            let mut row: Vec<N> = Vec::new();
            let mut c: usize = 0;
            while c < ncols
                invariant
                    c <= ncols,
                    i < nrows,
                    ncols == self.columns@.len(),
                    all_numeric(self.columns@),
                    forall|u: usize| call_requires(from_index, (u,)),
                    row@.len() == c,
                    forall|d: int| 0 <= d < c ==> is_number_row_value(#[trigger] row@[d], self.columns@[d], i as int, zero, from_index),
                decreases ncols - c,
            {
                assert(self.columns@[c as int] is Number || self.columns@[c as int] is Enum);
                let value = match &self.columns[c] {
                    DataFrameColumnView::Number(n) => if i < n.data.len() {
                        n.data[i]
                    } else {
                        zero
                    },
                    DataFrameColumnView::Enum(e) => if i < e.data.len() {
                        from_index(e.data[i])
                    } else {
                        zero
                    },
                    _ => zero,
                };
                row.push(value);
                c = c + 1;
            }
            rows.push(row);
            i = i + 1;
        }
        Some(rows)
    }

    /// The values row by row: row `i` holds the value of each column at row `i`,
    /// unknown where a column has fewer rows. There are as many rows as the first
    /// column has values.
    pub fn to_rows(&self) -> (r: Vec<Vec<DataFrameValue<'a, N>>>)
        ensures
            r@.len() == if self.columns@.len() == 0 {
                0
            } else {
                view_len(self.columns@[0])
            },
            forall|i: int|
                #![trigger r@[i]]
                0 <= i < r@.len() ==> r@[i]@.len() == self.columns@.len() && forall|c: int|
                    0 <= c < self.columns@.len() ==> is_row_value(#[trigger] r@[i]@[c], self.columns@[c], i),
    {
        let nrows = self.nrows();
        let ncols = self.columns.len();
        let mut rows: Vec<Vec<DataFrameValue<'a, N>>> = Vec::new();
        let mut i: usize = 0;
        while i < nrows
            invariant
                i <= nrows,
                ncols == self.columns@.len(),
                rows@.len() == i,
                forall|k: int|
                    #![trigger rows@[k]]
                    0 <= k < i ==> rows@[k]@.len() == ncols && forall|c: int|
                        0 <= c < ncols ==> is_row_value(#[trigger] rows@[k]@[c], self.columns@[c], k),
            decreases nrows - i,
        {
            let mut row: Vec<DataFrameValue<'a, N>> = Vec::new();
            let mut c: usize = 0;
            while c < ncols
                invariant
                    c <= ncols,
                    ncols == self.columns@.len(),
                    row@.len() == c,
                    forall|d: int| 0 <= d < c ==> is_row_value(#[trigger] row@[d], self.columns@[d], i as int),
                decreases ncols - c,
            {
                let column = &self.columns[c];
                let value = if i < column.len() {
                    column.value(i)
                } else {
                    DataFrameValue::Unknown
                };
                row.push(value);
                c = c + 1;
            }
            rows.push(row);
            i = i + 1;
        }
        rows
    }

    pub fn columns(&self) -> (r: &Vec<DataFrameColumnView<'a, N>>)
        ensures
            r == &self.columns,
    {
        &self.columns
    }

    /// The view of the columns at the given positions, in that order.
    pub fn subview(&self, indexes: &[usize]) -> (r: DataFrameView<'a, N>)
        requires
            forall|i: int| 0 <= i < indexes@.len() ==> #[trigger] indexes@[i] < self.columns@.len(),
        ensures
            r.columns@.len() == indexes@.len(),
            forall|i: int| 0 <= i < indexes@.len() ==> #[trigger] r.columns@[i] == self.columns@[indexes@[i] as int],
    {
        let mut columns: Vec<DataFrameColumnView<'a, N>> = Vec::new();
        let mut i: usize = 0;
        while i < indexes.len()
            invariant
                i <= indexes@.len(),
                columns@.len() == i,
                forall|k: int| 0 <= k < indexes@.len() ==> #[trigger] indexes@[k] < self.columns@.len(),
                forall|k: int| 0 <= k < i ==> #[trigger] columns@[k] == self.columns@[indexes@[k] as int],
            decreases indexes@.len() - i,
        {
            columns.push(self.columns[indexes[i]]);
            i = i + 1;
        }
        DataFrameView { columns }
    }

    /// The number of columns.
    pub fn ncols(&self) -> (r: usize)
        ensures
            r == self.columns@.len(),
    {
        self.columns.len()
    }

    /// The number of rows: the length of the first column, 0 when there is none.
    pub fn nrows(&self) -> (r: usize)
        ensures
            r == if self.columns@.len() == 0 {
                0
            } else {
                view_len(self.columns@[0])
            },
    {
        if self.columns.len() == 0 {
            0
        } else {
            self.columns[0].len()
        }
    }

    /// Reads row `index` into `row`, one value per column, as far as both go.
    pub fn read_row(&self, index: usize, row: &mut [DataFrameValue<'a, N>])
        requires
            forall|c: int| 0 <= c < self.columns@.len() ==> readable_at(#[trigger] self.columns@[c], index as int),
        ensures
            final(row)@.len() == old(row)@.len(),
            forall|c: int|
                0 <= c < final(row)@.len() ==> if c < self.columns@.len() {
                    is_value_at(#[trigger] final(row)@[c], self.columns@[c], index as int)
                } else {
                    final(row)@[c] == old(row)@[c]
                },
    {
        let mut c: usize = 0;
        let n = row.len();
        while c < n && c < self.columns.len()
            invariant
                n == row@.len(),
                n == old(row)@.len(),
                c <= n,
                forall|k: int| 0 <= k < self.columns@.len() ==> readable_at(#[trigger] self.columns@[k], index as int),
                forall|k: int|
                    0 <= k < n ==> if k < c && k < self.columns@.len() {
                        is_value_at(#[trigger] row@[k], self.columns@[k], index as int)
                    } else {
                        row@[k] == old(row)@[k]
                    },
            decreases n - c,
        {
            let value = self.columns[c].value(index);
            row[c] = value;
            c = c + 1;
        }
    }

    /// The rows before `index` and the rows from `index` on.
    pub fn split_at_row(&self, index: usize) -> (r: (DataFrameView<'a, N>, DataFrameView<'a, N>))
        requires
            forall|c: int| 0 <= c < self.columns@.len() ==> index <= view_len(#[trigger] self.columns@[c]),
        ensures
            r.0.columns@.len() == self.columns@.len(),
            r.1.columns@.len() == self.columns@.len(),
            forall|c: int|
                0 <= c < self.columns@.len() ==> is_split_of(
                    #[trigger] r.0.columns@[c],
                    r.1.columns@[c],
                    self.columns@[c],
                    index as int,
                ),
    {
        let mut columns_a: Vec<DataFrameColumnView<'a, N>> = Vec::new();
        let mut columns_b: Vec<DataFrameColumnView<'a, N>> = Vec::new();
        let mut c: usize = 0;
        while c < self.columns.len()
            invariant
                c <= self.columns@.len(),
                columns_a@.len() == c,
                columns_b@.len() == c,
                forall|k: int| 0 <= k < self.columns@.len() ==> index <= view_len(#[trigger] self.columns@[k]),
                forall|k: int|
                    0 <= k < c ==> is_split_of(#[trigger] columns_a@[k], columns_b@[k], self.columns@[k], index as int),
            decreases self.columns@.len() - c,
        {
            let (a, b) = self.columns[c].split_at_row(index);
            columns_a.push(a);
            columns_b.push(b);
            c = c + 1;
        }
        (DataFrameView { columns: columns_a }, DataFrameView { columns: columns_b })
    }
}

impl<'a, N> DataFrameValue<'a, N> {
    /// The number, to change, if this is one.
    pub fn as_number_mut(&mut self) -> (r: Option<&mut N>)
        ensures
            match *old(self) {
                DataFrameValue::Number(v) => r matches Some(m) && *m == v && *final(self) == DataFrameValue::<'a, N>::Number(*final(m)),
                _ => r is None && *final(self) == *old(self),
            },
    {
        match self {
            DataFrameValue::Number(s) => Some(s),
            _ => None,
        }
    }

    /// The enum value, to change, if this is one.
    pub fn as_enum_mut(&mut self) -> (r: Option<&mut usize>)
        ensures
            match *old(self) {
                DataFrameValue::Enum(v) => r matches Some(m) && *m == v && *final(self) == DataFrameValue::<'a, N>::Enum(*final(m)),
                _ => r is None && *final(self) == *old(self),
            },
    {
        match self {
            DataFrameValue::Enum(s) => Some(s),
            _ => None,
        }
    }

    /// The text, to change, if this is one.
    pub fn as_text_mut(&mut self) -> (r: Option<&mut &'a str>)
        ensures
            match *old(self) {
                DataFrameValue::Text(v) => r matches Some(m) && *m == v && *final(self) == DataFrameValue::<'a, N>::Text(*final(m)),
                _ => r is None && *final(self) == *old(self),
            },
    {
        match self {
            DataFrameValue::Text(s) => Some(s),
            _ => None,
        }
    }

    pub fn as_number(&self) -> (r: Option<&N>)
        ensures
            match self {
                DataFrameValue::Number(v) => r == Some(v),
                _ => r is None,
            },
    {
        match self {
            DataFrameValue::Number(s) => Some(s),
            _ => None,
        }
    }

    pub fn as_enum(&self) -> (r: Option<&usize>)
        ensures
            match self {
                DataFrameValue::Enum(v) => r == Some(v),
                _ => r is None,
            },
    {
        match self {
            DataFrameValue::Enum(s) => Some(s),
            _ => None,
        }
    }

    pub fn as_text(&self) -> (r: Option<&'a str>)
        ensures
            match *self {
                DataFrameValue::Text(v) => r == Some(v),
                _ => r is None,
            },
    {
        match self {
            DataFrameValue::Text(s) => Some(*s),
            _ => None,
        }
    }
}

/// The order that shuffling `len` items with a Xoshiro256+ generator seeded with
/// `seed` puts them in: item `i` after the shuffle is item `order[i]` before it.
pub uninterp spec fn seeded_shuffle_order(seed: u64, len: nat) -> Seq<int>;

/// Whether `after` is `before` put in the order that shuffling with `seed` gives.
pub open spec fn is_seeded_shuffle<T>(after: Seq<T>, before: Seq<T>, seed: u64) -> bool {
    let order = seeded_shuffle_order(seed, before.len());
    &&& after.len() == before.len()
    &&& forall|i: int| 0 <= i < after.len() ==> 0 <= #[trigger] order[i] < before.len() && after[i] == before[order[i]]
    &&& forall|i: int, j: int| 0 <= i < j < after.len() ==> #[trigger] order[i] != #[trigger] order[j]
}

/// Shuffles the items with a fresh Xoshiro256+ generator seeded with `seed`
/// (`Xoshiro256Plus::seed_from_u64`, then `SliceRandom::shuffle`). The Fisher-Yates
/// shuffle of that crate only swaps items, with swap positions drawn from the
/// generator, so the order it gives depends on the seed and the number of items alone.
#[verifier::external_body]
fn shuffle_with_seed<T>(data: &mut Vec<T>, seed: u64)
    ensures
        final(data)@.len() == old(data)@.len(),
        forall|i: int|
            0 <= i < final(data)@.len() ==> 0 <= #[trigger] seeded_shuffle_order(seed, old(data)@.len())[i] < old(data)@.len()
                && final(data)@[i] == old(data)@[seeded_shuffle_order(seed, old(data)@.len())[i]],
        forall|i: int, j: int|
            0 <= i < j < final(data)@.len() ==> #[trigger] seeded_shuffle_order(seed, old(data)@.len())[i]
                != #[trigger] seeded_shuffle_order(seed, old(data)@.len())[j],
{
    let mut rng = Xoshiro256Plus::seed_from_u64(seed);
    data.as_mut_slice().shuffle(&mut rng);
}

/// Whether `after` is the column `before` with its values shuffled with `seed`.
pub open spec fn is_shuffled_column<N>(after: DataFrameColumn<N>, before: DataFrameColumn<N>, seed: u64) -> bool {
    match (after, before) {
        (DataFrameColumn::Unknown(a), DataFrameColumn::Unknown(b)) => a == b,
        (DataFrameColumn::Number(a), DataFrameColumn::Number(b)) => a.name == b.name && is_seeded_shuffle(a.data@, b.data@, seed),
        (DataFrameColumn::Enum(a), DataFrameColumn::Enum(b)) => a.name == b.name && a.options == b.options && is_seeded_shuffle(a.data@, b.data@, seed),
        (DataFrameColumn::Text(a), DataFrameColumn::Text(b)) => a.name == b.name && is_seeded_shuffle(a.data@, b.data@, seed),
        _ => false,
    }
}

fn shuffle_column<N>(column: DataFrameColumn<N>, seed: u64) -> (r: DataFrameColumn<N>)
    ensures
        is_shuffled_column(r, column, seed),
{
    match column {
        DataFrameColumn::Unknown(c) => DataFrameColumn::Unknown(c),
        DataFrameColumn::Number(c) => {
            let NumberDataFrameColumn { name, data } = c;
            let mut data = data;
            shuffle_with_seed(&mut data, seed);
            DataFrameColumn::Number(NumberDataFrameColumn { name, data })
        },
        DataFrameColumn::Enum(c) => {
            let EnumDataFrameColumn { name, options, data } = c;
            let mut data = data;
            shuffle_with_seed(&mut data, seed);
            DataFrameColumn::Enum(EnumDataFrameColumn { name, options, data })
        },
        DataFrameColumn::Text(c) => {
            let TextDataFrameColumn { name, data } = c;
            let mut data = data;
            shuffle_with_seed(&mut data, seed);
            DataFrameColumn::Text(TextDataFrameColumn { name, data })
        },
    }
}

impl<N> DataFrame<N> {
    /// Shuffles the rows: every column is shuffled with a generator seeded with
    /// `seed`, so columns of the same length are put in the same order.
    pub fn shuffle(&mut self, seed: u64)
        ensures
            final(self).columns@.len() == old(self).columns@.len(),
            forall|c: int|
                0 <= c < old(self).columns@.len() ==> is_shuffled_column(
                    #[trigger] final(self).columns@[c],
                    old(self).columns@[c],
                    seed,
                ),
    {
        let mut source: Vec<DataFrameColumn<N>> = Vec::new();
        std::mem::swap(&mut source, &mut self.columns);
        let ghost initial = source@;
        let n = source.len();
        let mut reversed: Vec<DataFrameColumn<N>> = Vec::new();
        while source.len() > 0
            invariant
                source@.len() + reversed@.len() == n,
                n == initial.len(),
                source@ == initial.subrange(0, source@.len() as int),
                forall|k: int|
                    0 <= k < reversed@.len() ==> is_shuffled_column(#[trigger] reversed@[k], initial[n - 1 - k], seed),
            decreases source@.len(),
        {
            let column = source.pop().unwrap();
            reversed.push(shuffle_column(column, seed));
        }
        let mut columns: Vec<DataFrameColumn<N>> = Vec::new();
        while reversed.len() > 0
            invariant
                columns@.len() + reversed@.len() == n,
                n == initial.len(),
                forall|k: int|
                    0 <= k < reversed@.len() ==> is_shuffled_column(#[trigger] reversed@[k], initial[n - 1 - k], seed),
                forall|k: int| 0 <= k < columns@.len() ==> is_shuffled_column(#[trigger] columns@[k], initial[k], seed),
            decreases reversed@.len(),
        {
            let column = reversed.pop().unwrap();
            columns.push(column);
        }
        self.columns = columns;
    }
}

/// Shuffling keeps the rows together: in columns of the same length, row `i`
/// after the shuffle holds the values that one same row held before it.
pub proof fn lemma_shuffle_keeps_rows_together<A, B>(a_after: Seq<A>, a_before: Seq<A>, b_after: Seq<B>, b_before: Seq<B>, seed: u64, i: int)
    requires
        is_seeded_shuffle(a_after, a_before, seed),
        is_seeded_shuffle(b_after, b_before, seed),
        a_before.len() == b_before.len(),
        0 <= i < a_after.len(),
    ensures
        exists|j: int| 0 <= j < a_before.len() && a_after[i] == a_before[j] && b_after[i] == b_before[j],
{
    let j = seeded_shuffle_order(seed, a_before.len())[i];
    assert(a_after[i] == a_before[j] && b_after[i] == b_before[j]);
}

impl<N: Copy> DataFrame<N> {
    /// The values row by row as numbers, when every column is a number or enum
    /// column: enum values become numbers by `from_index`, invalid ones `zero`, and
    /// `zero` fills the rows a column does not have. `None` when some column is of
    /// another type.
    pub fn to_rows_f32<F: Fn(usize) -> N>(&self, zero: N, from_index: F) -> (r: Option<Vec<Vec<N>>>)
        requires
            forall|u: usize| call_requires(from_index, (u,)),
        ensures
            r is Some <==> all_numeric_columns(self.columns@),
            r matches Some(rows) ==> {
                &&& rows@.len() == if self.columns@.len() == 0 {
                    0
                } else {
                    column_len(self.columns@[0])
                }
                &&& forall|i: int|
                    #![trigger rows@[i]]
                    0 <= i < rows@.len() ==> rows@[i]@.len() == self.columns@.len() && forall|c: int|
                        0 <= c < self.columns@.len() ==> is_number_row_value_of_column(
                            #[trigger] rows@[i]@[c],
                            self.columns@[c],
                            i,
                            zero,
                            from_index,
                        )
            },
    {
        let ncols = self.columns.len();
        let mut c: usize = 0;
        while c < ncols
            invariant
                c <= ncols,
                ncols == self.columns@.len(),
                forall|d: int| 0 <= d < c ==> (#[trigger] self.columns@[d] is Number || self.columns@[d] is Enum),
            decreases ncols - c,
        {
            match &self.columns[c] {
                DataFrameColumn::Number(_) => {},
                DataFrameColumn::Enum(_) => {},
                _ => {
                    return None;
                },
            }
            c = c + 1;
        }
        let nrows = self.nrows();
        let mut rows: Vec<Vec<N>> = Vec::new();
        let mut i: usize = 0;
        while i < nrows
            invariant
                i <= nrows,
                nrows == (if self.columns@.len() == 0 {
                    0
                } else {
                    column_len(self.columns@[0])
                }),
                ncols == self.columns@.len(),
                all_numeric_columns(self.columns@),
                forall|u: usize| call_requires(from_index, (u,)),
                rows@.len() == i,
                forall|k: int|
                    #![trigger rows@[k]]
                    0 <= k < i ==> rows@[k]@.len() == ncols && forall|d: int|
                        0 <= d < ncols ==> is_number_row_value_of_column(#[trigger] rows@[k]@[d], self.columns@[d], k, zero, from_index),
            decreases nrows - i,
        {
            let mut row: Vec<N> = Vec::new();
            let mut c: usize = 0;
            while c < ncols
                invariant
                    c <= ncols,
                    ncols == self.columns@.len(),
                    all_numeric_columns(self.columns@),
                    forall|u: usize| call_requires(from_index, (u,)),
                    row@.len() == c,
                    forall|d: int| 0 <= d < c ==> is_number_row_value_of_column(#[trigger] row@[d], self.columns@[d], i as int, zero, from_index),
                decreases ncols - c,
            {
                assert(self.columns@[c as int] is Number || self.columns@[c as int] is Enum);
                let value = match &self.columns[c] {
                    DataFrameColumn::Number(n) => if i < n.data.len() {
                        n.data[i]
                    } else {
                        zero
                    },
                    DataFrameColumn::Enum(e) => if i < e.data.len() {
                        if e.data[i] == 0 {
                            zero
                        } else {
                            from_index(e.data[i])
                        }
                    } else {
                        zero
                    },
                    _ => zero,
                };
                row.push(value);
                c = c + 1;
            }
            rows.push(row);
            i = i + 1;
        }
        Some(rows)
    }

    /// The values row by row: row `i` holds the value of each column at row `i`,
    /// unknown where a column has fewer rows. There are as many rows as the first
    /// column has values.
    pub fn to_rows(&self) -> (r: Vec<Vec<DataFrameValue<'_, N>>>)
        ensures
            r@.len() == if self.columns@.len() == 0 {
                0
            } else {
                column_len(self.columns@[0])
            },
            forall|i: int|
                #![trigger r@[i]]
                0 <= i < r@.len() ==> r@[i]@.len() == self.columns@.len() && forall|c: int|
                    0 <= c < self.columns@.len() ==> is_row_value_of_column(#[trigger] r@[i]@[c], self.columns@[c], i),
    {
        let view = self.view();
        let rows = view.to_rows();
        proof {
            if self.columns@.len() > 0 {
                assert(is_view_of(view.columns@[0], self.columns@[0]));
            }
            assert forall|i: int, c: int|
                0 <= i < rows@.len() && 0 <= c < self.columns@.len() implies is_row_value_of_column(
                #[trigger] rows@[i]@[c],
                self.columns@[c],
                i,
            ) by {
                assert(rows@[i]@.len() == self.columns@.len());
                assert(is_view_of(view.columns@[c], self.columns@[c]));
                assert(is_row_value(rows@[i]@[c], view.columns@[c], i));
            }
        }
        rows
    }
}

} // verus!
