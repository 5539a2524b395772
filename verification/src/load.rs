//! Reading a dataframe from csv text. The type of each column whose type is not
//! given is inferred from its values; then every value is read into its column.
//!
//! Reading a number is left to the caller, who knows the number type: a field
//! reads as `Some` number when it reads as a finite one.

use crate::dataframe::{
    column_name, DataFrame, DataFrameColumn, EnumDataFrameColumn, NumberDataFrameColumn,
    TextDataFrameColumn, UnknownDataFrameColumn,
};
use crate::dataset_stats::clone_strings;
use crate::histogram::{keys_sorted, lemma_sorted_keys_unique};
use crate::infer::{
    is_zero_one, duplicate_column_type, infer_state, inferred_type, sorted_values, str_equals,
    string_views, ColumnTypeView, DataFrameColumnType, InferColumnType, InferOptions, InferStats,
};
use vstd::prelude::*;
use vstd::utf8::{decode_utf8, valid_utf8};

verus! {

#[verifier::external_type_specification]
#[verifier::external_body]
pub struct ExCsvError(csv::Error);

/// What csv text holds: the names in its header row, the fields of each record
/// as bytes, and the byte offset at which each record starts.
#[derive(Clone, Debug)]
pub struct CsvRecords {
    pub headers: Vec<String>,
    pub records: Vec<Vec<Vec<u8>>>,
    pub positions: Vec<Option<u64>>,
}

/// The fields of records, as byte strings.
pub open spec fn record_views(records: Seq<Vec<Vec<u8>>>) -> Seq<Seq<Seq<u8>>> {
    records.map_values(|r: Vec<Vec<u8>>| r@.map_values(|f: Vec<u8>| f@))
}

impl CsvRecords {
    /// The names of the columns.
    pub open spec fn header_views(&self) -> Seq<Seq<char>> {
        string_views(self.headers@)
    }

    /// The fields of the records.
    pub open spec fn fields(&self) -> Seq<Seq<Seq<u8>>> {
        record_views(self.records@)
    }

    /// Every record has one field per column and one position.
    pub open spec fn wf(&self) -> bool {
        &&& self.positions@.len() == self.records@.len()
        &&& forall|i: int| 0 <= i < self.records@.len() ==> #[trigger] self.records@[i]@.len() == self.headers@.len()
    }
}

/// What the csv reader of the `csv` crate, with its default settings (a header
/// row, commas, records of equal length), reads from the bytes: the header names,
/// the fields of the records and where each record starts; `None` where it fails.
pub uninterp spec fn csv_contents(bytes: Seq<u8>) -> Option<(Seq<Seq<char>>, Seq<Seq<Seq<u8>>>, Seq<Option<u64>>)>;

/// Reads csv text with `csv::Reader::from_reader`: the header row with `headers`,
/// then every record with `byte_records`. The reader checks that each record has
/// as many fields as the header row (the first record it reads), and it gives
/// each record read from bytes its position.
#[verifier::external_body]
fn read_csv(bytes: &[u8]) -> (r: Result<CsvRecords, csv::Error>)
    ensures
        r is Ok <==> csv_contents(bytes@) is Some,
        r matches Ok(t) ==> csv_contents(bytes@) == Some((t.header_views(), t.fields(), t.positions@)),
        r matches Ok(t) ==> t.wf(),
{
    let mut reader = csv::Reader::from_reader(bytes);
    let headers = reader.headers()?.iter().map(|h| h.to_owned()).collect();
    let byte_records = reader.byte_records().collect::<Result<Vec<csv::ByteRecord>, csv::Error>>()?;
    let positions = byte_records.iter().map(|r| r.position().map(|p| p.byte())).collect();
    let records = byte_records.iter().map(|r| r.iter().map(|f| f.to_vec()).collect()).collect();
    Ok(CsvRecords { headers, records, positions })
}

/// `std::str::from_utf8`: the text that the bytes encode, when they are valid UTF-8.
#[verifier::external_body]
fn text_from_utf8(bytes: &[u8]) -> (r: Option<String>)
    ensures
        r is Some <==> valid_utf8(bytes@),
        r matches Some(s) ==> s@ == decode_utf8(bytes@),
{
    std::str::from_utf8(bytes).ok().map(|s| s.to_owned())
}

/// Why reading a dataframe from csv failed.
#[derive(Clone, Copy, Debug, PartialEq, Eq, Structural)]
pub enum LoadError {
    /// The csv reader failed: the text is not csv, its header row is not UTF-8,
    /// or its records differ in length.
    Csv,
    /// A value that is read as text is not UTF-8.
    InvalidUtf8,
}

/// Options for reading a dataframe from csv.
#[derive(Clone, Debug)]
pub struct FromCsvOptions {
    /// Types given for columns by name; the other columns' types are inferred.
    pub column_types: Option<Vec<(String, DataFrameColumnType)>>,
    pub infer_options: InferOptions,
}

impl Default for FromCsvOptions {
    fn default() -> (r: Self)
        ensures
            r.column_types is None,
            r.infer_options.enum_max_unique_values == 100,
    {
        FromCsvOptions { column_types: None, infer_options: InferOptions::default() }
    }
}

/// The type given for a column name: that of the first entry with the name.
pub open spec fn given_type(types: Seq<(String, DataFrameColumnType)>, name: Seq<char>) -> Option<ColumnTypeView>
    decreases types.len(),
{
    if types.len() == 0 {
        None
    } else if types[0].0@ == name {
        Some(types[0].1@)
    } else {
        given_type(types.drop_first(), name)
    }
}

/// The type the options give for a column name.
pub open spec fn given_type_of(options: FromCsvOptions, name: Seq<char>) -> Option<ColumnTypeView> {
    match options.column_types {
        Some(types) => given_type(types@, name),
        None => None,
    }
}

/// The text of column `c` of the records.
pub open spec fn column_texts(fields: Seq<Seq<Seq<u8>>>, c: int) -> Seq<Seq<char>> {
    fields.map_values(|r: Seq<Seq<u8>>| decode_utf8(r[c]))
}

/// Whether each value of column `c` reads as a finite number.
pub open spec fn column_numbers<N>(parsed: Seq<Seq<Option<N>>>, c: int) -> Seq<bool> {
    parsed.map_values(|r: Seq<Option<N>>| r[c] is Some)
}

/// Whether every field is UTF-8.
pub open spec fn all_utf8(fields: Seq<Seq<Seq<u8>>>) -> bool {
    forall|i: int, c: int| 0 <= i < fields.len() && 0 <= c < fields[i].len() ==> valid_utf8(#[trigger] fields[i][c])
}

/// Whether every field of column `c` is UTF-8.
pub open spec fn column_utf8(fields: Seq<Seq<Seq<u8>>>, c: int) -> bool {
    forall|i: int| 0 <= i < fields.len() ==> valid_utf8(#[trigger] fields[i][c])
}

/// Whether some column's type is not given.
pub open spec fn needs_infer(headers: Seq<Seq<char>>, options: FromCsvOptions) -> bool {
    exists|c: int| 0 <= c < headers.len() && (#[trigger] given_type_of(options, headers[c])) is None
}

/// The type of column `c`: the one given, else the one inferred from its values.
pub open spec fn final_type<N>(
    options: FromCsvOptions,
    headers: Seq<Seq<char>>,
    fields: Seq<Seq<Seq<u8>>>,
    parsed: Seq<Seq<Option<N>>>,
    c: int,
) -> ColumnTypeView {
    match given_type_of(options, headers[c]) {
        Some(t) => t,
        None => inferred_type(
            column_texts(fields, c),
            column_numbers(parsed, c),
            options.infer_options.enum_max_unique_values as nat,
        ),
    }
}

/// The enum value of a text: one more than the index of the last option equal to it, 0 when none is.
pub open spec fn option_value(options: Seq<Seq<char>>, v: Seq<char>) -> nat
    decreases options.len(),
{
    if options.len() == 0 {
        0
    } else if options.last() == v {
        options.len()
    } else {
        option_value(options.drop_last(), v)
    }
}

/// The enum value of a field: 0 when it is not UTF-8.
pub open spec fn enum_field_value(options: Seq<Seq<char>>, field: Seq<u8>) -> nat {
    if valid_utf8(field) {
        option_value(options, decode_utf8(field))
    } else {
        0
    }
}

/// The number read, or `missing`.
pub open spec fn number_or<N>(p: Option<N>, missing: N) -> N {
    match p {
        Some(v) => v,
        None => missing,
    }
}

/// Whether a column is column `c` of the records, read with type `t`.
pub open spec fn is_loaded_column<N>(
    col: DataFrameColumn<N>,
    name: Seq<char>,
    t: ColumnTypeView,
    fields: Seq<Seq<Seq<u8>>>,
    c: int,
    parsed: Seq<Seq<Option<N>>>,
    missing: N,
) -> bool {
    let n = fields.len();
    &&& column_name(col) matches Some(s) && s@ == name
    &&& match (col, t) {
        (DataFrameColumn::Unknown(u), ColumnTypeView::Unknown) => u.len == n,
        (DataFrameColumn::Number(x), ColumnTypeView::Number) => x.data@.len() == n && forall|i: int|
            0 <= i < n ==> #[trigger] x.data@[i] == number_or(parsed[i][c], missing),
        (DataFrameColumn::Enum(x), ColumnTypeView::Enum { options }) => string_views(x.options@) == options
            && x.data@.len() == n && forall|i: int|
            0 <= i < n ==> #[trigger] x.data@[i] == enum_field_value(options, fields[i][c]),
        (DataFrameColumn::Text(x), ColumnTypeView::Text) => x.data@.len() == n && forall|i: int|
            0 <= i < n ==> #[trigger] x.data@[i]@ == decode_utf8(fields[i][c]),
        _ => false,
    }
}

/// Whether `r` is what reading the records gives. Inferring a type reads every
/// field as text, and fails when one is not UTF-8; reading a text column fails
/// when one of its values is not UTF-8.
pub open spec fn loads_to<N>(
    r: Result<DataFrame<N>, LoadError>,
    headers: Seq<Seq<char>>,
    fields: Seq<Seq<Seq<u8>>>,
    options: FromCsvOptions,
    parsed: Seq<Seq<Option<N>>>,
    missing: N,
) -> bool {
    let infer_fails = needs_infer(headers, options) && !all_utf8(fields);
    let text_fails = exists|c: int|
        0 <= c < headers.len() && (#[trigger] final_type(options, headers, fields, parsed, c)) is Text
            && !column_utf8(fields, c);
    match r {
        Ok(df) => {
            &&& !infer_fails
            &&& !text_fails
            &&& df.columns@.len() == headers.len()
            &&& forall|c: int|
                0 <= c < headers.len() ==> is_loaded_column(
                    #[trigger] df.columns@[c],
                    headers[c],
                    final_type(options, headers, fields, parsed, c),
                    fields,
                    c,
                    parsed,
                    missing,
                )
        },
        Err(e) => e == LoadError::InvalidUtf8 && (infer_fails || text_fails),
    }
}

/// Whether `p` is a result of `f` on the bytes of `field`.
pub open spec fn parsed_from<N, F: Fn(&[u8]) -> Option<N>>(f: F, field: Seq<u8>, p: Option<N>) -> bool {
    exists|b: &[u8]| b@ == field && #[trigger] call_ensures(f, (b,), p)
}

/// Whether `parsed` holds, for each field, a result of `f` on it.
pub open spec fn parses_to<N, F: Fn(&[u8]) -> Option<N>>(
    f: F,
    fields: Seq<Seq<Seq<u8>>>,
    parsed: Seq<Seq<Option<N>>>,
) -> bool {
    &&& parsed.len() == fields.len()
    &&& forall|i: int| 0 <= i < fields.len() ==> #[trigger] parsed[i].len() == fields[i].len()
    &&& forall|i: int, j: int|
        0 <= i < fields.len() && 0 <= j < fields[i].len() ==> #[trigger] parsed_from(f, fields[i][j], parsed[i][j])
}

/// The type the options give for a column name.
fn given_column_type(options: &FromCsvOptions, name: &String) -> (r: Option<DataFrameColumnType>)
    ensures
        match r {
            Some(t) => given_type_of(*options, name@) == Some(t@),
            None => given_type_of(*options, name@) is None,
        },
{
    match options.column_types.as_ref() {
        None => None,
        Some(types) => {
            let mut i: usize = 0;
            assert(types@.skip(0) =~= types@);
            while i < types.len()
                invariant
                    options.column_types == Some(*types),
                    i <= types@.len(),
                    given_type(types@, name@) == given_type(types@.skip(i as int), name@),
                decreases types@.len() - i,
            {
                assert(types@.skip(i as int)[0] == types@[i as int]);
                if str_equals(types[i].0.as_str(), name.as_str()) {
                    assert(given_type(types@.skip(i as int), name@) == Some(types@[i as int].1@));
                    let t = duplicate_column_type(&types[i].1);
                    return Some(t);
                }
                assert(types@.skip(i as int).drop_first() =~= types@.skip(i + 1));
                i = i + 1;
            }
            assert(types@.skip(i as int).len() == 0);
            None
        },
    }
}

/// The fields of a record as text, when they are all UTF-8.
fn decode_record(record: &Vec<Vec<u8>>) -> (r: Option<Vec<String>>)
    ensures
        r is Some <==> forall|c: int| 0 <= c < record@.len() ==> valid_utf8(#[trigger] record@[c]@),
        r matches Some(t) ==> t@.len() == record@.len() && forall|c: int|
            0 <= c < record@.len() ==> #[trigger] t@[c]@ == decode_utf8(record@[c]@),
{
    let mut t: Vec<String> = Vec::new();
    let mut c: usize = 0;
    while c < record.len()
        invariant
            c <= record@.len(),
            t@.len() == c,
            forall|k: int| 0 <= k < c ==> valid_utf8(#[trigger] record@[k]@),
            forall|k: int| 0 <= k < c ==> #[trigger] t@[k]@ == decode_utf8(record@[k]@),
        decreases record@.len() - c,
    {
        match text_from_utf8(record[c].as_slice()) {
            Some(s) => t.push(s),
            None => return None,
        }
        c = c + 1;
    }
    Some(t)
}

/// The views of rows of text.
pub open spec fn text_rows(t: Seq<Vec<String>>) -> Seq<Seq<Seq<char>>> {
    t.map_values(|r: Vec<String>| string_views(r@))
}

/// Every field as text, when they are all UTF-8.
fn decode_fields(table: &CsvRecords) -> (r: Option<Vec<Vec<String>>>)
    ensures
        r is Some <==> all_utf8(table.fields()),
        r matches Some(t) ==> t@.len() == table.records@.len() && forall|i: int|
            0 <= i < t@.len() ==> (#[trigger] t@[i])@.len() == table.records@[i]@.len() && forall|c: int|
                0 <= c < t@[i]@.len() ==> #[trigger] t@[i]@[c]@ == decode_utf8(table.fields()[i][c]),
{
    let ghost fields = table.fields();
    let mut t: Vec<Vec<String>> = Vec::new();
    let mut i: usize = 0;
    while i < table.records.len()
        invariant
            fields == table.fields(),
            i <= table.records@.len(),
            t@.len() == i,
            forall|k: int, c: int| 0 <= k < i && 0 <= c < fields[k].len() ==> valid_utf8(#[trigger] fields[k][c]),
            forall|k: int|
                0 <= k < i ==> (#[trigger] t@[k])@.len() == table.records@[k]@.len() && forall|c: int|
                    0 <= c < t@[k]@.len() ==> #[trigger] t@[k]@[c]@ == decode_utf8(fields[k][c]),
        decreases table.records@.len() - i,
    {
        assert(fields[i as int] == table.records@[i as int]@.map_values(|f: Vec<u8>| f@));
        match decode_record(&table.records[i]) {
            Some(row) => t.push(row),
            None => {
                assert(!all_utf8(fields)) by {
                    let c = choose|c: int| 0 <= c < table.records@[i as int]@.len() && !valid_utf8(
                        #[trigger] table.records@[i as int]@[c]@,
                    );
                    assert(fields[i as int][c] == table.records@[i as int]@[c]@);
                }
                return None;
            },
        }
        i = i + 1;
    }
    Some(t)
}

/// Whether the stats are those that the values seen give: the same suggested
/// type, and the same distinct values while they are kept.
pub open spec fn stats_match(stats: InferStats, state: (InferColumnType, Option<Set<Seq<char>>>)) -> bool {
    &&& stats.wf()
    &&& stats.kind() == state.0
    &&& match (stats.unique(), state.1) {
        (Some(h), Some(s)) => s.finite() && h.spec_entries().len() == s.len() && forall|k: Seq<char>|
            #[trigger] h.contains(k) <==> s.contains(k),
        (None, None) => true,
        _ => false,
    }
}

/// Column `c` of rows of text.
pub open spec fn text_column(texts: Seq<Vec<String>>, c: int) -> Seq<Seq<char>> {
    texts.map_values(|r: Vec<String>| r@[c]@)
}

/// The type inferred for column `c` from its values as text and whether each
/// reads as a finite number.
fn infer_column<N>(
    texts: &Vec<Vec<String>>,
    parsed: &Vec<Vec<Option<N>>>,
    c: usize,
    infer_options: &InferOptions,
) -> (r: DataFrameColumnType)
    requires
        parsed@.len() == texts@.len(),
        forall|i: int| 0 <= i < texts@.len() ==> c < (#[trigger] texts@[i])@.len() && c < parsed@[i]@.len(),
    ensures
        r@ == inferred_type(
            text_column(texts@, c as int),
            column_numbers(parsed_view(parsed@), c as int),
            infer_options.enum_max_unique_values as nat,
        ),
{
    let ghost values = text_column(texts@, c as int);
    let ghost numbers = column_numbers(parsed_view(parsed@), c as int);
    let ghost max = infer_options.enum_max_unique_values as nat;
    let mut stats = InferStats::new(infer_options);
    let mut i: usize = 0;
    proof {
        assert(values.take(0) =~= Seq::<Seq<char>>::empty());
        assert(numbers.take(0) =~= Seq::<bool>::empty());
    }
    while i < texts.len()
        invariant
            values == text_column(texts@, c as int),
            numbers == column_numbers(parsed_view(parsed@), c as int),
            max == infer_options.enum_max_unique_values as nat,
            parsed@.len() == texts@.len(),
            forall|k: int| 0 <= k < texts@.len() ==> c < (#[trigger] texts@[k])@.len() && c < parsed@[k]@.len(),
            i <= texts@.len(),
            stats.options() == *infer_options,
            stats_match(stats, infer_state(values.take(i as int), numbers.take(i as int), max)),
        decreases texts@.len() - i,
    {
        assert(c < texts@[i as int]@.len() && c < parsed@[i as int]@.len());
        let is_number = parsed[i][c].is_some();
        let value = texts[i][c].as_str();
        proof {
            assert(values.take(i + 1).drop_last() =~= values.take(i as int));
            assert(numbers.take(i + 1).drop_last() =~= numbers.take(i as int));
            assert(values.take(i + 1).last() == value@);
            assert(numbers.take(i + 1).last() == is_number);
        }
        let ghost before = stats;
        stats.update(value, is_number);
        proof {
            let (k0, u0) = infer_state(values.take(i as int), numbers.take(i as int), max);
            if let Some(s0) = u0 {
                broadcast use vstd::set::axiom_set_insert_len;
                assert(s0.insert(value@).len() == s0.len() + if s0.contains(value@) { 0int } else { 1int });
                if let Some(h) = before.unique() {
                    assert(h.contains(value@) == s0.contains(value@));
                }
            }
        }
        i = i + 1;
    }
    proof {
        assert(values.take(i as int) =~= values);
        assert(numbers.take(i as int) =~= numbers);
    }
    let ghost last = stats;
    let t = stats.finalize();
    proof {
        let (kind, unique) = infer_state(values, numbers, max);
        if let Some(h) = last.unique() {
            let s = unique->0;
            h.lemma_key_views_sorted();
            assert forall|k: Seq<char>| #[trigger] h.key_views().contains(k) <==> s.contains(k) by {
                assert(h.contains(k) <==> s.contains(k));
            }
            assert(exists|q: Seq<Seq<char>>|
                keys_sorted::<String>(q) && forall|k: Seq<char>| #[trigger] q.contains(k) <==> s.contains(k));
            lemma_sorted_keys_unique::<String>(sorted_values(s), h.key_views());
        }
    }
    t
}

/// One more than the index of the last option equal to the value, 0 when none is.
pub(crate) fn option_index(options: &Vec<String>, value: &str) -> (r: usize)
    ensures
        r == option_value(string_views(options@), value@),
{
    let ghost all = string_views(options@);
    let mut i: usize = options.len();
    assert(all.take(i as int) =~= all);
    while i > 0
        invariant
            all == string_views(options@),
            i <= options@.len(),
            option_value(all, value@) == option_value(all.take(i as int), value@),
        decreases i,
    {
        assert(all.take(i as int).last() == options@[i - 1]@);
        if str_equals(options[i - 1].as_str(), value) {
            return i;
        }
        assert(all.take(i as int).drop_last() =~= all.take(i - 1));
        i = i - 1;
    }
    0
}

/// Column `c` of the records, read with type `t`. Fails when the column is read
/// as text and one of its values is not UTF-8.
fn load_column<N: Copy>(
    table: &CsvRecords,
    c: usize,
    t: &DataFrameColumnType,
    parsed: &Vec<Vec<Option<N>>>,
    missing: N,
) -> (r: Result<DataFrameColumn<N>, LoadError>)
    requires
        table.wf(),
        c < table.headers@.len(),
        parsed@.len() == table.records@.len(),
        forall|i: int| 0 <= i < parsed@.len() ==> (#[trigger] parsed@[i])@.len() == table.records@[i]@.len(),
    ensures
        r is Err <==> (t@ is Text && !column_utf8(table.fields(), c as int)),
        r matches Err(e) ==> e == LoadError::InvalidUtf8,
        r matches Ok(col) ==> is_loaded_column(
            col,
            table.header_views()[c as int],
            t@,
            table.fields(),
            c as int,
            parsed_view(parsed@),
            missing,
        ),
{
    let ghost fields = table.fields();
    let ghost pv = parsed_view(parsed@);
    let name = Some(table.headers[c].clone());
    let n = table.records.len();
    match t {
        DataFrameColumnType::Unknown => Ok(DataFrameColumn::Unknown(UnknownDataFrameColumn { name, len: n })),
        DataFrameColumnType::Number => {
            let mut data: Vec<N> = Vec::new();
            let mut i: usize = 0;
            while i < n
                invariant
                    n == table.records@.len(),
                    pv == parsed_view(parsed@),
                    table.wf(),
                    c < table.headers@.len(),
                    parsed@.len() == n,
                    forall|k: int| 0 <= k < parsed@.len() ==> (#[trigger] parsed@[k])@.len() == table.records@[k]@.len(),
                    i <= n,
                    data@.len() == i,
                    forall|k: int| 0 <= k < i ==> #[trigger] data@[k] == number_or(pv[k][c as int], missing),
                decreases n - i,
            {
                assert(table.records@[i as int]@.len() == table.headers@.len());
                assert(parsed@[i as int]@.len() == table.records@[i as int]@.len());
                let p: Option<N> = parsed[i][c];
                let v = match p {
                    Some(v) => v,
                    None => missing,
                };
                data.push(v);
                i = i + 1;
            }
            Ok(DataFrameColumn::Number(NumberDataFrameColumn { name, data }))
        },
        DataFrameColumnType::Enum { options } => {
            let mut data: Vec<usize> = Vec::new();
            let mut i: usize = 0;
            while i < n
                invariant
                    n == table.records@.len(),
                    fields == table.fields(),
                    table.wf(),
                    c < table.headers@.len(),
                    i <= n,
                    data@.len() == i,
                    forall|k: int|
                        0 <= k < i ==> #[trigger] data@[k] == enum_field_value(
                            string_views(options@),
                            fields[k][c as int],
                        ),
                decreases n - i,
            {
                assert(table.records@[i as int]@.len() == table.headers@.len());
                assert(fields[i as int][c as int] == table.records@[i as int]@[c as int]@);
                let v = match text_from_utf8(table.records[i][c].as_slice()) {
                    Some(s) => option_index(options, s.as_str()),
                    None => 0,
                };
                data.push(v);
                i = i + 1;
            }
            Ok(DataFrameColumn::Enum(EnumDataFrameColumn { name, options: clone_strings(options), data }))
        },
        DataFrameColumnType::Text => {
            let mut data: Vec<String> = Vec::new();
            let mut i: usize = 0;
            while i < n
                invariant
                    n == table.records@.len(),
                    fields == table.fields(),
                    table.wf(),
                    c < table.headers@.len(),
                    i <= n,
                    data@.len() == i,
                    t@ is Text,
                    forall|k: int| 0 <= k < i ==> valid_utf8(#[trigger] fields[k][c as int]),
                    forall|k: int| 0 <= k < i ==> #[trigger] data@[k]@ == decode_utf8(fields[k][c as int]),
                decreases n - i,
            {
                assert(table.records@[i as int]@.len() == table.headers@.len());
                assert(fields[i as int][c as int] == table.records@[i as int]@[c as int]@);
                match text_from_utf8(table.records[i][c].as_slice()) {
                    Some(s) => data.push(s),
                    None => {
                        assert(!valid_utf8(fields[i as int][c as int]));
                        return Err(LoadError::InvalidUtf8);
                    },
                }
                i = i + 1;
            }
            Ok(DataFrameColumn::Text(TextDataFrameColumn { name, data }))
        },
    }
}

impl<N: Copy> DataFrame<N> {
    /// Reads a dataframe from the records of csv text, given the number that each
    /// field reads as, if it reads as a finite one, and the number that stands for
    /// a missing one. A column takes the type the options give for its name;
    /// otherwise its type is inferred from its values, which are then all read as
    /// text (see `InferStats`). A number column holds the number each value reads
    /// as, or `missing`; an enum column holds for each value one more than the index
    /// of its option, or 0; a text column holds the values as text.
    pub fn from_csv_records(
        table: &CsvRecords,
        options: &FromCsvOptions,
        parsed: &Vec<Vec<Option<N>>>,
        missing: N,
    ) -> (r: Result<DataFrame<N>, LoadError>)
        requires
            table.wf(),
            parsed@.len() == table.records@.len(),
            forall|i: int| 0 <= i < parsed@.len() ==> (#[trigger] parsed@[i])@.len() == table.records@[i]@.len(),
        ensures
            loads_to(r, table.header_views(), table.fields(), *options, parsed_view(parsed@), missing),
    {
        let ghost headers = table.header_views();
        let ghost fields = table.fields();
        let ghost pv = parsed_view(parsed@);
        let n_columns = table.headers.len();
        let mut given: Vec<Option<DataFrameColumnType>> = Vec::new();
        let mut needs = false;
        let mut c: usize = 0;
        while c < n_columns
            invariant
                headers == table.header_views(),
                n_columns == table.headers@.len(),
                c <= n_columns,
                given@.len() == c,
                forall|k: int|
                    0 <= k < c ==> match #[trigger] given@[k] {
                        Some(t) => given_type_of(*options, headers[k]) == Some(t@),
                        None => given_type_of(*options, headers[k]) is None,
                    },
                needs <==> exists|k: int| 0 <= k < c && (#[trigger] given@[k]) is None,
            decreases n_columns - c,
        {
            let g = given_column_type(options, &table.headers[c]);
            let ghost old_given = given@;
            let ghost old_needs = needs;
            if g.is_none() {
                needs = true;
            }
            given.push(g);
            proof {
                assert(given@[c as int] == g);
                assert forall|k: int| 0 <= k < c implies given@[k] == old_given[k] by {}
                if old_needs {
                    let k = choose|k: int| 0 <= k < c && (#[trigger] old_given[k]) is None;
                    assert(given@[k] is None);
                }
                if needs && !old_needs {
                    assert(given@[c as int] is None);
                }
            }
            c = c + 1;
        }
        proof {
            if needs {
                let k = choose|k: int| 0 <= k < c && (#[trigger] given@[k]) is None;
                assert(given_type_of(*options, headers[k]) is None);
            }
            if needs_infer(headers, *options) {
                let k = choose|k: int| 0 <= k < headers.len() && (#[trigger] given_type_of(*options, headers[k])) is None;
                assert(given@[k] is None);
            }
        }
        let texts: Option<Vec<Vec<String>>> = if needs {
            match decode_fields(table) {
                Some(t) => Some(t),
                None => return Err(LoadError::InvalidUtf8),
            }
        } else {
            None
        };
        let mut types: Vec<DataFrameColumnType> = Vec::new();
        let mut c: usize = 0;
        while c < n_columns
            invariant
                headers == table.header_views(),
                fields == table.fields(),
                pv == parsed_view(parsed@),
                table.wf(),
                parsed@.len() == table.records@.len(),
                forall|i: int| 0 <= i < parsed@.len() ==> (#[trigger] parsed@[i])@.len() == table.records@[i]@.len(),
                n_columns == table.headers@.len(),
                given@.len() == n_columns,
                forall|k: int|
                    0 <= k < n_columns ==> match #[trigger] given@[k] {
                        Some(t) => given_type_of(*options, headers[k]) == Some(t@),
                        None => given_type_of(*options, headers[k]) is None,
                    },
                needs <==> exists|k: int| 0 <= k < n_columns && (#[trigger] given@[k]) is None,
                needs ==> texts is Some,
                texts matches Some(t) ==> t@.len() == table.records@.len() && forall|i: int|
                    0 <= i < t@.len() ==> (#[trigger] t@[i])@.len() == table.records@[i]@.len() && forall|k: int|
                        0 <= k < t@[i]@.len() ==> #[trigger] t@[i]@[k]@ == decode_utf8(fields[i][k]),
                c <= n_columns,
                types@.len() == c,
                forall|k: int| 0 <= k < c ==> (#[trigger] types@[k])@ == final_type(*options, headers, fields, pv, k),
            decreases n_columns - c,
        {
            match &given[c] {
                Some(t) => {
                    types.push(duplicate_column_type(t));
                },
                None => {
                    proof {
                        assert(given@[c as int] is None);
                    }
                    let texts = texts.as_ref().unwrap();
                    proof {
                        assert forall|i: int| 0 <= i < texts@.len() implies c < (#[trigger] texts@[i])@.len() && c
                            < parsed@[i]@.len() by {
                            assert(table.records@[i]@.len() == table.headers@.len());
                            assert(parsed@[i]@.len() == table.records@[i]@.len());
                        }
                        assert(text_column(texts@, c as int) =~= column_texts(fields, c as int)) by {
                            assert forall|i: int| 0 <= i < texts@.len() implies #[trigger] text_column(
                                texts@,
                                c as int,
                            )[i] == column_texts(fields, c as int)[i] by {
                                assert(table.records@[i]@.len() == table.headers@.len());
                                assert(texts@[i]@[c as int]@ == decode_utf8(fields[i][c as int]));
                            }
                        }
                    }
                    types.push(infer_column(texts, parsed, c, &options.infer_options));
                },
            }
            c = c + 1;
        }
        let mut columns: Vec<DataFrameColumn<N>> = Vec::new();
        let mut c: usize = 0;
        while c < n_columns
            invariant
                headers == table.header_views(),
                fields == table.fields(),
                pv == parsed_view(parsed@),
                table.wf(),
                parsed@.len() == table.records@.len(),
                forall|i: int| 0 <= i < parsed@.len() ==> (#[trigger] parsed@[i])@.len() == table.records@[i]@.len(),
                n_columns == table.headers@.len(),
                types@.len() == n_columns,
                forall|k: int| 0 <= k < n_columns ==> (#[trigger] types@[k])@ == final_type(*options, headers, fields, pv, k),
                c <= n_columns,
                columns@.len() == c,
                forall|k: int|
                    0 <= k < c ==> !(final_type(*options, headers, fields, pv, k) is Text && !column_utf8(fields, k)),
                forall|k: int|
                    0 <= k < c ==> is_loaded_column(
                        #[trigger] columns@[k],
                        headers[k],
                        final_type(*options, headers, fields, pv, k),
                        fields,
                        k,
                        pv,
                        missing,
                    ),
            decreases n_columns - c,
        {
            assert(types@[c as int]@ == final_type(*options, headers, fields, pv, c as int));
            match load_column(table, c, &types[c], parsed, missing) {
                Ok(col) => {
                    columns.push(col);
                    proof {
                        assert(columns@[c as int] == col);
                    }
                },
                Err(e) => {
                    proof {
                        assert(final_type(*options, headers, fields, pv, c as int) is Text && !column_utf8(fields, c as int));
                    }
                    return Err(e);
                },
            }
            c = c + 1;
        }
        proof {
            assert forall|k: int| 0 <= k < headers.len() && (#[trigger] final_type(*options, headers, fields, pv, k)) is Text implies column_utf8(
                fields,
                k,
            ) by {
            }
        }
        Ok(DataFrame { columns })
    }
}

impl<N: Copy> DataFrame<N> {
    /// Reads a dataframe from csv text (see `from_csv_records`). `parse_number`
    /// reads a field as `Some` number when it reads as a finite one; it is called
    /// once on every field, and `progress` once with the position of each record
    /// as the records are read.
    pub fn from_csv<F: Fn(&[u8]) -> Option<N>, P: Fn(u64)>(
        bytes: &[u8],
        options: &FromCsvOptions,
        parse_number: F,
        missing: N,
        progress: P,
    ) -> (r: Result<DataFrame<N>, LoadError>)
        requires
            forall|b: &[u8]| call_requires(parse_number, (b,)),
            forall|p: u64| call_requires(progress, (p,)),
        ensures
            csv_contents(bytes@) is None ==> r == Err::<DataFrame<N>, LoadError>(LoadError::Csv),
            csv_contents(bytes@) matches Some(contents) ==> exists|parsed: Seq<Seq<Option<N>>>|
                #[trigger] parses_to(parse_number, contents.1, parsed) && loads_to(
                    r,
                    contents.0,
                    contents.1,
                    *options,
                    parsed,
                    missing,
                ),
    {
        let table = match read_csv(bytes) {
            Ok(table) => table,
            Err(_) => return Err(LoadError::Csv),
        };
        let ghost fields = table.fields();
        let ghost mut args: Seq<Seq<&[u8]>> = Seq::empty();
        let mut parsed: Vec<Vec<Option<N>>> = Vec::new();
        let mut i: usize = 0;
        while i < table.records.len()
            invariant
                fields == table.fields(),
                table.wf(),
                forall|b: &[u8]| call_requires(parse_number, (b,)),
                forall|p: u64| call_requires(progress, (p,)),
                i <= table.records@.len(),
                parsed@.len() == i,
                args.len() == i,
                forall|k: int|
                    0 <= k < i ==> (#[trigger] parsed@[k])@.len() == table.records@[k]@.len() && args[k].len()
                        == table.records@[k]@.len(),
                forall|k: int, j: int|
                    #![trigger parsed@[k]@[j]]
                    0 <= k < i && 0 <= j < table.records@[k]@.len() ==> args[k][j]@ == fields[k][j] && call_ensures(
                        parse_number,
                        (args[k][j],),
                        parsed@[k]@[j],
                    ),
            decreases table.records@.len() - i,
        {
            if let Some(position) = table.positions[i] {
                progress(position);
            }
            let record = &table.records[i];
            let ghost mut row_args: Seq<&[u8]> = Seq::empty();
            let mut row: Vec<Option<N>> = Vec::new();
            let mut j: usize = 0;
            while j < record.len()
                invariant
                    fields == table.fields(),
                    *record == table.records@[i as int],
                    i < table.records@.len(),
                    forall|b: &[u8]| call_requires(parse_number, (b,)),
                    j <= record@.len(),
                    row@.len() == j,
                    row_args.len() == j,
                    forall|m: int|
                        #![trigger row@[m]]
                        0 <= m < j ==> row_args[m]@ == fields[i as int][m] && call_ensures(
                            parse_number,
                            (row_args[m],),
                            row@[m],
                        ),
                decreases record@.len() - j,
            {
                let field = record[j].as_slice();
                let value = parse_number(field);
                let ghost old_row = row@;
                let ghost old_args = row_args;
                proof {
                    assert(fields[i as int][j as int] == field@);
                    row_args = row_args.push(field);
                }
                row.push(value);
                proof {
                    assert(call_ensures(parse_number, (field,), value));
                    assert forall|m: int|
                        0 <= m < j + 1 implies row_args[m]@ == fields[i as int][m] && call_ensures(
                            parse_number,
                            (row_args[m],),
                            row@[m],
                        ) by {
                        if m < j {
                            assert(row@[m] == old_row[m]);
                            assert(row_args[m] == old_args[m]);
                        }
                    }
                }
                j = j + 1;
            }
            let ghost old_parsed = parsed@;
            let ghost last_row = row@;
            parsed.push(row);
            proof {
                let old_args = args;
                args = args.push(row_args);
                assert forall|k: int, j: int|
                    0 <= k < i + 1 && 0 <= j < table.records@[k]@.len() implies args[k][j]@ == fields[k][j]
                        && call_ensures(parse_number, (args[k][j],), parsed@[k]@[j]) by {
                    if k < i {
                        assert(parsed@[k] == old_parsed[k]);
                        assert(old_parsed[k]@[j] == parsed@[k]@[j]);
                        assert(args[k] == old_args[k]);
                    } else {
                        assert(parsed@[k]@ == last_row);
                        assert(last_row[j] == parsed@[k]@[j]);
                        assert(args[k] == row_args);
                    }
                }
            }
            i = i + 1;
        }
        let r = Self::from_csv_records(&table, options, &parsed, missing);
        proof {
            let pv = parsed_view(parsed@);
            assert forall|k: int| 0 <= k < fields.len() implies #[trigger] pv[k].len() == fields[k].len() by {}
            assert forall|k: int, j: int|
                0 <= k < fields.len() && 0 <= j < fields[k].len() implies parsed_from(
                    parse_number,
                    fields[k][j],
                    pv[k][j],
                ) by {
                assert(pv[k][j] == parsed@[k]@[j]);
                assert(call_ensures(parse_number, (args[k][j],), pv[k][j]));
            }
            assert(parses_to(parse_number, fields, pv));
            assert(loads_to(r, table.header_views(), fields, *options, pv, missing));
            assert(csv_contents(bytes@) == Some((table.header_views(), fields, table.positions@)));
            let contents = csv_contents(bytes@)->0;
            assert(contents.0 == table.header_views() && contents.1 == fields);
        }
        r
    }
}

proof fn lemma_option_value_bounded(options: Seq<Seq<char>>, v: Seq<char>)
    ensures
        option_value(options, v) <= options.len(),
    decreases options.len(),
{
    if options.len() > 0 {
        lemma_option_value_bounded(options.drop_last(), v);
    }
}

/// Every value of an enum column read from csv is an option's value or 0: at most
/// the number of options, as the stats of an enum column require.
pub proof fn lemma_loaded_enum_values_in_range<N>(
    col: DataFrameColumn<N>,
    name: Seq<char>,
    options: Seq<Seq<char>>,
    fields: Seq<Seq<Seq<u8>>>,
    c: int,
    parsed: Seq<Seq<Option<N>>>,
    missing: N,
)
    requires
        is_loaded_column(col, name, ColumnTypeView::Enum { options }, fields, c, parsed, missing),
    ensures
        col matches DataFrameColumn::Enum(x) && forall|i: int|
            0 <= i < x.data@.len() ==> #[trigger] x.data@[i] <= x.options@.len(),
{
    if let DataFrameColumn::Enum(x) = col {
        assert forall|i: int| 0 <= i < x.data@.len() implies #[trigger] x.data@[i] <= x.options@.len() by {
            if valid_utf8(fields[i][c]) {
                lemma_option_value_bounded(options, decode_utf8(fields[i][c]));
            }
            assert(string_views(x.options@).len() == x.options@.len());
        }
    }
}

/// The type given for the name of entry `c`, when no entry before it has that name, is its type.
pub proof fn lemma_given_type_at(types: Seq<(String, DataFrameColumnType)>, c: int)
    requires
        0 <= c < types.len(),
        forall|k: int| 0 <= k < c ==> (#[trigger] types[k]).0@ != types[c].0@,
    ensures
        given_type(types, types[c].0@) == Some(types[c].1@),
    decreases c,
{
    if c > 0 {
        let rest = types.drop_first();
        assert forall|k: int| 0 <= k < c - 1 implies (#[trigger] rest[k]).0@ != rest[c - 1].0@ by {
            assert(rest[k] == types[k + 1]);
        }
        lemma_given_type_at(rest, c - 1);
        assert(types[0].0@ != types[c].0@);
    }
}

/// The rows of a table of numbers read.
pub open spec fn parsed_view<N>(parsed: Seq<Vec<Option<N>>>) -> Seq<Seq<Option<N>>> {
    parsed.map_values(|r: Vec<Option<N>>| r@)
}

} // verus!
