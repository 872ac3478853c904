//! CSV ingestion and run-relative data representation.
//!
//! Calendar timestamps remain available for provenance, but samples carry
//! elapsed milliseconds from each file's first valid record. This allows
//! captures from different dates to be compared as repeatable experiments
//! rather than as one continuous wall-clock timeline.

use vstd::prelude::*;

use crate::number::{is_float_literal, is_float_literal_spec};
use crate::parameters::field::{R0, R1, R2, T0_BETA, T0_SH, T1_BETA, T1_SH, T2_BETA, T2_SH};
use crate::parameters::{field_header, field_header_spec, FIELD_COUNT, TIMESTAMP_FORMAT, TIMESTAMP_HEADER};

verus! {

/// The views of a sequence of strings.
pub open spec fn texts(v: Seq<String>) -> Seq<Seq<char>> {
    v.map_values(|s: String| s@)
}

/// A column that the harvester schema requires.
#[derive(Clone, Copy, Debug, PartialEq, Eq, Structural)]
pub enum Column {
    Timestamp,
    /// Numeric field, by its index in the sample array.
    Field(usize),
}

/// Why a CSV file yields no run.
#[derive(Clone, Debug)]
pub enum LoadError {
    /// The header record could not be read; the `csv` crate's message.
    HeaderUnreadable(String),
    /// A required column is absent from the header.
    MissingColumn(Column),
    /// No record is a valid sensor row.
    NoValidRows,
}

/// Why a single record is not a valid sensor row.
#[derive(Clone, Copy, Debug, PartialEq, Eq, Structural)]
pub enum RowError {
    /// The record has no cell at the column's position.
    MissingCell(Column),
    /// The timestamp cell does not match the harvester timestamp format.
    InvalidTimestamp,
    /// The cell of this numeric field is not a floating-point number.
    InvalidNumber(usize),
}

/// A CSV document as text cells: the header record, or the `csv` crate's
/// message when it could not be read, and each following record, or `None`
/// where the record could not be read.
pub struct CsvTable {
    pub headers: Result<Vec<String>, String>,
    pub rows: Vec<Option<Vec<String>>>,
}

/// A read table as text: the header cells or the error message, and the
/// cells of each later record.
pub type TableView = (Result<Seq<Seq<char>>, Seq<char>>, Seq<Option<Seq<Seq<char>>>>);

pub open spec fn record_view(record: Option<Vec<String>>) -> Option<Seq<Seq<char>>> {
    match record {
        Some(cells) => Some(texts(cells@)),
        None => None,
    }
}

pub open spec fn headers_view(headers: Result<Vec<String>, String>) -> Result<Seq<Seq<char>>, Seq<char>> {
    match headers {
        Ok(cells) => Ok(texts(cells@)),
        Err(message) => Err(message@),
    }
}

impl View for CsvTable {
    type V = TableView;

    open spec fn view(&self) -> Self::V {
        (headers_view(self.headers), self.rows@.map_values(|r: Option<Vec<String>>| record_view(r)))
    }
}

/// ASCII whitespace, all of which `str::trim` removes.
pub open spec fn is_ascii_space(c: char) -> bool {
    c == ' ' || c == '\t' || c == '\n' || c == '\x0B' || c == '\x0C' || c == '\r'
}

/// The cell neither starts nor ends with ASCII whitespace.
pub open spec fn is_trimmed(cell: Seq<char>) -> bool {
    cell.len() > 0 ==> !is_ascii_space(cell[0]) && !is_ascii_space(cell.last())
}

/// Every header cell and every cell of every record is trimmed.
pub open spec fn cells_trimmed(table: TableView) -> bool {
    &&& table.0 matches Ok(headers) ==> forall|i: int|
        0 <= i < headers.len() ==> is_trimmed(#[trigger] headers[i])
    &&& forall|r: int, i: int|
        0 <= r < table.1.len() && table.1[r] is Some && 0 <= i < table.1[r]->Some_0.len()
            ==> is_trimmed(#[trigger] table.1[r]->Some_0[i])
}

/// What the `csv` crate reads from `bytes` with headers enabled, strict record
/// lengths and every cell trimmed: the header cells (or the error's message
/// when the header cannot be read, in which case no record follows), and for
/// each later record its cells or `None` when that record cannot be read.
pub uninterp spec fn trimmed_csv_table(bytes: Seq<u8>) -> TableView;

/// Reads `bytes` with `csv::ReaderBuilder` (trim `All`), then `headers()` and
/// `records()`, turning a header error into its message. Trusted: the table
/// equals `trimmed_csv_table(bytes)`, and every cell has been through
/// `str::trim`, so no cell starts or ends with ASCII whitespace.
#[verifier::external_body]
fn read_trimmed_csv(bytes: &[u8]) -> (table: CsvTable)
    ensures
        table@ == trimmed_csv_table(bytes@),
        cells_trimmed(table@),
{
    let mut reader = csv::ReaderBuilder::new().trim(csv::Trim::All).from_reader(bytes);
    let headers: Vec<String> = match reader.headers() {
        Ok(record) => record.iter().map(String::from).collect(),
        Err(error) => return CsvTable { headers: Err(error.to_string()), rows: Vec::new() },
    };
    let rows = reader.records().map(|r| r.ok().map(|rec| rec.iter().map(String::from).collect())).collect();
    CsvTable { headers: Ok(headers), rows }
}

/// The first index of `name` in `headers`.
pub open spec fn first_index_of(headers: Seq<Seq<char>>, name: Seq<char>) -> Option<int>
    decreases headers.len(),
{
    if headers.len() == 0 {
        None
    } else {
        match first_index_of(headers.drop_last(), name) {
            Some(i) => Some(i),
            None => if headers.last() == name {
                Some(headers.len() - 1)
            } else {
                None
            },
        }
    }
}

/// Position of the first header equal to `name`.
fn position_of(headers: &Vec<String>, name: &String) -> (index: Option<usize>)
    ensures
        index matches Some(i) ==> first_index_of(texts(headers@), name@) == Some(i as int),
        index is None ==> first_index_of(texts(headers@), name@) is None,
{
    let ghost h = texts(headers@);
    for i in 0..headers.len()
        invariant
            h == texts(headers@),
            first_index_of(h.take(i as int), name@) is None,
    {
        assert(h.take(i + 1).drop_last() =~= h.take(i as int));
        if headers[i] == *name {
            assert(first_index_of(h.take(i + 1), name@) == Some(i as int));
            proof { lemma_first_index_prefix(h, name@, i + 1); }
            return Some(i);
        }
    }
    assert(h.take(headers.len() as int) =~= h);
    None
}

/// Once a prefix holds `name`, longer prefixes find it at the same index.
proof fn lemma_first_index_prefix(h: Seq<Seq<char>>, name: Seq<char>, n: int)
    requires
        0 <= n <= h.len(),
        first_index_of(h.take(n), name) is Some,
    ensures
        first_index_of(h, name) == first_index_of(h.take(n), name),
    decreases h.len() - n,
{
    if n < h.len() {
        assert(h.take(n + 1).drop_last() =~= h.take(n));
        lemma_first_index_prefix(h, name, n + 1);
    } else {
        assert(h.take(n) =~= h);
    }
}


/// The first numeric field, from index `k` on, whose header is absent.
pub open spec fn first_missing_field(headers: Seq<Seq<char>>, k: int) -> Option<int>
    decreases FIELD_COUNT - k,
{
    if k < 0 || k >= FIELD_COUNT {
        None
    } else if first_index_of(headers, field_header_spec(k)) is None {
        Some(k)
    } else {
        first_missing_field(headers, k + 1)
    }
}

/// Where each required column stands in `headers`: the timestamp's index and
/// the index of each numeric field, each the first header with that name;
/// or the first required column, in schema order, that is absent.
pub open spec fn column_layout(headers: Seq<Seq<char>>) -> Result<(int, Seq<int>), Column> {
    match first_index_of(headers, TIMESTAMP_HEADER@) {
        None => Err(Column::Timestamp),
        Some(t) => match first_missing_field(headers, 0) {
            Some(k) => Err(Column::Field(k as usize)),
            None => Ok(
                (
                    t,
                    Seq::new(
                        FIELD_COUNT as nat,
                        |k: int| first_index_of(headers, field_header_spec(k)).unwrap(),
                    ),
                ),
            ),
        },
    }
}

proof fn lemma_first_missing_field(headers: Seq<Seq<char>>, start: int, k: int)
    requires
        0 <= start <= k <= FIELD_COUNT,
        forall|j: int| start <= j < k ==> first_index_of(headers, #[trigger] field_header_spec(j)) is Some,
    ensures
        k == FIELD_COUNT ==> first_missing_field(headers, start) is None,
        k < FIELD_COUNT && first_index_of(headers, field_header_spec(k)) is None
            ==> first_missing_field(headers, start) == Some(k),
    decreases k - start,
{
    if start < k {
        assert(first_index_of(headers, field_header_spec(start)) is Some);
        lemma_first_missing_field(headers, start + 1, k);
    }
}

/// Positions of the required columns within a record.
pub struct ColumnMap {
    pub timestamp: usize,
    /// Position of each numeric field, by field index.
    pub fields: Vec<usize>,
}

impl ColumnMap {
    pub open spec fn layout(&self) -> (int, Seq<int>) {
        (self.timestamp as int, self.fields@.map_values(|i: usize| i as int))
    }
}

/// Finds every required column in the header record.
///
/// Each column is found at the first header equal to its name. When a column
/// is absent, the error names the first absent one in schema order
/// (timestamp first, then the numeric fields).
pub fn build_column_map(headers: &Vec<String>) -> (map: Result<ColumnMap, LoadError>)
    ensures
        match column_layout(texts(headers@)) {
            Ok(layout) => map matches Ok(m) && m.layout() == layout && m.fields@.len()
                == FIELD_COUNT,
            Err(column) => map == Err::<ColumnMap, LoadError>(LoadError::MissingColumn(column)),
        },
{
    let ghost h = texts(headers@);
    let timestamp = match position_of(headers, &TIMESTAMP_HEADER.to_owned()) {
        Some(i) => i,
        None => return Err(LoadError::MissingColumn(Column::Timestamp)),
    };
    let mut fields: Vec<usize> = Vec::new();
    for k in 0..FIELD_COUNT
        invariant
            h == texts(headers@),
            first_index_of(h, TIMESTAMP_HEADER@) == Some(timestamp as int),
            fields@.len() == k,
            forall|j: int|
                0 <= j < k ==> first_index_of(h, #[trigger] field_header_spec(j)) == Some(
                    fields@[j] as int,
                ),
    {
        match position_of(headers, &field_header(k).to_owned()) {
            Some(i) => fields.push(i),
            None => {
                proof {
                    lemma_first_missing_field(h, 0, k as int);
                }
                return Err(LoadError::MissingColumn(Column::Field(k)));
            },
        }
    }
    proof {
        lemma_first_missing_field(h, 0, FIELD_COUNT as int);
    }
    let map = ColumnMap { timestamp, fields };
    assert(map.layout().1 =~= column_layout(h)->Ok_0.1);
    Ok(map)
}


/// Whether `chrono::NaiveDateTime::parse_from_str(text, format)` succeeds.
pub uninterp spec fn parses_as_datetime(text: Seq<char>, format: Seq<char>) -> bool;

/// The milliseconds from `earlier` to `later`, both read by
/// `chrono::NaiveDateTime::parse_from_str` with `format`, as
/// `TimeDelta::num_milliseconds` gives them.
pub uninterp spec fn millis_between(later: Seq<char>, earlier: Seq<char>, format: Seq<char>) -> i64;

/// Calls `chrono::NaiveDateTime::parse_from_str`. Trusted: the result tells
/// whether it succeeds, as `parses_as_datetime` names it.
#[verifier::external_body]
fn datetime_parses(text: &str, format: &str) -> (ok: bool)
    ensures
        ok == parses_as_datetime(text@, format@),
{
    chrono::NaiveDateTime::parse_from_str(text, format).is_ok()
}

/// Parses both timestamps with `chrono::NaiveDateTime::parse_from_str`,
/// subtracts them (`Sub`, that is `signed_duration_since`) and takes
/// `num_milliseconds`. Trusted: the result is `millis_between` of the
/// arguments, and a timestamp is zero milliseconds from itself.
#[verifier::external_body]
fn elapsed_millis(later: &str, earlier: &str, format: &str) -> (ms: i64)
    requires
        parses_as_datetime(later@, format@),
        parses_as_datetime(earlier@, format@),
    ensures
        ms == millis_between(later@, earlier@, format@),
        later@ == earlier@ ==> ms == 0,
{
    let later = chrono::NaiveDateTime::parse_from_str(later, format).unwrap();
    let earlier = chrono::NaiveDateTime::parse_from_str(earlier, format).unwrap();
    (later - earlier).num_milliseconds()
}

/// The position of `column` under `layout`.
pub open spec fn column_position(layout: (int, Seq<int>), column: Column) -> int {
    match column {
        Column::Timestamp => layout.0,
        Column::Field(k) => layout.1[k as int],
    }
}

/// The cell of `record` in `column`, or an error when the record is too short.
pub fn required_cell<'a>(record: &'a Vec<String>, columns: &ColumnMap, column: Column) -> (cell:
    Result<&'a String, RowError>)
    requires
        columns.fields@.len() == FIELD_COUNT,
        column matches Column::Field(k) ==> k < FIELD_COUNT,
    ensures
        ({
            let position = column_position(columns.layout(), column);
            if position < record@.len() {
                cell == Ok::<&String, RowError>(&record@[position])
            } else {
                cell == Err::<&String, RowError>(RowError::MissingCell(column))
            }
        }),
{
    let index = match column {
        Column::Timestamp => columns.timestamp,
        Column::Field(k) => columns.fields[k],
    };
    if index < record.len() {
        Ok(&record[index])
    } else {
        Err(RowError::MissingCell(column))
    }
}

/// The first numeric field, from index `k` on, whose cell is missing or is
/// not a number.
pub open spec fn first_bad_field(row: Seq<Seq<char>>, fields: Seq<int>, k: int) -> Option<RowError>
    decreases FIELD_COUNT - k,
{
    if k < 0 || k >= FIELD_COUNT {
        None
    } else if fields[k] >= row.len() {
        Some(RowError::MissingCell(Column::Field(k as usize)))
    } else if !is_float_literal_spec(row[fields[k]]) {
        Some(RowError::InvalidNumber(k as usize))
    } else {
        first_bad_field(row, fields, k + 1)
    }
}

/// What a record reads as under `layout`: its timestamp text and the text of
/// each numeric field in field order, or the first problem found, checking
/// the timestamp first and then each field in order.
pub open spec fn row_outcome(row: Seq<Seq<char>>, layout: (int, Seq<int>)) -> Result<
    (Seq<char>, Seq<Seq<char>>),
    RowError,
> {
    if layout.0 >= row.len() {
        Err(RowError::MissingCell(Column::Timestamp))
    } else if !parses_as_datetime(row[layout.0], TIMESTAMP_FORMAT@) {
        Err(RowError::InvalidTimestamp)
    } else {
        match first_bad_field(row, layout.1, 0) {
            Some(e) => Err(e),
            None => Ok((row[layout.0], Seq::new(FIELD_COUNT as nat, |k: int| row[layout.1[k]]))),
        }
    }
}

proof fn lemma_first_bad_field(row: Seq<Seq<char>>, fields: Seq<int>, start: int, k: int)
    requires
        0 <= start <= k <= FIELD_COUNT,
        forall|j: int|
            start <= j < k ==> #[trigger] fields[j] < row.len() && is_float_literal_spec(
                row[fields[j]],
            ),
    ensures
        k == FIELD_COUNT ==> first_bad_field(row, fields, start) is None,
        k < FIELD_COUNT && fields[k] >= row.len() ==> first_bad_field(row, fields, start) == Some(
            RowError::MissingCell(Column::Field(k as usize)),
        ),
        k < FIELD_COUNT && fields[k] < row.len() && !is_float_literal_spec(row[fields[k]])
            ==> first_bad_field(row, fields, start) == Some(RowError::InvalidNumber(k as usize)),
    decreases k - start,
{
    if start < k {
        assert(is_float_literal_spec(row[fields[start]]));
        lemma_first_bad_field(row, fields, start + 1, k);
    }
}

/// A valid harvester row: its timestamp text and its numeric cells in field order.
pub struct ParsedRow {
    pub timestamp: String,
    pub values: Vec<String>,
}

/// One text per numeric field, each a floating-point literal.
pub open spec fn values_are_numbers(values: Seq<String>) -> bool {
    &&& values.len() == FIELD_COUNT
    &&& forall|k: int| 0 <= k < values.len() ==> is_float_literal_spec(#[trigger] values[k]@)
}

pub open spec fn parsed_row_view(row: ParsedRow) -> (Seq<char>, Seq<Seq<char>>) {
    (row.timestamp@, texts(row.values@))
}

/// Reads one record as a sensor row.
pub fn parse_record(record: &Vec<String>, columns: &ColumnMap) -> (row: Result<ParsedRow, RowError>)
    requires
        columns.fields@.len() == FIELD_COUNT,
    ensures
        match row_outcome(texts(record@), columns.layout()) {
            Ok(v) => row matches Ok(r) && parsed_row_view(r) == v && values_are_numbers(
                r.values@,
            ) && r.timestamp@ == record@[columns.timestamp as int]@ && forall|k: int|
                0 <= k < FIELD_COUNT ==> (#[trigger] r.values@[k])@ == record@[columns.fields@[k] as int]@,
            Err(e) => row == Err::<ParsedRow, RowError>(e),
        },
{
    let ghost cells = texts(record@);
    let ghost layout = columns.layout();
    let timestamp_text = match required_cell(record, columns, Column::Timestamp) {
        Ok(text) => text,
        Err(e) => return Err(e),
    };
    assert(cells[layout.0] == timestamp_text@);
    if !datetime_parses(timestamp_text.as_str(), TIMESTAMP_FORMAT) {
        return Err(RowError::InvalidTimestamp);
    }
    let mut values: Vec<String> = Vec::new();
    for k in 0..FIELD_COUNT
        invariant
            cells == texts(record@),
            layout == columns.layout(),
            columns.fields@.len() == FIELD_COUNT,
            layout.0 < cells.len(),
            parses_as_datetime(cells[layout.0], TIMESTAMP_FORMAT@),
            timestamp_text@ == cells[layout.0],
            values@.len() == k,
            forall|j: int|
                0 <= j < k ==> #[trigger] layout.1[j] < cells.len() && is_float_literal_spec(
                    cells[layout.1[j]],
                ) && values@[j]@ == cells[layout.1[j]],
    {
        let text = match required_cell(record, columns, Column::Field(k)) {
            Ok(text) => text,
            Err(e) => {
                proof {
                    lemma_first_bad_field(cells, layout.1, 0, k as int);
                }
                return Err(e);
            },
        };
        assert(cells[layout.1[k as int]] == text@);
        if !is_float_literal(text.as_str()) {
            proof {
                lemma_first_bad_field(cells, layout.1, 0, k as int);
            }
            return Err(RowError::InvalidNumber(k));
        }
        values.push(text.clone());
    }
    proof {
        lemma_first_bad_field(cells, layout.1, 0, FIELD_COUNT as int);
    }
    let row = ParsedRow { timestamp: timestamp_text.clone(), values };
    assert forall|k: int| 0 <= k < row.values@.len() implies is_float_literal_spec(
        #[trigger] row.values@[k]@,
    ) && row.values@[k]@ == record@[columns.fields@[k] as int]@ by {
        assert(layout.1[k] < cells.len());
        assert(layout.1[k] == columns.fields@[k] as int);
        assert(cells[layout.1[k]] == record@[layout.1[k]]@);
    }
    assert(cells[layout.0] == record@[columns.timestamp as int]@);
    assert(texts(row.values@) =~= Seq::new(FIELD_COUNT as nat, |k: int| cells[layout.1[k]]));
    Ok(row)
}


/// The valid rows among `records`, in logger order.
pub open spec fn valid_rows(
    records: Seq<Option<Seq<Seq<char>>>>,
    layout: (int, Seq<int>),
) -> Seq<(Seq<char>, Seq<Seq<char>>)>
    decreases records.len(),
{
    if records.len() == 0 {
        seq![]
    } else {
        let earlier = valid_rows(records.drop_last(), layout);
        match records.last() {
            Some(row) => match row_outcome(row, layout) {
                Ok(v) => earlier.push(v),
                Err(_) => earlier,
            },
            None => earlier,
        }
    }
}

/// One valid harvester row.
#[derive(Clone, Debug)]
pub struct Sample {
    /// Milliseconds since this run's first valid sample.
    pub elapsed_milliseconds: i64,
    /// Numeric cell texts, indexed through `parameters::field`; each one is a
    /// floating-point literal.
    pub values: Vec<String>,
}

pub open spec fn sample_view(sample: Sample) -> (int, Seq<Seq<char>>) {
    (sample.elapsed_milliseconds as int, texts(sample.values@))
}

/// The samples of a run made of `rows`: each row's cells, with the time
/// elapsed since the first row.
pub open spec fn aligned_samples(rows: Seq<(Seq<char>, Seq<Seq<char>>)>) -> Seq<
    (int, Seq<Seq<char>>),
> {
    rows.map_values(
        |row: (Seq<char>, Seq<Seq<char>>)|
            (millis_between(row.0, rows[0].0, TIMESTAMP_FORMAT@) as int, row.1),
    )
}

/// One independently captured CSV run.
#[derive(Clone, Debug)]
pub struct SensorRun {
    pub source_path: String,
    pub display_name: String,
    /// Timestamp text of the first valid record.
    pub started_at: String,
    /// Timestamp text of the last valid record.
    pub ended_at: String,
    pub samples: Vec<Sample>,
}

impl SensorRun {
    /// Elapsed milliseconds of the last sample, or zero without samples.
    pub open spec fn duration_spec(&self) -> int {
        if self.samples@.len() == 0 {
            0
        } else {
            self.samples@.last().elapsed_milliseconds as int
        }
    }

    /// The run's extent on the elapsed axis: the last sample's elapsed time.
    pub fn duration_milliseconds(&self) -> (duration: i64)
        ensures
            duration == self.duration_spec(),
    {
        if self.samples.len() == 0 {
            0
        } else {
            self.samples[self.samples.len() - 1].elapsed_milliseconds
        }
    }
}

/// Loader result including recoverable row errors.
pub struct LoadReport {
    pub run: SensorRun,
    pub skipped_rows: usize,
}

/// `chrono`'s `Display` of the `NaiveDateTime` read from `text` with `format`.
pub uninterp spec fn displayed_datetime(text: Seq<char>, format: Seq<char>) -> Seq<char>;

/// Reads `text` with `chrono::NaiveDateTime::parse_from_str` and shows the
/// date-time with its `Display` impl (`to_string`). Trusted: the text is
/// `displayed_datetime` of the arguments.
#[verifier::external_body]
fn datetime_text(text: &str, format: &str) -> (shown: String)
    requires
        parses_as_datetime(text@, format@),
    ensures
        shown@ == displayed_datetime(text@, format@),
{
    chrono::NaiveDateTime::parse_from_str(text, format).unwrap().to_string()
}

/// The valid rows, in logger order, of records under a readable header
/// record, or why they yield no run.
pub open spec fn rows_of_table(
    headers: Seq<Seq<char>>,
    records: Seq<Option<Seq<Seq<char>>>>,
) -> Result<Seq<(Seq<char>, Seq<Seq<char>>)>, LoadError> {
    match column_layout(headers) {
        Err(column) => Err(LoadError::MissingColumn(column)),
        Ok(layout) => {
            let rows = valid_rows(records, layout);
            if rows.len() == 0 {
                Err(LoadError::NoValidRows)
            } else {
                Ok(rows)
            }
        },
    }
}

pub open spec fn name_view(name: Option<String>) -> Option<Seq<char>> {
    match name {
        Some(n) => Some(n@),
        None => None,
    }
}

/// The name under which a run is shown: its file name, or `sensor run`.
pub open spec fn display_name_spec(file_name: Option<Seq<char>>) -> Seq<char> {
    match file_name {
        Some(n) => n,
        None => "sensor run"@,
    }
}

/// The report holds exactly the run made of the valid `rows` of a table with
/// `record_count` records, read from `source_path` whose file name is
/// `file_name`.
pub open spec fn report_of_rows(
    report: LoadReport,
    rows: Seq<(Seq<char>, Seq<Seq<char>>)>,
    record_count: int,
    source_path: Seq<char>,
    file_name: Option<Seq<char>>,
) -> bool {
    &&& report.run.samples@.map_values(|s: Sample| sample_view(s)) == aligned_samples(rows)
    &&& report.run.samples@[0].elapsed_milliseconds == 0
    &&& forall|i: int|
        0 <= i < report.run.samples@.len() ==> values_are_numbers(
            #[trigger] report.run.samples@[i].values@,
        )
    &&& report.run.started_at@ == displayed_datetime(rows[0].0, TIMESTAMP_FORMAT@)
    &&& report.run.ended_at@ == displayed_datetime(rows.last().0, TIMESTAMP_FORMAT@)
    &&& report.run.source_path@ == source_path
    &&& report.run.display_name@ == display_name_spec(file_name)
    &&& report.skipped_rows == record_count - rows.len()
}

/// What loading a read table gives: the header's error message, the error
/// of `rows_of_table`, or the run made of the valid rows.
pub open spec fn loaded_from_table(
    report: Result<LoadReport, LoadError>,
    table: TableView,
    source_path: Seq<char>,
    file_name: Option<Seq<char>>,
) -> bool {
    match table.0 {
        Err(message) => report matches Err(LoadError::HeaderUnreadable(m)) && m@ == message,
        Ok(headers) => match rows_of_table(headers, table.1) {
            Err(e) => report == Err::<LoadReport, LoadError>(e),
            Ok(rows) => report matches Ok(r) && report_of_rows(
                r,
                rows,
                table.1.len() as int,
                source_path,
                file_name,
            ),
        },
    }
}

/// The name under which a run is shown: its file name, or `sensor run`.
pub fn display_name_for(file_name: Option<String>) -> (name: String)
    ensures
        name@ == display_name_spec(name_view(file_name)),
{
    match file_name {
        Some(n) => n,
        None => "sensor run".to_owned(),
    }
}

/// Builds one run from a read CSV table.
///
/// Records that cannot be read, or that are not valid sensor rows, are
/// counted and skipped; the run keeps logger order. Every sample's elapsed
/// time is measured from the first valid row, whose own elapsed time is zero.
pub fn run_from_table(table: &CsvTable, source_path: String, file_name: Option<String>) -> (report:
    Result<LoadReport, LoadError>)
    ensures
        loaded_from_table(report, table@, source_path@, name_view(file_name)),
{
    let ghost records = table@.1;
    let headers = match &table.headers {
        Ok(h) => h,
        Err(message) => return Err(LoadError::HeaderUnreadable(message.clone())),
    };
    let columns = match build_column_map(headers) {
        Ok(m) => m,
        Err(e) => return Err(e),
    };
    let ghost layout = columns.layout();
    let mut samples: Vec<Sample> = Vec::new();
    let mut skipped_rows: usize = 0;
    let mut first_timestamp = String::new();
    let mut last_timestamp = String::new();
    for i in 0..table.rows.len()
        invariant
            records == table@.1,
            records.len() == table.rows@.len(),
            layout == columns.layout(),
            columns.fields@.len() == FIELD_COUNT,
            ({
                let rows = valid_rows(records.take(i as int), layout);
                &&& samples@.len() == rows.len()
                &&& skipped_rows == i - rows.len()
                &&& forall|j: int|
                    0 <= j < samples@.len() ==> values_are_numbers(#[trigger] samples@[j].values@)
                &&& rows.len() > 0 ==> {
                    &&& samples@[0].elapsed_milliseconds == 0
                    &&& first_timestamp@ == rows[0].0
                    &&& last_timestamp@ == rows.last().0
                    &&& parses_as_datetime(first_timestamp@, TIMESTAMP_FORMAT@)
                    &&& parses_as_datetime(last_timestamp@, TIMESTAMP_FORMAT@)
                    &&& samples@.map_values(|s: Sample| sample_view(s)) == aligned_samples(rows)
                }
            }),
    {
        let ghost before = valid_rows(records.take(i as int), layout);
        assert(records.take(i + 1).drop_last() =~= records.take(i as int));
        assert(records[i as int] == record_view(table.rows@[i as int]));
        match &table.rows[i] {
            None => {
                skipped_rows = skipped_rows + 1;
            },
            Some(record) => match parse_record(record, &columns) {
                Err(_) => {
                    skipped_rows = skipped_rows + 1;
                },
                Ok(row) => {
                    if samples.len() == 0 {
                        first_timestamp = row.timestamp.clone();
                    }
                    let elapsed = elapsed_millis(
                        row.timestamp.as_str(),
                        first_timestamp.as_str(),
                        TIMESTAMP_FORMAT,
                    );
                    last_timestamp = row.timestamp;
                    let ghost after = valid_rows(records.take(i + 1), layout);
                    let ghost earlier_samples = samples@;
                    let ghost new_row = parsed_row_view(row);
                    samples.push(Sample { elapsed_milliseconds: elapsed, values: row.values });
                    proof {
                        assert(after == before.push(new_row));
                        assert(after[0] == if before.len() > 0 {
                            before[0]
                        } else {
                            new_row
                        });
                        assert forall|j: int| 0 <= j < samples@.len() implies sample_view(
                            #[trigger] samples@[j],
                        ) == aligned_samples(after)[j] by {
                            if j < earlier_samples.len() {
                                assert(earlier_samples.map_values(|s: Sample| sample_view(s))[j]
                                    == aligned_samples(before)[j]);
                                assert(samples@[j] == earlier_samples[j]);
                            }
                        }
                        assert(samples@.map_values(|s: Sample| sample_view(s)) =~= aligned_samples(
                            after,
                        ));
                    }
                },
            },
        }
    }
    assert(records.take(table.rows.len() as int) =~= records);
    if samples.len() == 0 {
        return Err(LoadError::NoValidRows);
    }
    let started_at = datetime_text(first_timestamp.as_str(), TIMESTAMP_FORMAT);
    let ended_at = datetime_text(last_timestamp.as_str(), TIMESTAMP_FORMAT);
    let display_name = display_name_for(file_name);
    let run = SensorRun { source_path, display_name, started_at, ended_at, samples };
    let report = LoadReport { run, skipped_rows };
    Ok(report)
}

/// A single path component with no separator or drive syntax on any
/// platform: not empty, not `.` or `..`, and without `/`, `\\` or `:`.
pub open spec fn is_plain_name(path: Seq<char>) -> bool {
    &&& path.len() > 0
    &&& path != seq!['.']
    &&& path != seq!['.', '.']
    &&& forall|i: int| 0 <= i < path.len() ==> #[trigger] path[i] != '/' && path[i] != '\\' && path[i] != ':'
}

/// What `Path::file_name` gives on every platform: nothing for an empty path
/// or the root `/`, the whole path for a plain name, and otherwise, if
/// anything, a non-empty piece of the path that is not `.` or `..`.
pub open spec fn file_name_fits(path: Seq<char>, name: Option<Seq<char>>) -> bool {
    &&& path.len() == 0 ==> name is None
    &&& path == seq!['/'] ==> name is None
    &&& is_plain_name(path) ==> name == Some(path)
    &&& name matches Some(n) ==> {
        &&& n.len() > 0
        &&& n != seq!['.']
        &&& n != seq!['.', '.']
        &&& exists|i: int| 0 <= i && i + n.len() <= path.len() && #[trigger] path.subrange(i, i + n.len()) == n
    }
}

/// Calls `std::path::Path::file_name` on `path` and reads the name as UTF-8
/// text. Trusted: the facts of `file_name_fits`. Which component is the file
/// name otherwise depends on the platform's path syntax, so it is not stated.
#[verifier::external_body]
fn path_file_name(path: &str) -> (name: Option<String>)
    ensures
        file_name_fits(path@, name_view(name)),
{
    std::path::Path::new(path).file_name().and_then(|n| n.to_str()).map(String::from)
}

/// Parses a harvester CSV document read from `source_path` into one run:
/// `run_from_table` on the document's cells as the `csv` crate reads them,
/// trimmed, with the path's file name as the run's name.
pub fn parse_reader(bytes: &[u8], source_path: String) -> (report: Result<LoadReport, LoadError>)
    ensures
        exists|file_name: Option<Seq<char>>|
            #[trigger] file_name_fits(source_path@, file_name) && loaded_from_table(
                report,
                trimmed_csv_table(bytes@),
                source_path@,
                file_name,
            ),
{
    let table = read_trimmed_csv(bytes);
    let file_name = path_file_name(source_path.as_str());
    let ghost name = name_view(file_name);
    let report = run_from_table(&table, source_path, file_name);
    assert(file_name_fits(source_path@, name));
    report
}

/// `name` is the header of a column that the schema requires.
pub open spec fn is_required_header(name: Seq<char>) -> bool {
    ||| name == TIMESTAMP_HEADER@
    ||| exists|f: int| 0 <= f < FIELD_COUNT && name == #[trigger] field_header_spec(f)
}

/// No two headers are equal.
pub open spec fn distinct_headers(headers: Seq<Seq<char>>) -> bool {
    forall|i: int, j: int|
        #![trigger headers[i], headers[j]]
        0 <= i < j < headers.len() ==> headers[i] != headers[j]
}

/// Column `j` of a table with headers `h1` is column `pos[j]` of a table
/// with headers `h2`, no two columns share a place, and every other column
/// of the second table is not a schema column.
pub open spec fn columns_placed(h1: Seq<Seq<char>>, h2: Seq<Seq<char>>, pos: Seq<int>) -> bool {
    &&& pos.len() == h1.len()
    &&& forall|j: int| 0 <= j < h1.len() ==> 0 <= #[trigger] pos[j] < h2.len() && h2[pos[j]] == h1[j]
    &&& forall|j: int, k: int|
        #![trigger pos[j], pos[k]]
        0 <= j < k < h1.len() ==> pos[j] != pos[k]
    &&& forall|k: int|
        0 <= k < h2.len() && is_required_header(#[trigger] h2[k]) ==> exists|j: int|
            0 <= j < h1.len() && pos[j] == k
}

/// Record `r2` holds the cells of record `r1` at the places `pos`, each
/// record as long as its table's header; or neither record can be read.
pub open spec fn record_placed(
    r1: Option<Seq<Seq<char>>>,
    r2: Option<Seq<Seq<char>>>,
    width1: int,
    width2: int,
    pos: Seq<int>,
) -> bool {
    match (r1, r2) {
        (None, None) => true,
        (Some(a), Some(b)) => {
            &&& a.len() == width1
            &&& b.len() == width2
            &&& forall|j: int| 0 <= j < width1 ==> b[#[trigger] pos[j]] == a[j]
        },
        _ => false,
    }
}

pub proof fn lemma_first_index_spec(headers: Seq<Seq<char>>, name: Seq<char>)
    ensures
        match first_index_of(headers, name) {
            Some(i) => 0 <= i < headers.len() && headers[i] == name && forall|j: int|
                0 <= j < i ==> headers[j] != name,
            None => forall|j: int| 0 <= j < headers.len() ==> headers[j] != name,
        },
    decreases headers.len(),
{
    if headers.len() > 0 {
        let earlier = headers.drop_last();
        lemma_first_index_spec(earlier, name);
        assert forall|j: int| 0 <= j < earlier.len() implies earlier[j] == headers[j] by {}
    }
}

/// A required header is found at the place of its column.
proof fn lemma_placed_first_index(h1: Seq<Seq<char>>, h2: Seq<Seq<char>>, pos: Seq<int>, name: Seq<char>)
    requires
        columns_placed(h1, h2, pos),
        distinct_headers(h2),
        is_required_header(name),
    ensures
        match first_index_of(h1, name) {
            Some(i) => first_index_of(h2, name) == Some(pos[i]) && 0 <= i < h1.len(),
            None => first_index_of(h2, name) is None,
        },
{
    lemma_first_index_spec(h1, name);
    lemma_first_index_spec(h2, name);
    match first_index_of(h1, name) {
        Some(i) => {
            assert(h2[pos[i]] == name);
            if let Some(k) = first_index_of(h2, name) {
                if k != pos[i] {
                    if k < pos[i] {
                        assert(h2[k] != h2[pos[i]]);
                    } else {
                        assert(h2[pos[i]] != h2[k]);
                    }
                }
            }
        },
        None => {
            if let Some(k) = first_index_of(h2, name) {
                assert(is_required_header(h2[k]));
                let j = choose|j: int| 0 <= j < h1.len() && pos[j] == k;
                assert(h2[pos[j]] == h1[j]);
            }
        },
    }
}

proof fn lemma_placed_missing_field(h1: Seq<Seq<char>>, h2: Seq<Seq<char>>, pos: Seq<int>, k: int)
    requires
        columns_placed(h1, h2, pos),
        distinct_headers(h2),
        0 <= k,
    ensures
        first_missing_field(h1, k) == first_missing_field(h2, k),
    decreases FIELD_COUNT - k,
{
    if k < FIELD_COUNT {
        assert(is_required_header(field_header_spec(k)));
        lemma_placed_first_index(h1, h2, pos, field_header_spec(k));
        lemma_placed_missing_field(h1, h2, pos, k + 1);
    }
}

pub proof fn lemma_no_missing_field(headers: Seq<Seq<char>>, k: int, f: int)
    requires
        0 <= k <= f < FIELD_COUNT,
        first_missing_field(headers, k) is None,
    ensures
        first_index_of(headers, field_header_spec(f)) is Some,
    decreases f - k,
{
    if k < f {
        lemma_no_missing_field(headers, k + 1, f);
    }
}

proof fn lemma_placed_bad_field(
    a: Seq<Seq<char>>,
    b: Seq<Seq<char>>,
    fields1: Seq<int>,
    fields2: Seq<int>,
    pos: Seq<int>,
    k: int,
)
    requires
        0 <= k,
        fields1.len() == FIELD_COUNT,
        fields2.len() == FIELD_COUNT,
        forall|f: int|
            0 <= f < FIELD_COUNT ==> 0 <= #[trigger] fields1[f] < a.len() && fields2[f]
                == pos[fields1[f]],
        forall|j: int| 0 <= j < a.len() ==> 0 <= #[trigger] pos[j] < b.len() && b[pos[j]] == a[j],
    ensures
        first_bad_field(a, fields1, k) == first_bad_field(b, fields2, k),
    decreases FIELD_COUNT - k,
{
    if k < FIELD_COUNT {
        let j = fields1[k];
        assert(0 <= pos[j] < b.len() && b[pos[j]] == a[j]);
        lemma_placed_bad_field(a, b, fields1, fields2, pos, k + 1);
    }
}

proof fn lemma_placed_valid_rows(
    records1: Seq<Option<Seq<Seq<char>>>>,
    records2: Seq<Option<Seq<Seq<char>>>>,
    layout1: (int, Seq<int>),
    layout2: (int, Seq<int>),
    width1: int,
    width2: int,
    pos: Seq<int>,
)
    requires
        records1.len() == records2.len(),
        forall|i: int|
            0 <= i < records1.len() ==> record_placed(
                #[trigger] records1[i],
                records2[i],
                width1,
                width2,
                pos,
            ),
        forall|j: int| 0 <= j < width1 ==> 0 <= #[trigger] pos[j] < width2,
        0 <= layout1.0 < width1,
        layout2.0 == pos[layout1.0],
        layout1.1.len() == FIELD_COUNT,
        layout2.1.len() == FIELD_COUNT,
        forall|f: int|
            0 <= f < FIELD_COUNT ==> 0 <= #[trigger] layout1.1[f] < width1 && layout2.1[f]
                == pos[layout1.1[f]],
    ensures
        valid_rows(records1, layout1) == valid_rows(records2, layout2),
    decreases records1.len(),
{
    if records1.len() > 0 {
        lemma_placed_valid_rows(
            records1.drop_last(),
            records2.drop_last(),
            layout1,
            layout2,
            width1,
            width2,
            pos,
        );
        let last = records1.len() - 1;
        assert(record_placed(records1[last], records2[last], width1, width2, pos));
        if let Some(a) = records1[last] {
            let b = records2[last]->Some_0;
            assert(b[pos[layout1.0]] == a[layout1.0]);
            lemma_placed_bad_field(a, b, layout1.1, layout2.1, pos, 0);
            let v1 = Seq::new(FIELD_COUNT as nat, |k: int| a[layout1.1[k]]);
            let v2 = Seq::new(FIELD_COUNT as nat, |k: int| b[layout2.1[k]]);
            assert forall|k: int| 0 <= k < FIELD_COUNT implies v1[k] == v2[k] by {
                assert(b[pos[layout1.1[k]]] == a[layout1.1[k]]);
            }
            assert(v1 =~= v2);
            assert(row_outcome(a, layout1) == row_outcome(b, layout2));
        }
    }
}

/// Columns are found by their header names, not by their positions: reordering
/// the columns of a table, and adding columns that the schema does not use,
/// leaves which rows are valid, and what they hold, unchanged.
pub proof fn columns_are_found_by_name(
    table1: TableView,
    table2: TableView,
    pos: Seq<int>,
)
    requires
        table1.0 is Ok,
        table2.0 is Ok,
        columns_placed(table1.0->Ok_0, table2.0->Ok_0, pos),
        distinct_headers(table2.0->Ok_0),
        table1.1.len() == table2.1.len(),
        forall|i: int|
            0 <= i < table1.1.len() ==> record_placed(
                #[trigger] table1.1[i],
                table2.1[i],
                table1.0->Ok_0.len() as int,
                table2.0->Ok_0.len() as int,
                pos,
            ),
    ensures
        rows_of_table(table1.0->Ok_0, table1.1) == rows_of_table(table2.0->Ok_0, table2.1),
{
    let h1 = table1.0->Ok_0;
    let h2 = table2.0->Ok_0;
    assert(is_required_header(TIMESTAMP_HEADER@));
    lemma_placed_first_index(h1, h2, pos, TIMESTAMP_HEADER@);
    lemma_placed_missing_field(h1, h2, pos, 0);
    if let Ok(layout1) = column_layout(h1) {
        let layout2 = column_layout(h2)->Ok_0;
        assert forall|f: int| 0 <= f < FIELD_COUNT implies 0 <= #[trigger] layout1.1[f] < h1.len()
            && layout2.1[f] == pos[layout1.1[f]] by {
            assert(is_required_header(field_header_spec(f)));
            lemma_no_missing_field(h1, 0, f);
            lemma_placed_first_index(h1, h2, pos, field_header_spec(f));
            lemma_first_index_spec(h1, field_header_spec(f));
        }
        lemma_placed_valid_rows(
            table1.1,
            table2.1,
            layout1,
            layout2,
            h1.len() as int,
            h2.len() as int,
            pos,
        );
    }
}


/// Two tables with the same valid rows and the same number of records load
/// into the same outcome: the same error, or runs with equal samples,
/// timestamps, names and skipped-row counts.
pub proof fn loads_agree(
    report1: Result<LoadReport, LoadError>,
    report2: Result<LoadReport, LoadError>,
    table1: TableView,
    table2: TableView,
    source_path: Seq<char>,
    file_name: Option<Seq<char>>,
)
    requires
        loaded_from_table(report1, table1, source_path, file_name),
        loaded_from_table(report2, table2, source_path, file_name),
        table1.0 is Ok,
        table2.0 is Ok,
        rows_of_table(table1.0->Ok_0, table1.1) == rows_of_table(table2.0->Ok_0, table2.1),
        table1.1.len() == table2.1.len(),
    ensures
        report1 is Err ==> report1 == report2,
        report1 matches Ok(r1) ==> report2 matches Ok(r2) && {
            &&& r1.skipped_rows == r2.skipped_rows
            &&& r1.run.samples@.map_values(|s: Sample| sample_view(s)) == r2.run.samples@.map_values(
                |s: Sample| sample_view(s),
            )
            &&& r1.run.started_at@ == r2.run.started_at@
            &&& r1.run.ended_at@ == r2.run.ended_at@
            &&& r1.run.display_name@ == r2.run.display_name@
            &&& r1.run.source_path@ == r2.run.source_path@
        },
{
}


/// The invalid-value sentinel that the harvester writes into a field.
#[derive(Clone, Copy, Debug, PartialEq, Eq, Structural)]
pub enum Sentinel {
    /// `INVALID_TEMPERATURE_C`, written into NTC temperature fields.
    Temperature,
    /// `INVALID_RESISTANCE_OHM`, written into NTC resistance fields.
    Resistance,
}

pub open spec fn sentinel_spec(field_index: usize) -> Option<Sentinel> {
    if field_index == T0_BETA || field_index == T0_SH || field_index == T1_BETA || field_index
        == T1_SH || field_index == T2_BETA || field_index == T2_SH {
        Some(Sentinel::Temperature)
    } else if field_index == R0 || field_index == R1 || field_index == R2 {
        Some(Sentinel::Resistance)
    } else {
        None
    }
}

/// Which sentinel, if any, marks an invalid value in a field.
///
/// A value is displayable when it is finite and, for a field with a
/// sentinel, not within `INVALID_VALUE_EPSILON` of that sentinel.
pub fn sentinel_for_field(field_index: usize) -> (sentinel: Option<Sentinel>)
    ensures
        sentinel == sentinel_spec(field_index),
{
    if field_index == T0_BETA || field_index == T0_SH || field_index == T1_BETA || field_index
        == T1_SH || field_index == T2_BETA || field_index == T2_SH {
        Some(Sentinel::Temperature)
    } else if field_index == R0 || field_index == R1 || field_index == R2 {
        Some(Sentinel::Resistance)
    } else {
        None
    }
}


/// Where `column_layout` finds the columns: at headers carrying their names.
pub proof fn lemma_layout_positions(headers: Seq<Seq<char>>)
    requires
        column_layout(headers) is Ok,
    ensures
        ({
            let layout = column_layout(headers)->Ok_0;
            &&& 0 <= layout.0 < headers.len()
            &&& headers[layout.0] == TIMESTAMP_HEADER@
            &&& layout.1.len() == FIELD_COUNT
            &&& forall|k: int|
                0 <= k < FIELD_COUNT ==> 0 <= #[trigger] layout.1[k] < headers.len() && headers[layout.1[k]]
                    == field_header_spec(k)
        }),
{
    let layout = column_layout(headers)->Ok_0;
    lemma_first_index_spec(headers, TIMESTAMP_HEADER@);
    assert forall|k: int| 0 <= k < FIELD_COUNT implies 0 <= #[trigger] layout.1[k] < headers.len()
        && headers[layout.1[k]] == field_header_spec(k) by {
        lemma_no_missing_field(headers, 0, k);
        lemma_first_index_spec(headers, field_header_spec(k));
    }
}

proof fn lemma_no_bad_field(row: Seq<Seq<char>>, fields: Seq<int>, k: int, f: int)
    requires
        0 <= k <= f < FIELD_COUNT,
        first_bad_field(row, fields, k) is None,
    ensures
        fields[f] < row.len() && is_float_literal_spec(row[fields[f]]),
    decreases f - k,
{
    if k < f {
        lemma_no_bad_field(row, fields, k + 1, f);
    }
}

/// What a valid record reads as: its timestamp cell, which parses, and the
/// cell of each field's column, each a floating-point literal.
pub proof fn lemma_row_outcome_fields(record: Seq<Seq<char>>, layout: (int, Seq<int>))
    requires
        row_outcome(record, layout) is Ok,
        layout.1.len() == FIELD_COUNT,
    ensures
        ({
            let v = row_outcome(record, layout)->Ok_0;
            &&& 0 <= layout.0 < record.len() ==> v.0 == record[layout.0]
            &&& parses_as_datetime(v.0, TIMESTAMP_FORMAT@)
            &&& v.1.len() == FIELD_COUNT
            &&& forall|k: int|
                0 <= k < FIELD_COUNT ==> #[trigger] v.1[k] == record[layout.1[k]]
                    && is_float_literal_spec(v.1[k])
        }),
{
    assert forall|k: int| 0 <= k < FIELD_COUNT implies is_float_literal_spec(
        record[layout.1[k]],
    ) by {
        lemma_no_bad_field(record, layout.1, 0, k);
    }
}

} // verus!
