//! Survey points read from a table with a header row.

use vstd::prelude::*;
use crate::number::{is_float_literal, is_float_text, parse_point_id, point_id_of};
use crate::table::{csv_records, csv_records_of, row_view, table_view, text_equals};

verus! {

/// A column that every survey row must have.
#[derive(Clone, Copy, Debug, PartialEq, Eq, Structural)]
pub enum Column {
    Point,
    Longitude,
    Latitude,
    Ahd,
}

pub open spec fn column_name(c: Column) -> Seq<char> {
    match c {
        Column::Point => "point"@,
        Column::Longitude => "longitude"@,
        Column::Latitude => "latitude"@,
        Column::Ahd => "ahd"@,
    }
}

impl Column {
    /// The header text that names this column.
    pub fn name(&self) -> (r: &'static str)
        ensures
            r@ == column_name(*self),
    {
        match self {
            Column::Point => "point",
            Column::Longitude => "longitude",
            Column::Latitude => "latitude",
            Column::Ahd => "ahd",
        }
    }
}

/// Why a table does not decode into survey rows.
#[derive(Clone, Copy, Debug, PartialEq, Eq, Structural)]
pub enum TableError {
    /// The header row does not name the column.
    MissingColumn(Column),
    /// The header row names the column more than once.
    DuplicateColumn(Column),
    /// Data row `row` (counted from 0, after the header) has no valid value
    /// in the column.
    InvalidValue { row: usize, column: Column },
}

/// Why survey input cannot be read.
#[derive(Debug)]
pub enum ReadError {
    /// The text is not well-formed comma-separated data.
    Malformed(csv::Error),
    /// The rows do not decode into survey points.
    Table(TableError),
}

/// Where the required columns stand in the header row.
#[derive(Clone, Copy, Debug, PartialEq, Eq, Structural)]
pub struct Columns {
    pub point: usize,
    pub longitude: usize,
    pub latitude: usize,
    pub ahd: usize,
}

/// One data row: its point identifier, and its coordinate and height
/// texts, each of which reads as a 64-bit floating-point number.
#[derive(Debug)]
pub struct SurveyRow {
    pub point: u16,
    pub longitude: String,
    pub latitude: String,
    pub ahd: String,
}

pub struct SurveyRowView {
    pub point: u16,
    pub longitude: Seq<char>,
    pub latitude: Seq<char>,
    pub ahd: Seq<char>,
}

impl View for SurveyRow {
    type V = SurveyRowView;

    open spec fn view(&self) -> SurveyRowView {
        SurveyRowView {
            point: self.point,
            longitude: self.longitude@,
            latitude: self.latitude@,
            ahd: self.ahd@,
        }
    }
}

pub open spec fn rows_view(rows: Seq<SurveyRow>) -> Seq<SurveyRowView> {
    rows.map_values(|r: SurveyRow| r@)
}

pub open spec fn names(header: Seq<Seq<char>>, name: Seq<char>) -> bool {
    exists|k: int| 0 <= k < header.len() && #[trigger] header[k] == name
}

/// `k` is the one position of `name` in `header`.
pub open spec fn sole_position(header: Seq<Seq<char>>, name: Seq<char>, k: int) -> bool {
    &&& 0 <= k < header.len()
    &&& header[k] == name
    &&& forall|j: int| 0 <= j < header.len() && #[trigger] header[j] == name ==> j == k
}

pub open spec fn locate(header: Seq<Seq<char>>, c: Column) -> Result<int, TableError> {
    if !names(header, column_name(c)) {
        Err(TableError::MissingColumn(c))
    } else if exists|k: int| sole_position(header, column_name(c), k) {
        Ok(choose|k: int| sole_position(header, column_name(c), k))
    } else {
        Err(TableError::DuplicateColumn(c))
    }
}

/// The positions of the required columns, checked in the order point,
/// longitude, latitude, ahd.
pub open spec fn resolve(header: Seq<Seq<char>>) -> Result<Columns, TableError> {
    match locate(header, Column::Point) {
        Err(e) => Err(e),
        Ok(p) => match locate(header, Column::Longitude) {
            Err(e) => Err(e),
            Ok(lo) => match locate(header, Column::Latitude) {
                Err(e) => Err(e),
                Ok(la) => match locate(header, Column::Ahd) {
                    Err(e) => Err(e),
                    Ok(h) => Ok(
                        Columns {
                            point: p as usize,
                            longitude: lo as usize,
                            latitude: la as usize,
                            ahd: h as usize,
                        },
                    ),
                },
            },
        },
    }
}


/// Finds the one position of column `c` in `header`.
fn locate_column(header: &Vec<String>, c: Column) -> (r: Result<usize, TableError>)
    ensures
        match r {
            Ok(k) => locate(row_view(*header), c) == Ok::<int, TableError>(k as int),
            Err(e) => locate(row_view(*header), c) == Err::<int, TableError>(e),
        },
{
    let ghost h = row_view(*header);
    let ghost name = column_name(c);
    let wanted = c.name();
    let mut found: Option<usize> = None;
    let mut i: usize = 0;
    while i < header.len()
        invariant
            h == row_view(*header),
            name == column_name(c),
            wanted@ == name,
            0 <= i <= header.len(),
            found is None ==> forall|j: int| 0 <= j < i ==> h[j] != name,
            found is Some ==> found->0 < i && h[found->0 as int] == name && forall|j: int|
                0 <= j < i && h[j] == name ==> j == found->0,
        decreases header.len() - i,
    {
        if text_equals(header[i].as_str(), wanted) {
            if let Some(k) = found {
                assert(h[k as int] == name && h[i as int] == name);
                assert(!exists|m: int| sole_position(h, name, m));
                return Err(TableError::DuplicateColumn(c));
            }
            found = Some(i);
        }
        i = i + 1;
    }
    match found {
        None => Err(TableError::MissingColumn(c)),
        Some(k) => {
            assert(sole_position(h, name, k as int));
            let ghost m = choose|m: int| sole_position(h, name, m);
            assert(m == k);
            Ok(k)
        },
    }
}

/// Finds the required columns in a header row.
pub fn resolve_columns(header: &Vec<String>) -> (r: Result<Columns, TableError>)
    ensures
        r == resolve(row_view(*header)),
{
    let point = match locate_column(header, Column::Point) {
        Ok(k) => k,
        Err(e) => return Err(e),
    };
    let longitude = match locate_column(header, Column::Longitude) {
        Ok(k) => k,
        Err(e) => return Err(e),
    };
    let latitude = match locate_column(header, Column::Latitude) {
        Ok(k) => k,
        Err(e) => return Err(e),
    };
    let ahd = match locate_column(header, Column::Ahd) {
        Ok(k) => k,
        Err(e) => return Err(e),
    };
    Ok(Columns { point, longitude, latitude, ahd })
}

pub open spec fn field_at(row: Seq<Seq<char>>, k: usize) -> Option<Seq<char>> {
    if k < row.len() { Some(row[k as int]) } else { None }
}

pub open spec fn point_at(row: Seq<Seq<char>>, k: usize) -> Option<u16> {
    match field_at(row, k) {
        Some(t) => point_id_of(t),
        None => None,
    }
}

pub open spec fn float_at(row: Seq<Seq<char>>, k: usize) -> Option<Seq<char>> {
    match field_at(row, k) {
        Some(t) => if is_float_text(t) { Some(t) } else { None },
        None => None,
    }
}

/// Decodes data row `index` by the column positions, checking the columns
/// in the order point, longitude, latitude, ahd.
pub open spec fn decode_row(row: Seq<Seq<char>>, cols: Columns, index: int) -> Result<
    SurveyRowView,
    TableError,
> {
    let bad = |c: Column| TableError::InvalidValue { row: index as usize, column: c };
    if point_at(row, cols.point) is None {
        Err(bad(Column::Point))
    } else if float_at(row, cols.longitude) is None {
        Err(bad(Column::Longitude))
    } else if float_at(row, cols.latitude) is None {
        Err(bad(Column::Latitude))
    } else if float_at(row, cols.ahd) is None {
        Err(bad(Column::Ahd))
    } else {
        Ok(
            SurveyRowView {
                point: point_at(row, cols.point)->0,
                longitude: float_at(row, cols.longitude)->0,
                latitude: float_at(row, cols.latitude)->0,
                ahd: float_at(row, cols.ahd)->0,
            },
        )
    }
}

/// The first `n` data rows of `table` (whose row 0 is the header), or the
/// error of the first that does not decode.
pub open spec fn decode_rows(table: Seq<Seq<Seq<char>>>, cols: Columns, n: nat) -> Result<
    Seq<SurveyRowView>,
    TableError,
>
    decreases n,
{
    if n == 0 {
        Ok(Seq::empty())
    } else {
        match decode_rows(table, cols, (n - 1) as nat) {
            Err(e) => Err(e),
            Ok(s) => match decode_row(table[n as int], cols, n - 1) {
                Err(e) => Err(e),
                Ok(v) => Ok(s.push(v)),
            },
        }
    }
}

/// A table whose first row is the header: no data row gives no points,
/// else the header must hold the required columns and every data row
/// must decode.
pub open spec fn decode_table(table: Seq<Seq<Seq<char>>>) -> Result<Seq<SurveyRowView>, TableError> {
    if table.len() <= 1 {
        Ok(Seq::empty())
    } else {
        match resolve(table[0]) {
            Err(e) => Err(e),
            Ok(cols) => decode_rows(table, cols, (table.len() - 1) as nat),
        }
    }
}

fn float_field(row: &Vec<String>, k: usize) -> (r: Option<String>)
    ensures
        match r {
            Some(t) => float_at(row_view(*row), k) == Some(t@),
            None => float_at(row_view(*row), k) is None,
        },
{
    if k < row.len() && is_float_literal(row[k].as_str()) {
        Some(row[k].clone())
    } else {
        None
    }
}

/// Decodes one data row, `index` counted from 0 after the header.
pub fn decode_survey_row(row: &Vec<String>, cols: &Columns, index: usize) -> (r: Result<
    SurveyRow,
    TableError,
>)
    ensures
        match r {
            Ok(v) => decode_row(row_view(*row), *cols, index as int) == Ok::<
                SurveyRowView,
                TableError,
            >(v@),
            Err(e) => decode_row(row_view(*row), *cols, index as int) == Err::<
                SurveyRowView,
                TableError,
            >(e),
        },
{
    let point = if cols.point < row.len() {
        parse_point_id(row[cols.point].as_str())
    } else {
        None
    };
    let point = match point {
        Some(p) => p,
        None => return Err(TableError::InvalidValue { row: index, column: Column::Point }),
    };
    let longitude = match float_field(row, cols.longitude) {
        Some(t) => t,
        None => return Err(TableError::InvalidValue { row: index, column: Column::Longitude }),
    };
    let latitude = match float_field(row, cols.latitude) {
        Some(t) => t,
        None => return Err(TableError::InvalidValue { row: index, column: Column::Latitude }),
    };
    let ahd = match float_field(row, cols.ahd) {
        Some(t) => t,
        None => return Err(TableError::InvalidValue { row: index, column: Column::Ahd }),
    };
    Ok(SurveyRow { point, longitude, latitude, ahd })
}


proof fn lemma_failure_persists(table: Seq<Seq<Seq<char>>>, cols: Columns, n: nat, m: nat)
    requires
        n <= m,
        decode_rows(table, cols, n) is Err,
    ensures
        decode_rows(table, cols, m) == decode_rows(table, cols, n),
    decreases m,
{
    if m > n {
        lemma_failure_persists(table, cols, n, (m - 1) as nat);
    }
}

/// Decodes a table whose first row is the header into survey rows, one for
/// each data row and in the same order.
pub fn decode_survey_table(table: &Vec<Vec<String>>) -> (r: Result<Vec<SurveyRow>, TableError>)
    ensures
        match r {
            Ok(v) => decode_table(table_view(table@)) == Ok::<Seq<SurveyRowView>, TableError>(
                rows_view(v@),
            ),
            Err(e) => decode_table(table_view(table@)) == Err::<Seq<SurveyRowView>, TableError>(
                e,
            ),
        },
{
    let ghost tv = table_view(table@);
    let mut out: Vec<SurveyRow> = Vec::new();
    if table.len() <= 1 {
        assert(rows_view(out@) =~= Seq::<SurveyRowView>::empty());
        return Ok(out);
    }
    assert(tv[0] == row_view(table@[0]));
    let cols = match resolve_columns(&table[0]) {
        Ok(c) => c,
        Err(e) => return Err(e),
    };
    assert(rows_view(out@) =~= Seq::<SurveyRowView>::empty());
    let mut i: usize = 1;
    while i < table.len()
        invariant
            tv == table_view(table@),
            1 <= i <= table.len(),
            resolve(tv[0]) == Ok::<Columns, TableError>(cols),
            decode_rows(tv, cols, (i - 1) as nat) == Ok::<Seq<SurveyRowView>, TableError>(
                rows_view(out@),
            ),
        decreases table.len() - i,
    {
        assert(tv[i as int] == row_view(table@[i as int]));
        match decode_survey_row(&table[i], &cols, i - 1) {
            Ok(v) => {
                let ghost before = out@;
                out.push(v);
                assert(rows_view(out@) =~= rows_view(before).push(v@));
            },
            Err(e) => {
                proof {
                    lemma_failure_persists(tv, cols, i as nat, (tv.len() - 1) as nat);
                }
                return Err(e);
            },
        }
        i = i + 1;
    }
    Ok(out)
}

/// Reads survey rows from comma-separated text whose first row is the
/// header. Extra columns are ignored; any fault fails the whole read.
pub fn read_survey(input: &[u8]) -> (r: Result<Vec<SurveyRow>, ReadError>)
    ensures
        csv_records_of(input@) is None <==> r matches Err(ReadError::Malformed(_)),
        csv_records_of(input@) matches Some(t) ==> match decode_table(t) {
            Ok(s) => r matches Ok(v) && rows_view(v@) == s,
            Err(e) => r == Err::<Vec<SurveyRow>, ReadError>(ReadError::Table(e)),
        },
{
    match csv_records(input) {
        Err(e) => Err(ReadError::Malformed(e)),
        Ok(table) => match decode_survey_table(&table) {
            Ok(v) => Ok(v),
            Err(e) => Err(ReadError::Table(e)),
        },
    }
}

} // verus!
