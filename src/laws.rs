//! Properties of reading and converting survey tables.

use vstd::prelude::*;
use crate::number::is_float_text;
use crate::penzd::{penzd_of, Projection, SurveyPoint};
use crate::survey::{
    column_name, decode_row, decode_rows, decode_table, field_at, names, resolve, Column, Columns,
    SurveyRowView, TableError,
};

verus! {

proof fn lemma_rows_decoded(table: Seq<Seq<Seq<char>>>, cols: Columns, n: nat)
    requires
        decode_rows(table, cols, n) is Ok,
    ensures
        decode_rows(table, cols, n)->Ok_0.len() == n,
        forall|i: int|
            0 <= i < n ==> decode_row(#[trigger] table[i + 1], cols, i) == Ok::<
                SurveyRowView,
                TableError,
            >(decode_rows(table, cols, n)->Ok_0[i]),
    decreases n,
{
    if n > 0 {
        lemma_rows_decoded(table, cols, (n - 1) as nat);
        let s = decode_rows(table, cols, (n - 1) as nat)->Ok_0;
        assert forall|i: int| 0 <= i < n implies decode_row(#[trigger] table[i + 1], cols, i)
            == Ok::<SurveyRowView, TableError>(decode_rows(table, cols, n)->Ok_0[i]) by {
            if i < n - 1 {
                assert(decode_rows(table, cols, n)->Ok_0[i] == s[i]);
            }
        }
    }
}

/// A table of a header row alone gives no points and no error, whatever
/// the header holds.
pub proof fn header_only_gives_no_points(header: Seq<Seq<char>>)
    ensures
        decode_table(seq![header]) == Ok::<Seq<SurveyRowView>, TableError>(Seq::empty()),
{
}

/// Reading keeps the rows in order: a decoded table has one point for each
/// data row, and the point at place `i` is data row `i` decoded.
pub proof fn rows_decode_in_order(table: Seq<Seq<Seq<char>>>)
    requires
        table.len() >= 2,
        decode_table(table) is Ok,
    ensures
        ({
            let s = decode_table(table)->Ok_0;
            let cols = resolve(table[0])->Ok_0;
            &&& s.len() == table.len() - 1
            &&& forall|i: int|
                0 <= i < s.len() ==> decode_row(#[trigger] table[i + 1], cols, i) == Ok::<
                    SurveyRowView,
                    TableError,
                >(s[i])
        }),
{
    lemma_rows_decoded(table, resolve(table[0])->Ok_0, (table.len() - 1) as nat);
}

/// A data row that does not decode fails the whole table.
pub proof fn invalid_row_fails(table: Seq<Seq<Seq<char>>>, m: int)
    requires
        resolve(table[0]) is Ok,
        1 <= m < table.len(),
        decode_row(table[m], resolve(table[0])->Ok_0, m - 1) is Err,
    ensures
        decode_table(table) is Err,
{
    let cols = resolve(table[0])->Ok_0;
    if decode_table(table) is Ok {
        lemma_rows_decoded(table, cols, (table.len() - 1) as nat);
        assert(table[(m - 1) + 1] == table[m]);
    }
}

/// A header row without a `latitude` column fails every table that has a
/// data row.
pub proof fn missing_latitude_fails(table: Seq<Seq<Seq<char>>>)
    requires
        table.len() >= 2,
        !names(table[0], column_name(Column::Latitude)),
    ensures
        decode_table(table) is Err,
{
}

/// A data row whose latitude text is not a number fails the whole table.
pub proof fn non_numeric_latitude_fails(table: Seq<Seq<Seq<char>>>, m: int)
    requires
        resolve(table[0]) is Ok,
        1 <= m < table.len(),
        field_at(table[m], resolve(table[0])->Ok_0.latitude) matches Some(t) && !is_float_text(t),
    ensures
        decode_table(table) is Err,
{
    invalid_row_fails(table, m);
}

/// Every record carries its point's identifier and height unchanged, and
/// an empty description, whatever the grid position.
pub proof fn record_keeps_point_and_level(p: SurveyPoint, g: Projection)
    ensures
        penzd_of(p, g).point == p.point,
        penzd_of(p, g).level == p.ahd,
        penzd_of(p, g).description == Seq::<char>::empty(),
{
}

} // verus!
