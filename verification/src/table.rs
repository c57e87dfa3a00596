//! The table in which the results are shown.
//!
//! Nothing in this module is proved. Each function hands its arguments to one
//! function of `comfy_table`, and its contract is taken from that function's
//! source.

use comfy_table::Table;
use vstd::prelude::*;

verus! {

#[verifier::external_type_specification]
#[verifier::external_body]
pub struct ExTable(Table);

/// The contents of the cells of a table's header, if it has one: what
/// `Cell::content` returns for each cell of `Table::header`.
pub uninterp spec fn table_header(table: Table) -> Option<Seq<Seq<char>>>;

/// The contents of the cells of a table's rows, in the order in which the
/// rows were added.
pub uninterp spec fn table_rows(table: Table) -> Seq<Seq<Seq<char>>>;

/// The texts of a list of strings.
pub open spec fn texts(cells: Seq<String>) -> Seq<Seq<char>> {
    Seq::new(cells.len(), |i: int| cells[i]@)
}

/// The texts of a list of string slices.
pub open spec fn labels(cells: Seq<&'static str>) -> Seq<Seq<char>> {
    Seq::new(cells.len(), |i: int| cells[i]@)
}

/// `Table::set_header`: replaces the header by a row of the given cells. The
/// rows stay as they are.
#[verifier::external_body]
pub(crate) fn table_set_header(table: &mut Table, cells: Vec<&'static str>)
    ensures
        table_header(*final(table)) == Some(labels(cells@)),
        table_rows(*final(table)) == table_rows(*old(table)),
{
    table.set_header(cells);
}

/// `Table::add_row`: adds a row of the given cells after the rows that are
/// there. The header stays as it is.
#[verifier::external_body]
pub(crate) fn table_add_row(table: &mut Table, cells: Vec<String>)
    ensures
        table_rows(*final(table)) == table_rows(*old(table)).push(texts(cells@)),
        table_header(*final(table)) == table_header(*old(table)),
{
    table.add_row(cells);
}

} // verus!
