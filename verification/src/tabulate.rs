//! Text tables, laid out by the `tabular` crate.

use vstd::prelude::*;

use tabular::{Row, Table};

verus! {

#[verifier::external_type_specification]
#[verifier::external_body]
pub struct ExTable(tabular::Table);

#[verifier::external_type_specification]
#[verifier::external_body]
pub struct ExRow(tabular::Row);

/// A line of a table: a heading (`true`, its text the one cell) or a row of cells.
pub type LineView = (bool, Seq<Seq<char>>);

/// The cells that a row holds, as text.
pub uninterp spec fn row_cells(r: Row) -> Seq<Seq<char>>;

/// The lines that a table holds, in order.
pub uninterp spec fn table_lines(t: Table) -> Seq<LineView>;

/// The row spec that a table was made with.
pub uninterp spec fn table_spec(t: Table) -> Seq<char>;

/// The number of columns of the row spec `spec`, as `tabular` reads it, or `None` where it
/// refuses the spec: `{:<}`, `{:^}` and `{:>}` each open a column, `{{` and `}}` stand
/// for a brace, any other `{` or `}` is refused, and every other character stands for
/// itself.
pub open spec fn tabular_columns(spec: Seq<char>) -> Option<nat>
    decreases spec.len(),
{
    if spec.len() == 0 {
        Some(0)
    } else if spec[0] == '{' {
        if spec.len() >= 2 && spec[1] == '{' {
            tabular_columns(spec.skip(2))
        } else if spec.len() >= 4 && spec[1] == ':' && (spec[2] == '<' || spec[2] == '^'
            || spec[2] == '>') && spec[3] == '}' {
            match tabular_columns(spec.skip(4)) {
                Some(n) => Some(n + 1),
                None => None,
            }
        } else {
            None
        }
    } else if spec[0] == '}' {
        if spec.len() >= 2 && spec[1] == '}' {
            tabular_columns(spec.skip(2))
        } else {
            None
        }
    } else {
        tabular_columns(spec.skip(1))
    }
}

/// Two row specs that `tabular` takes, one after the other, have the columns of both.
pub proof fn lemma_columns_concat(a: Seq<char>, b: Seq<char>)
    requires
        tabular_columns(a) is Some,
        tabular_columns(b) is Some,
    ensures
        tabular_columns(a + b) == Some(tabular_columns(a)->0 + tabular_columns(b)->0),
    decreases a.len(),
{
    if a.len() == 0 {
        assert(a + b =~= b);
    } else {
        let s = a + b;
        assert(s[0] == a[0]);
        if a[0] == '{' {
            if a.len() >= 2 && a[1] == '{' {
                assert(s[1] == a[1]);
                assert(s.skip(2) =~= a.skip(2) + b);
                lemma_columns_concat(a.skip(2), b);
            } else {
                assert(s[1] == a[1] && s[2] == a[2] && s[3] == a[3]);
                assert(s.skip(4) =~= a.skip(4) + b);
                lemma_columns_concat(a.skip(4), b);
            }
        } else if a[0] == '}' {
            assert(s[1] == a[1]);
            assert(s.skip(2) =~= a.skip(2) + b);
            lemma_columns_concat(a.skip(2), b);
        } else {
            assert(s.skip(1) =~= a.skip(1) + b);
            lemma_columns_concat(a.skip(1), b);
        }
    }
}

/// The text that `tabular` lays out for a table with the row spec `spec` and the lines
/// `lines`: each line ended by a newline, cells padded to their column's width.
pub uninterp spec fn tabular_text(spec: Seq<char>, lines: Seq<LineView>) -> Seq<char>;

/// `Row::new`: a row without cells.
#[verifier::external_body]
pub(crate) fn row_new() -> (r: Row)
    ensures
        row_cells(r) == Seq::<Seq<char>>::empty(),
{
    Row::new()
}

/// `Row::add_cell`: the text `cell` added as the row's last cell.
#[verifier::external_body]
pub(crate) fn row_add_cell(row: &mut Row, cell: &str)
    ensures
        row_cells(*final(row)) == row_cells(*old(row)).push(cell@),
{
    row.add_cell(cell);
}

/// `Table::new_safe`: a table without lines, or `None` where `tabular` refuses the spec.
#[verifier::external_body]
pub(crate) fn table_new(spec: &str) -> (r: Option<Table>)
    ensures
        r is Some <==> tabular_columns(spec@) is Some,
        r matches Some(t) ==> table_spec(t) == spec@ && table_lines(t) == Seq::<LineView>::empty(),
{
    Table::new_safe(spec).ok()
}

/// `Table::column_count`: the number of columns that the table's spec sets up.
#[verifier::external_body]
pub(crate) fn table_column_count(t: &Table) -> (r: usize)
    ensures
        tabular_columns(table_spec(*t)) matches Some(n) ==> r == n,
{
    t.column_count()
}

/// `Table::add_heading`: `heading` added as the table's last line.
#[verifier::external_body]
pub(crate) fn table_add_heading(t: &mut Table, heading: &str)
    ensures
        table_spec(*final(t)) == table_spec(*old(t)),
        table_lines(*final(t)) == table_lines(*old(t)).push((true, seq![heading@])),
{
    t.add_heading(heading);
}

/// `Table::add_row`: `row` added as the table's last line. `tabular` panics where the
/// row's number of cells differs from the table's number of columns, which the
/// `requires` rules out.
#[verifier::external_body]
pub(crate) fn table_add_row(t: &mut Table, row: Row)
    requires
        tabular_columns(table_spec(*old(t))) == Some(row_cells(row).len()),
    ensures
        table_spec(*final(t)) == table_spec(*old(t)),
        table_lines(*final(t)) == table_lines(*old(t)).push((false, row_cells(row))),
{
    t.add_row(row);
}

/// `Table`'s `Display` text.
#[verifier::external_body]
pub(crate) fn table_text(t: &Table) -> (r: String)
    ensures
        r@ == tabular_text(table_spec(*t), table_lines(*t)),
{
    t.to_string()
}

} // verus!
