//! The mathematical model of a workbook: sheets, their cells, and the grid
//! that a list of headers and a list of rows describe.

use crate::model::{found_view, row_value, FieldValue, FieldValueView, HeaderView, RowView};
use crate::workbook::{number_double, number_has_double};
use vstd::prelude::*;

verus! {

/// What a cell holds.
pub enum CellView {
    /// A text cell.
    Text(Seq<char>),
    /// A numeric cell that holds the double with the given bits.
    Number(int),
}

/// One sheet: its name, its cells by (column, row), both counted from 1, and
/// the columns that size themselves.
pub struct SheetView {
    pub name: Seq<char>,
    pub cells: Map<(int, int), CellView>,
    pub auto_width: Set<int>,
}

impl SheetView {
    /// A sheet without cells.
    pub open spec fn blank(name: Seq<char>) -> SheetView {
        SheetView { name, cells: Map::empty(), auto_width: Set::empty() }
    }

    /// This sheet with `cell` at (`column`, `row`).
    pub open spec fn with_cell(self, column: int, row: int, cell: CellView) -> SheetView {
        SheetView { cells: self.cells.insert((column, row), cell), ..self }
    }

    /// This sheet with `column` sizing itself.
    pub open spec fn with_auto_width(self, column: int) -> SheetView {
        SheetView { auto_width: self.auto_width.insert(column), ..self }
    }
}

/// The names of `sheets`, in their order.
pub open spec fn sheet_names(sheets: Seq<SheetView>) -> Seq<Seq<char>> {
    Seq::new(sheets.len(), |i: int| sheets[i].name)
}

/// No two of `sheets` share a name.
pub open spec fn names_distinct(sheets: Seq<SheetView>) -> bool {
    forall|i: int, j: int|
        0 <= i < j < sheets.len() ==> (#[trigger] sheets[i]).name != (#[trigger] sheets[j]).name
}

/// The numeric cell that a number becomes: it holds the number's double, or
/// zero where the number has none.
pub open spec fn number_cell(number: serde_json::Number) -> CellView {
    match number_double(number) {
        Some(bits) => CellView::Number(bits),
        None => CellView::Number(0),
    }
}

/// The cell that a row's value becomes: text stays text, a number becomes a
/// numeric cell, and anything else, a missing value too, becomes empty text.
pub open spec fn cell_for(value: Option<FieldValueView>) -> CellView {
    match value {
        Some(FieldValueView::Text(text)) => CellView::Text(text),
        Some(FieldValueView::Number(number)) => number_cell(number),
        _ => CellView::Text(Seq::empty()),
    }
}

/// What is to be written into one cell.
#[derive(Debug)]
pub enum CellContent<'a> {
    /// Text.
    Text(&'a str),
    /// A number, to be written as its double.
    Number(&'a serde_json::Number),
    /// The number zero.
    Zero,
}

impl<'a> View for CellContent<'a> {
    type V = CellView;

    open spec fn view(&self) -> CellView {
        match *self {
            CellContent::Text(text) => CellView::Text(text@),
            CellContent::Number(number) => number_cell(*number),
            CellContent::Zero => CellView::Number(0),
        }
    }
}

/// Settles what a cell gets for a number, given whether the number has a
/// finite double: the number itself, or zero.
pub fn number_content<'a>(number: &'a serde_json::Number, has_double: bool) -> (content:
    CellContent<'a>)
    ensures
        content == if has_double {
            CellContent::Number(number)
        } else {
            CellContent::Zero
        },
{
    if has_double {
        CellContent::Number(number)
    } else {
        CellContent::Zero
    }
}

/// Settles what a cell gets for the value that its row holds, or for none:
/// text as it is, a number as its double, or as zero where it has none, and
/// for anything else the empty text.
pub fn cell_content<'a>(value: Option<&'a FieldValue>) -> (content: CellContent<'a>)
    ensures
        content@ == cell_for(found_view(value)),
        content matches CellContent::Number(number) ==> number_double(*number) is Some,
{
    match value {
        Some(FieldValue::Text(text)) => CellContent::Text(text.as_str()),
        Some(FieldValue::Number(number)) => number_content(
            number,
            number_has_double(number),
        ),
        _ => {
            proof {
                reveal_strlit("");
            }
            assert(""@ =~= Seq::<char>::empty());
            CellContent::Text("")
        },
    }
}

/// The cell at (`column`, `row`) of the grid of `headers` and `rows`: row 1
/// holds the labels, row `r + 2` the values of `rows[r]`, column `c + 1` what
/// belongs to `headers[c]`.
pub open spec fn grid_cell(
    headers: Seq<HeaderView>,
    rows: Seq<RowView>,
    column: int,
    row: int,
) -> CellView {
    if row == 1 {
        CellView::Text(headers[column - 1].label)
    } else {
        cell_for(row_value(rows[row - 2], headers[column - 1].key))
    }
}

/// The cells of the first `full_rows` sheet rows of the grid, and the first
/// `extra` cells of the sheet row after them.
pub open spec fn grid_prefix(
    headers: Seq<HeaderView>,
    rows: Seq<RowView>,
    full_rows: int,
    extra: int,
) -> Map<(int, int), CellView> {
    Map::new(
        |at: (int, int)|
            1 <= at.0 && ((1 <= at.1 <= full_rows && at.0 <= headers.len()) || (at.1 == full_rows
                + 1 && at.0 <= extra)),
        |at: (int, int)| grid_cell(headers, rows, at.0, at.1),
    )
}

/// All cells of the grid: one column per header, the label row and one row per
/// data row.
pub open spec fn grid_cells(headers: Seq<HeaderView>, rows: Seq<RowView>) -> Map<
    (int, int),
    CellView,
> {
    Map::new(
        |at: (int, int)| 1 <= at.0 <= headers.len() && 1 <= at.1 <= rows.len() + 1,
        |at: (int, int)| grid_cell(headers, rows, at.0, at.1),
    )
}

/// The columns, among the first `count`, whose header asks for automatic width.
pub open spec fn auto_width_prefix(headers: Seq<HeaderView>, count: int) -> Set<int> {
    Set::new(|column: int| 1 <= column <= count && headers[column - 1].auto_width)
}

/// The columns whose header asks for automatic width.
pub open spec fn auto_width_columns(headers: Seq<HeaderView>) -> Set<int> {
    auto_width_prefix(headers, headers.len() as int)
}

/// The sheet that one append makes of a name, headers and rows.
pub open spec fn sheet_for(
    name: Seq<char>,
    headers: Seq<HeaderView>,
    rows: Seq<RowView>,
) -> SheetView {
    SheetView {
        name,
        cells: grid_cells(headers, rows),
        auto_width: auto_width_columns(headers),
    }
}

} // verus!
