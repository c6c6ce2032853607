//! The workbook of `umya_spreadsheet` and the numbers of `serde_json`, as far
//! as the library uses them. Nothing in this file is proved: each contract
//! states what the outside code does, as its source shows it.

use crate::sheet::{sheet_names, CellView, SheetView};
use vstd::prelude::*;

verus! {

#[verifier::external_type_specification]
#[verifier::external_body]
pub struct ExSpreadsheet(umya_spreadsheet::Spreadsheet);

#[verifier::external_type_specification]
#[verifier::external_body]
pub struct ExXlsxError(umya_spreadsheet::XlsxError);

#[verifier::external_type_specification]
#[verifier::external_body]
pub struct ExNumber(serde_json::Number);

/// The sheets that a workbook holds, in their order: of each its name, the
/// cells that were given a value, with that value, and the columns marked for
/// automatic width.
pub uninterp spec fn workbook_sheets(workbook: umya_spreadsheet::Spreadsheet) -> Seq<SheetView>;

/// Whether every sheet of the workbook is held in its read form, none as the
/// raw data that a lazy read of a file leaves until the sheet is asked for.
pub uninterp spec fn sheets_read(workbook: umya_spreadsheet::Spreadsheet) -> bool;

/// What `serde_json::Number::as_f64` gives for the number: the double, by its
/// 64 bits read as an integer, or nothing.
pub uninterp spec fn number_double(number: serde_json::Number) -> Option<int>;

/// `umya_spreadsheet::new_file_empty_worksheet`: a workbook with the default
/// theme and styles and no sheet.
#[verifier::external_body]
pub(crate) fn new_workbook() -> (workbook: umya_spreadsheet::Spreadsheet)
    ensures
        workbook_sheets(workbook) == Seq::<SheetView>::empty(),
        sheets_read(workbook),
{
    umya_spreadsheet::new_file_empty_worksheet()
}

/// `Spreadsheet::get_sheet_count`: the length of the sheet collection.
#[verifier::external_body]
pub(crate) fn sheet_count(workbook: &umya_spreadsheet::Spreadsheet) -> (count: usize)
    ensures
        count == workbook_sheets(*workbook).len(),
{
    workbook.get_sheet_count()
}

/// `Spreadsheet::get_sheet_by_name`: it finds a sheet exactly where one of the
/// sheets has a name equal to `name`, character for character. On a sheet
/// that is still held as raw data it would panic.
#[verifier::external_body]
pub(crate) fn has_sheet_named(workbook: &umya_spreadsheet::Spreadsheet, name: &str) -> (found: bool)
    requires
        sheets_read(*workbook),
    ensures
        found == sheet_names(workbook_sheets(*workbook)).contains(name@),
{
    workbook.get_sheet_by_name(name).is_some()
}

/// `Spreadsheet::new_sheet`: it refuses a name that one of the sheets has and
/// leaves the workbook as it was; any other name it gives to a new sheet
/// without cells, which it puts behind the others.
#[verifier::external_body]
pub(crate) fn add_sheet(
    workbook: &mut umya_spreadsheet::Spreadsheet,
    name: String,
) -> (added: Result<(), &'static str>)
    ensures
        added is Err <==> sheet_names(workbook_sheets(*old(workbook))).contains(name@),
        added is Ok ==> workbook_sheets(*final(workbook)) == workbook_sheets(*old(workbook)).push(
            SheetView::blank(name@),
        ),
        added is Err ==> workbook_sheets(*final(workbook)) == workbook_sheets(*old(workbook)),
        sheets_read(*final(workbook)) == sheets_read(*old(workbook)),
    no_unwind
{
    workbook.new_sheet(name).map(|_| ())
}

/// `Worksheet::get_column_dimension_by_number_mut` and
/// `Column::set_auto_width`, on the sheet that `Spreadsheet::get_sheet_mut`
/// gives for the index `sheet`: the column is marked for automatic width, and
/// nothing else of the sheets changes.
#[verifier::external_body]
pub(crate) fn set_auto_width(
    workbook: &mut umya_spreadsheet::Spreadsheet,
    sheet: usize,
    column: u32,
)
    requires
        sheets_read(*old(workbook)),
        sheet < workbook_sheets(*old(workbook)).len(),
        column >= 1,
    ensures
        workbook_sheets(*final(workbook)) == workbook_sheets(*old(workbook)).update(
            sheet as int,
            workbook_sheets(*old(workbook))[sheet as int].with_auto_width(column as int),
        ),
        sheets_read(*final(workbook)),
    no_unwind
{
    workbook.get_sheet_mut(&sheet).unwrap().get_column_dimension_by_number_mut(
        &column,
    ).set_auto_width(true);
}

/// `Worksheet::get_cell_mut` and `Cell::set_value_string`, on the sheet that
/// `Spreadsheet::get_sheet_mut` gives for the index `sheet`: the cell at
/// (`column`, `row`) holds `text` as text, and nothing else of the sheets
/// changes.
#[verifier::external_body]
pub(crate) fn write_text(
    workbook: &mut umya_spreadsheet::Spreadsheet,
    sheet: usize,
    column: u32,
    row: u32,
    text: &str,
)
    requires
        sheets_read(*old(workbook)),
        sheet < workbook_sheets(*old(workbook)).len(),
        column >= 1,
        row >= 1,
    ensures
        workbook_sheets(*final(workbook)) == workbook_sheets(*old(workbook)).update(
            sheet as int,
            workbook_sheets(*old(workbook))[sheet as int].with_cell(
                column as int,
                row as int,
                CellView::Text(text@),
            ),
        ),
        sheets_read(*final(workbook)),
    no_unwind
{
    workbook.get_sheet_mut(&sheet).unwrap().get_cell_mut((column, row)).set_value_string(text);
}

/// `serde_json::Number::as_f64`: whether it gives a double.
#[verifier::external_body]
pub(crate) fn number_has_double(number: &serde_json::Number) -> (has: bool)
    ensures
        has == (number_double(*number) is Some),
{
    number.as_f64().is_some()
}

/// `Worksheet::get_cell_mut` and `Cell::set_value_number`, on the sheet that
/// `Spreadsheet::get_sheet_mut` gives for the index `sheet`: the cell at
/// (`column`, `row`) holds, as a number, the double that
/// `serde_json::Number::as_f64` gives for `number`, and nothing else of the
/// sheets changes.
#[verifier::external_body]
pub(crate) fn write_number(
    workbook: &mut umya_spreadsheet::Spreadsheet,
    sheet: usize,
    column: u32,
    row: u32,
    number: &serde_json::Number,
)
    requires
        sheets_read(*old(workbook)),
        sheet < workbook_sheets(*old(workbook)).len(),
        column >= 1,
        row >= 1,
        number_double(*number) is Some,
    ensures
        workbook_sheets(*final(workbook)) == workbook_sheets(*old(workbook)).update(
            sheet as int,
            workbook_sheets(*old(workbook))[sheet as int].with_cell(
                column as int,
                row as int,
                CellView::Number(number_double(*number)->0),
            ),
        ),
        sheets_read(*final(workbook)),
    no_unwind
{
    workbook.get_sheet_mut(&sheet).unwrap().get_cell_mut((column, row)).set_value_number(
        number.as_f64().unwrap(),
    );
}

/// `Worksheet::get_cell_mut` and `Cell::set_value_number` with the integer 0,
/// on the sheet that `Spreadsheet::get_sheet_mut` gives for the index `sheet`:
/// the cell at (`column`, `row`) holds, as a number, the double zero, whose
/// bits are all zero, and nothing else of the sheets changes.
#[verifier::external_body]
pub(crate) fn write_zero(
    workbook: &mut umya_spreadsheet::Spreadsheet,
    sheet: usize,
    column: u32,
    row: u32,
)
    requires
        sheets_read(*old(workbook)),
        sheet < workbook_sheets(*old(workbook)).len(),
        column >= 1,
        row >= 1,
    ensures
        workbook_sheets(*final(workbook)) == workbook_sheets(*old(workbook)).update(
            sheet as int,
            workbook_sheets(*old(workbook))[sheet as int].with_cell(
                column as int,
                row as int,
                CellView::Number(0),
            ),
        ),
        sheets_read(*final(workbook)),
    no_unwind
{
    workbook.get_sheet_mut(&sheet).unwrap().get_cell_mut((column, row)).set_value_number(0);
}

/// Whether `bytes` begin as a ZIP archive with a first entry does: with the
/// signature of a local file header, `PK` and the bytes 3 and 4.
pub open spec fn begins_zip_archive(bytes: Seq<u8>) -> bool {
    &&& bytes.len() >= 4
    &&& bytes[0] == 0x50
    &&& bytes[1] == 0x4b
    &&& bytes[2] == 0x03
    &&& bytes[3] == 0x04
}

/// `umya_spreadsheet::writer::xlsx::write_writer` into a fresh buffer: the
/// bytes of the package, or the writer's error. The writer starts every
/// package with the entry of the application properties, which the ZIP writer
/// puts at the front of the buffer behind a local file header, so the bytes of
/// a package begin with that header's signature. No more is claimed of them:
/// the writer counts the strings it has registered in a table that the
/// workbook shares with it, so two runs on one workbook need not agree.
#[verifier::external_body]
pub(crate) fn encode(workbook: &umya_spreadsheet::Spreadsheet) -> (encoded: Result<
    Vec<u8>,
    umya_spreadsheet::XlsxError,
>)
    requires
        workbook_sheets(*workbook).len() > 0,
    ensures
        encoded matches Ok(bytes) ==> begins_zip_archive(bytes@),
{
    let mut buffer = Vec::new();
    umya_spreadsheet::writer::xlsx::write_writer(workbook, &mut buffer).map(|_| buffer)
}

} // verus!
