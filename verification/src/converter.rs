//! The converter: a workbook that grows by one sheet with each append and
//! can be had as the bytes of an XLSX package.

use crate::model::{AppendOptions, AppendOptionsView, GenerateOptions};
use crate::naming::{default_sheet_name, requested_name, resolve_name, resolved_name};
use crate::sheet::{
    auto_width_columns, auto_width_prefix, cell_content, grid_cell, grid_cells, grid_prefix,
    names_distinct, sheet_for, sheet_names, CellContent, CellView, SheetView,
};
use crate::text::{file_name_with_extension, with_xlsx_extension};
use crate::workbook::{
    add_sheet, begins_zip_archive, encode, new_workbook, number_double, set_auto_width,
    sheet_count, sheets_read, workbook_sheets, write_number, write_text, write_zero,
};
use vstd::prelude::*;
use vstd::string::*;

verus! {

/// Why an append added no sheet.
#[derive(Clone, Copy, Debug, PartialEq, Eq, Structural)]
pub enum AppendError {
    /// Under the strict policy, a sheet of the workbook has the name already.
    DuplicateSheetName,
}

/// Why the workbook could not be had as bytes.
#[derive(Clone, Copy, Debug, PartialEq, Eq, Structural)]
pub enum DataError {
    /// The encoder failed.
    Encoder,
}

/// The media type of an XLSX package.
pub const XLSX_MEDIA_TYPE: &'static str =
    "application/vnd.openxmlformats-officedocument.spreadsheetml.sheet";

/// A file for the user to save: its bytes, its name and its media type.
#[derive(Debug)]
pub struct Download {
    pub file_name: String,
    pub media_type: String,
    pub bytes: Vec<u8>,
}

/// A converter as plain values: its policy on taken sheet names and its
/// sheets, in the order of the appends.
pub struct ConverterView {
    pub fail_on_duplicate: bool,
    pub sheets: Seq<SheetView>,
}

/// What an append makes of a converter: the converter with one more sheet, or
/// nothing where the policy refuses the name.
pub open spec fn append_outcome(before: ConverterView, options: AppendOptionsView) -> Option<
    ConverterView,
> {
    match resolved_name(
        sheet_names(before.sheets),
        requested_name(before.sheets.len(), options.sheet_name),
        before.fail_on_duplicate,
    ) {
        Some(name) => Some(
            ConverterView {
                sheets: before.sheets.push(sheet_for(name, options.headers, options.data)),
                ..before
            },
        ),
        None => None,
    }
}

/// Collects rows into the sheets of one workbook.
pub struct Converter {
    options: GenerateOptions,
    workbook: umya_spreadsheet::Spreadsheet,
}

impl View for Converter {
    type V = ConverterView;

    closed spec fn view(&self) -> ConverterView {
        ConverterView {
            fail_on_duplicate: self.options.fail_on_duplicate,
            sheets: workbook_sheets(self.workbook),
        }
    }
}

/// The buffer that `data` gives for what the encoder returned.
pub fn buffer_of(encoded: Result<Vec<u8>, umya_spreadsheet::XlsxError>) -> (buffer: Result<
    Vec<u8>,
    DataError,
>)
    ensures
        match encoded {
            Ok(bytes) => buffer == Ok::<Vec<u8>, DataError>(bytes),
            Err(_) => buffer == Err::<Vec<u8>, DataError>(DataError::Encoder),
        },
{
    match encoded {
        Ok(bytes) => Ok(bytes),
        Err(_) => Err(DataError::Encoder),
    }
}

/// The download of `bytes` under `name`, completed by the workbook extension
/// where it lacks it.
pub fn download_of(name: String, bytes: Vec<u8>) -> (download: Download)
    ensures
        download.file_name@ == with_xlsx_extension(name@),
        download.media_type@ == XLSX_MEDIA_TYPE@,
        download.bytes == bytes,
{
    Download {
        file_name: file_name_with_extension(name),
        media_type: String::from_str(XLSX_MEDIA_TYPE),
        bytes,
    }
}

impl Converter {
    /// Sheet names are unique within the workbook, and each sheet is held in
    /// its read form.
    #[verifier::type_invariant]
    spec fn well_formed(self) -> bool {
        &&& names_distinct(workbook_sheets(self.workbook))
        &&& sheets_read(self.workbook)
    }

    /// A converter without sheets. Without options the policy is strict.
    pub fn new(options: Option<GenerateOptions>) -> (converter: Converter)
        ensures
            converter@.sheets == Seq::<SheetView>::empty(),
            converter@.fail_on_duplicate == match options {
                Some(given) => given.fail_on_duplicate,
                None => true,
            },
            names_distinct(converter@.sheets),
    {
        let options = match options {
            Some(given) => given,
            None => GenerateOptions::default(),
        };
        Converter { options, workbook: new_workbook() }
    }

    /// Writes `content` into the cell at (`column`, `row`) of the sheet at
    /// index `sheet`.
    fn write_cell(&mut self, sheet: usize, column: u32, row: u32, content: CellContent)
        requires
            sheet < old(self)@.sheets.len(),
            column >= 1,
            row >= 1,
            content matches CellContent::Number(number) ==> number_double(*number) is Some,
        ensures
            final(self)@.fail_on_duplicate == old(self)@.fail_on_duplicate,
            final(self)@.sheets == old(self)@.sheets.update(
                sheet as int,
                old(self)@.sheets[sheet as int].with_cell(column as int, row as int, content@),
            ),
    {
        proof {
            use_type_invariant(&*self);
            lemma_update_keeps_names_distinct(
                self@.sheets,
                sheet as int,
                self@.sheets[sheet as int].with_cell(column as int, row as int, content@),
            );
        }
        match content {
            CellContent::Text(text) => {
                write_text(&mut self.workbook, sheet, column, row, text);
            },
            CellContent::Number(number) => {
                write_number(&mut self.workbook, sheet, column, row, number);
            },
            CellContent::Zero => {
                write_zero(&mut self.workbook, sheet, column, row);
            },
        }
    }

    /// Adds one sheet, named as the policy settles, with the labels of
    /// `options.headers` in row 1 and the values of `options.data[r]` in row
    /// `r + 2`, each under its header. Where the strict policy refuses the
    /// name, nothing changes. Columns and rows are numbered in 32 bits, which
    /// bounds the headers and the rows of one sheet.
    pub fn append(&mut self, options: AppendOptions) -> (outcome: Result<(), AppendError>)
        requires
            options.headers.len() <= u32::MAX,
            options.data.len() < u32::MAX,
        ensures
            match append_outcome(old(self)@, options@) {
                Some(after) => outcome is Ok && final(self)@ == after,
                None => outcome == Err::<(), AppendError>(AppendError::DuplicateSheetName)
                    && final(self)@ == old(self)@,
            },
            names_distinct(final(self)@.sheets),
    {
        proof {
            use_type_invariant(&*self);
        }
        let ghost before = self@.sheets;
        let ghost headers = options@.headers;
        let ghost rows = options@.data;
        let count = sheet_count(&self.workbook);
        let requested = match &options.sheet_name {
            Some(name) => name.clone(),
            None => default_sheet_name(count),
        };
        let name = match resolve_name(&self.workbook, requested, self.options.fail_on_duplicate) {
            Some(name) => name,
            None => {
                return Err(AppendError::DuplicateSheetName);
            },
        };
        let ghost title = name@;
        proof {
            lemma_push_keeps_names_distinct(before, SheetView::blank(title));
        }
        match add_sheet(&mut self.workbook, name) {
            Ok(()) => {},
            Err(_) => {
                // The workbook refuses taken names only, and this one is free.
                assert(false);
                return Err(AppendError::DuplicateSheetName);
            },
        }
        assert(grid_prefix(headers, rows, 0, 0) =~= Map::<(int, int), CellView>::empty());
        assert(auto_width_prefix(headers, 0) =~= Set::<int>::empty());

        let width = options.headers.len();
        let mut c: usize = 0;
        while c < width
            invariant
                c <= width == options.headers.len() <= u32::MAX,
                headers == options@.headers,
                count == before.len(),
                self@.fail_on_duplicate == old(self)@.fail_on_duplicate,
                self@.sheets == before.push(
                    SheetView {
                        name: title,
                        cells: grid_prefix(headers, rows, 0, c as int),
                        auto_width: auto_width_prefix(headers, c as int),
                    },
                ),
            decreases width - c,
        {
            let header = &options.headers[c];
            let column = (c + 1) as u32;
            if header.wants_auto_width() {
                proof {
                    use_type_invariant(&*self);
                    lemma_update_keeps_names_distinct(
                        self@.sheets,
                        count as int,
                        self@.sheets[count as int].with_auto_width(column as int),
                    );
                }
                set_auto_width(&mut self.workbook, count, column);
            }
            proof {
                use_type_invariant(&*self);
                lemma_update_keeps_names_distinct(
                    self@.sheets,
                    count as int,
                    self@.sheets[count as int].with_cell(
                        column as int,
                        1,
                        CellView::Text(header.label@),
                    ),
                );
            }
            write_text(&mut self.workbook, count, column, 1, header.label.as_str());
            proof {
                assert(headers[c as int] == header@);
                assert(auto_width_prefix(headers, c + 1) =~= if header@.auto_width {
                    auto_width_prefix(headers, c as int).insert(c + 1)
                } else {
                    auto_width_prefix(headers, c as int)
                });
                assert(grid_prefix(headers, rows, 0, c + 1) =~= grid_prefix(
                    headers,
                    rows,
                    0,
                    c as int,
                ).insert((c + 1, 1), CellView::Text(header@.label)));
                assert(self@.sheets =~= before.push(
                    SheetView {
                        name: title,
                        cells: grid_prefix(headers, rows, 0, c + 1),
                        auto_width: auto_width_prefix(headers, c + 1),
                    },
                ));
            }
            c += 1;
        }
        assert(grid_prefix(headers, rows, 0, width as int) =~= grid_prefix(headers, rows, 1, 0));

        let height = options.data.len();
        let mut r: usize = 0;
        while r < height
            invariant
                r <= height == options.data.len() < u32::MAX,
                width == options.headers.len() <= u32::MAX,
                headers == options@.headers,
                rows == options@.data,
                count == before.len(),
                self@.fail_on_duplicate == old(self)@.fail_on_duplicate,
                self@.sheets == before.push(
                    SheetView {
                        name: title,
                        cells: grid_prefix(headers, rows, r + 1, 0),
                        auto_width: auto_width_columns(headers),
                    },
                ),
            decreases height - r,
        {
            let row = &options.data[r];
            let line = (r + 2) as u32;
            let mut c: usize = 0;
            while c < width
                invariant
                    c <= width == options.headers.len() <= u32::MAX,
                    r < height == options.data.len() < u32::MAX,
                    line == r + 2,
                    headers == options@.headers,
                    rows == options@.data,
                    rows[r as int] == row@,
                    count == before.len(),
                    self@.fail_on_duplicate == old(self)@.fail_on_duplicate,
                    self@.sheets == before.push(
                        SheetView {
                            name: title,
                            cells: grid_prefix(headers, rows, r + 1, c as int),
                            auto_width: auto_width_columns(headers),
                        },
                    ),
                decreases width - c,
            {
                let header = &options.headers[c];
                let column = (c + 1) as u32;
                let content = cell_content(row.get(&header.key));
                self.write_cell(count, column, line, content);
                proof {
                    assert(headers[c as int] == header@);
                    assert(content@ == grid_cell(headers, rows, c + 1, r + 2));
                    assert(grid_prefix(headers, rows, r + 1, c + 1) =~= grid_prefix(
                        headers,
                        rows,
                        r + 1,
                        c as int,
                    ).insert((c + 1, r + 2), content@));
                    assert(self@.sheets =~= before.push(
                        SheetView {
                            name: title,
                            cells: grid_prefix(headers, rows, r + 1, c + 1),
                            auto_width: auto_width_columns(headers),
                        },
                    ));
                }
                c += 1;
            }
            assert(grid_prefix(headers, rows, r + 1, width as int) =~= grid_prefix(
                headers,
                rows,
                r + 2,
                0,
            ));
            r += 1;
        }
        proof {
            assert(grid_prefix(headers, rows, height + 1, 0) =~= grid_cells(headers, rows));
            use_type_invariant(&*self);
        }
        Ok(())
    }

    /// The workbook as the bytes of an XLSX package: none where it has no
    /// sheet, else what the encoder makes of it, a ZIP archive, or its failure.
    pub fn data(&self) -> (buffer: Result<Vec<u8>, DataError>)
        ensures
            self@.sheets.len() == 0 ==> (buffer matches Ok(bytes) && bytes@ == Seq::<u8>::empty()),
            self@.sheets.len() > 0 ==> (buffer matches Ok(bytes) ==> begins_zip_archive(bytes@)),
            buffer matches Err(error) ==> error == DataError::Encoder && self@.sheets.len() > 0,
    {
        if sheet_count(&self.workbook) == 0 {
            return Ok(Vec::new());
        }
        buffer_of(encode(&self.workbook))
    }

    /// The workbook as a download: the bytes that `data` gives, under `name`
    /// completed by the workbook extension, or the failure of `data`.
    pub fn save(&self, name: String) -> (download: Result<Download, DataError>)
        ensures
            self@.sheets.len() == 0 ==> (download matches Ok(file) && file.bytes@ == Seq::<
                u8,
            >::empty()),
            self@.sheets.len() > 0 ==> (download matches Ok(file) ==> begins_zip_archive(
                file.bytes@,
            )),
            download matches Ok(file) ==> (file.file_name@ == with_xlsx_extension(name@)
                && file.media_type@ == XLSX_MEDIA_TYPE@),
            download matches Err(error) ==> error == DataError::Encoder && self@.sheets.len() > 0,
    {
        match self.data() {
            Ok(bytes) => Ok(download_of(name, bytes)),
            Err(error) => Err(error),
        }
    }
}

/// A sheet in the place of one that had its name keeps the names distinct.
pub proof fn lemma_update_keeps_names_distinct(sheets: Seq<SheetView>, i: int, sheet: SheetView)
    requires
        names_distinct(sheets),
        0 <= i < sheets.len(),
        sheet.name == sheets[i].name,
    ensures
        names_distinct(sheets.update(i, sheet)),
{
    let after = sheets.update(i, sheet);
    assert forall|a: int, b: int| 0 <= a < b < after.len() implies (#[trigger] after[a]).name != (
    #[trigger] after[b]).name by {
        assert(after[a].name == sheets[a].name);
        assert(after[b].name == sheets[b].name);
    }
}

/// A sheet whose name none of `sheets` has keeps the names distinct.
pub proof fn lemma_push_keeps_names_distinct(sheets: Seq<SheetView>, sheet: SheetView)
    requires
        names_distinct(sheets),
        !sheet_names(sheets).contains(sheet.name),
    ensures
        names_distinct(sheets.push(sheet)),
{
    let after = sheets.push(sheet);
    assert forall|i: int, j: int| 0 <= i < j < after.len() implies (#[trigger] after[i]).name != (
    #[trigger] after[j]).name by {
        if j == sheets.len() {
            assert(sheet_names(sheets)[i] == sheets[i].name);
        }
    }
}

} // verus!
