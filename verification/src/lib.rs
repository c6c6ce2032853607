//! Tabular rows to XLSX workbooks, with the mapping from rows and headers to
//! sheet cells and the sheet naming policy verified.

pub mod converter;
pub mod laws;
pub mod model;
pub mod naming;
pub mod sheet;
pub mod text;
pub mod workbook;

pub use converter::{AppendError, Converter, DataError, Download, XLSX_MEDIA_TYPE};
pub use model::{
    default_fail_on_duplicate, AppendOptions, Field, FieldValue, GenerateOptions, Header, Row,
};
pub use sheet::{cell_content, number_content, CellContent};
pub use text::{decimal_string, file_name_with_extension};
