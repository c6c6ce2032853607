use umya_spreadsheet::XlsxError;
use xlsx_converter::converter::{buffer_of, download_of};
use xlsx_converter::{
    AppendOptions, Converter, DataError, Download, Header, XLSX_MEDIA_TYPE,
};

fn saved_name(converter: &Converter, name: &str) -> String {
    converter.save(name.to_string()).unwrap().file_name
}

#[test]
fn save_completes_the_file_name() {
    let converter = Converter::new(None);
    assert_eq!(saved_name(&converter, "export"), "export.xlsx");
    assert_eq!(saved_name(&converter, "export.xlsx"), "export.xlsx");
}

#[test]
fn save_of_an_empty_workbook_has_no_bytes() {
    let converter = Converter::new(None);
    let download = converter.save("empty".to_string()).unwrap();
    assert_eq!(download.file_name, "empty.xlsx");
    assert_eq!(download.media_type, XLSX_MEDIA_TYPE);
    assert!(download.bytes.is_empty());
}

#[test]
fn save_hands_out_the_package() {
    let mut converter = Converter::new(None);
    let headers =
        vec![Header { key: "a".to_string(), label: "A".to_string(), auto_width: None }];
    let appended =
        converter.append(AppendOptions { sheet_name: None, data: vec![], headers });
    assert_eq!(appended, Ok(()));
    let download: Download = converter.save("book.xlsx".to_string()).unwrap();
    assert_eq!(download.file_name, "book.xlsx");
    assert_eq!(
        download.media_type,
        "application/vnd.openxmlformats-officedocument.spreadsheetml.sheet"
    );
    assert_eq!(&download.bytes[0..2], &b"PK"[..]);
    let book =
        umya_spreadsheet::reader::xlsx::read_reader(std::io::Cursor::new(download.bytes), true)
            .unwrap();
    assert_eq!(book.get_sheet(&0).unwrap().get_value((1, 1)), "A");
}

#[test]
fn media_type_is_that_of_a_workbook() {
    assert_eq!(
        XLSX_MEDIA_TYPE,
        "application/vnd.openxmlformats-officedocument.spreadsheetml.sheet"
    );
}

#[test]
fn buffer_of_keeps_the_bytes() {
    assert_eq!(buffer_of(Ok(vec![1, 2, 3])), Ok(vec![1, 2, 3]));
    assert_eq!(buffer_of(Ok(vec![])), Ok(vec![]));
}

#[test]
fn buffer_of_reports_the_encoder() {
    let failed = Err(XlsxError::CellError("broken".to_string()));
    assert_eq!(buffer_of(failed), Err(DataError::Encoder));
}

#[test]
fn download_of_names_and_types_the_bytes() {
    let download = download_of("report".to_string(), vec![9, 8]);
    assert_eq!(download.file_name, "report.xlsx");
    assert_eq!(download.media_type, XLSX_MEDIA_TYPE);
    assert_eq!(download.bytes, vec![9, 8]);
}
