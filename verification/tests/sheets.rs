use std::io::Cursor;

use serde_json::Number;
use umya_spreadsheet::Spreadsheet;
use xlsx_converter::{
    AppendError, AppendOptions, Converter, FieldValue, GenerateOptions, Header, Row,
};

fn header(key: &str, label: &str, auto_width: Option<bool>) -> Header {
    Header { key: key.to_string(), label: label.to_string(), auto_width }
}

fn row(fields: Vec<(&str, FieldValue)>) -> Row {
    let mut row = Row::new();
    for (key, value) in fields {
        row.insert(key.to_string(), value);
    }
    row
}

fn text(value: &str) -> FieldValue {
    FieldValue::Text(value.to_string())
}

fn options(sheet_name: Option<&str>, headers: Vec<Header>, data: Vec<Row>) -> AppendOptions {
    AppendOptions { sheet_name: sheet_name.map(|name| name.to_string()), data, headers }
}

fn relaxed() -> Converter {
    Converter::new(Some(GenerateOptions { fail_on_duplicate: false }))
}

fn read_back(converter: &Converter) -> Spreadsheet {
    let bytes = converter.data().unwrap();
    umya_spreadsheet::reader::xlsx::read_reader(Cursor::new(bytes), true).unwrap()
}

fn names_of(book: &Spreadsheet) -> Vec<String> {
    (0..book.get_sheet_count())
        .map(|index| book.get_sheet(&index).unwrap().get_name().to_string())
        .collect()
}

#[test]
fn empty_workbook_has_no_bytes() {
    let converter = Converter::new(None);
    assert_eq!(converter.data(), Ok(Vec::new()));
    let relaxed = relaxed();
    assert_eq!(relaxed.data(), Ok(Vec::new()));
}

#[test]
fn appended_workbook_is_a_zip_package() {
    let mut converter = Converter::new(None);
    assert_eq!(converter.append(options(None, vec![], vec![])), Ok(()));
    let bytes = converter.data().unwrap();
    assert!(bytes.len() > 4);
    assert_eq!(&bytes[0..4], &[0x50, 0x4b, 0x03, 0x04][..]);
}

#[test]
fn default_names_count_from_one() {
    let mut converter = Converter::new(None);
    for _ in 0..3 {
        assert_eq!(converter.append(options(None, vec![], vec![])), Ok(()));
    }
    assert_eq!(names_of(&read_back(&converter)), vec!["Sheet1", "Sheet2", "Sheet3"]);
}

#[test]
fn default_names_carry_into_two_digits() {
    let mut converter = relaxed();
    for _ in 0..11 {
        assert_eq!(converter.append(options(None, vec![], vec![])), Ok(()));
    }
    let names = names_of(&read_back(&converter));
    assert_eq!(names.len(), 11);
    assert_eq!(names[8], "Sheet9");
    assert_eq!(names[9], "Sheet10");
    assert_eq!(names[10], "Sheet11");
}

#[test]
fn default_name_follows_the_sheet_count() {
    let mut converter = Converter::new(None);
    assert_eq!(converter.append(options(Some("First"), vec![], vec![])), Ok(()));
    assert_eq!(converter.append(options(None, vec![], vec![])), Ok(()));
    assert_eq!(names_of(&read_back(&converter)), vec!["First", "Sheet2"]);
}

#[test]
fn strict_policy_refuses_a_taken_name() {
    let mut converter = Converter::new(None);
    let headers = vec![header("a", "A", None)];
    let first = options(Some("Report"), headers.clone(), vec![row(vec![("a", text("one"))])]);
    let second = options(Some("Report"), headers, vec![row(vec![("a", text("two"))])]);
    assert_eq!(converter.append(first), Ok(()));
    assert_eq!(converter.append(second), Err(AppendError::DuplicateSheetName));
    let book = read_back(&converter);
    assert_eq!(names_of(&book), vec!["Report"]);
    assert_eq!(book.get_sheet(&0).unwrap().get_value((1, 2)), "one");
}

#[test]
fn strict_policy_is_the_default() {
    let mut converter = Converter::new(Some(GenerateOptions::default()));
    assert_eq!(converter.append(options(Some("X"), vec![], vec![])), Ok(()));
    assert_eq!(
        converter.append(options(Some("X"), vec![], vec![])),
        Err(AppendError::DuplicateSheetName)
    );
}

#[test]
fn strict_policy_refuses_a_taken_default_name() {
    let mut converter = Converter::new(None);
    assert_eq!(converter.append(options(Some("Sheet2"), vec![], vec![])), Ok(()));
    assert_eq!(
        converter.append(options(None, vec![], vec![])),
        Err(AppendError::DuplicateSheetName)
    );
    assert_eq!(names_of(&read_back(&converter)), vec!["Sheet2"]);
}

#[test]
fn strict_policy_compares_names_literally() {
    let mut converter = Converter::new(None);
    assert_eq!(converter.append(options(Some("Report (1)"), vec![], vec![])), Ok(()));
    assert_eq!(converter.append(options(Some("Report"), vec![], vec![])), Ok(()));
    assert_eq!(converter.append(options(Some("report"), vec![], vec![])), Ok(()));
    assert_eq!(
        converter.append(options(Some("Report (1)"), vec![], vec![])),
        Err(AppendError::DuplicateSheetName)
    );
    assert_eq!(names_of(&read_back(&converter)), vec!["Report (1)", "Report", "report"]);
}

#[test]
fn a_refused_append_can_be_followed_by_another() {
    let mut converter = Converter::new(None);
    assert_eq!(converter.append(options(Some("A"), vec![], vec![])), Ok(()));
    assert_eq!(
        converter.append(options(Some("A"), vec![], vec![])),
        Err(AppendError::DuplicateSheetName)
    );
    assert_eq!(converter.append(options(None, vec![], vec![])), Ok(()));
    assert_eq!(names_of(&read_back(&converter)), vec!["A", "Sheet2"]);
}

#[test]
fn relaxed_policy_extends_a_taken_name() {
    let mut converter = relaxed();
    assert_eq!(converter.append(options(Some("Report"), vec![], vec![])), Ok(()));
    assert_eq!(converter.append(options(Some("Report"), vec![], vec![])), Ok(()));
    assert_eq!(names_of(&read_back(&converter)), vec!["Report", "Report (1)"]);
}

#[test]
fn relaxed_policy_counts_the_suffix_up() {
    let mut converter = relaxed();
    for _ in 0..3 {
        assert_eq!(converter.append(options(Some("Report"), vec![], vec![])), Ok(()));
    }
    assert_eq!(names_of(&read_back(&converter)), vec!["Report", "Report (1)", "Report (2)"]);
}

#[test]
fn relaxed_policy_counts_the_suffix_into_two_digits() {
    let mut converter = relaxed();
    for _ in 0..12 {
        assert_eq!(converter.append(options(Some("Report"), vec![], vec![])), Ok(()));
    }
    let names = names_of(&read_back(&converter));
    assert_eq!(names.len(), 12);
    assert_eq!(names[9], "Report (9)");
    assert_eq!(names[10], "Report (10)");
    assert_eq!(names[11], "Report (11)");
}

#[test]
fn relaxed_policy_passes_over_taken_suffixes() {
    let mut converter = relaxed();
    for name in ["A", "A (2)", "A (1)", "A (4)"] {
        assert_eq!(converter.append(options(Some(name), vec![], vec![])), Ok(()));
    }
    assert_eq!(converter.append(options(Some("A"), vec![], vec![])), Ok(()));
    assert_eq!(converter.append(options(Some("A"), vec![], vec![])), Ok(()));
    assert_eq!(converter.append(options(Some("A (1)"), vec![], vec![])), Ok(()));
    assert_eq!(
        names_of(&read_back(&converter)),
        vec!["A", "A (2)", "A (1)", "A (4)", "A (3)", "A (5)", "A (1) (1)"]
    );
}

#[test]
fn relaxed_policy_keeps_a_free_name() {
    let mut converter = relaxed();
    assert_eq!(converter.append(options(Some("A"), vec![], vec![])), Ok(()));
    assert_eq!(converter.append(options(Some("B"), vec![], vec![])), Ok(()));
    assert_eq!(names_of(&read_back(&converter)), vec!["A", "B"]);
}

#[test]
fn relaxed_policy_extends_a_taken_default_name() {
    let mut converter = relaxed();
    assert_eq!(converter.append(options(Some("Sheet2"), vec![], vec![])), Ok(()));
    assert_eq!(converter.append(options(None, vec![], vec![])), Ok(()));
    assert_eq!(names_of(&read_back(&converter)), vec!["Sheet2", "Sheet2 (1)"]);
}

#[test]
fn labels_fill_row_one() {
    let mut converter = Converter::new(None);
    let headers =
        vec![header("a", "Alpha", None), header("b", "Beta", None), header("c", "", None)];
    assert_eq!(converter.append(options(None, headers, vec![])), Ok(()));
    let book = read_back(&converter);
    let sheet = book.get_sheet(&0).unwrap();
    assert_eq!(sheet.get_value((1, 1)), "Alpha");
    assert_eq!(sheet.get_value((2, 1)), "Beta");
    assert_eq!(sheet.get_value((3, 1)), "");
    assert_eq!(sheet.get_highest_row(), 1);
    assert!(sheet.get_cell((1, 2)).is_none());
    assert!(sheet.get_cell((4, 1)).is_none());
}

#[test]
fn rows_without_headers_leave_no_cells() {
    let mut converter = Converter::new(None);
    let data = vec![row(vec![("a", text("x"))]), row(vec![("b", text("y"))])];
    assert_eq!(converter.append(options(None, vec![], data)), Ok(()));
    let book = read_back(&converter);
    let sheet = book.get_sheet(&0).unwrap();
    assert_eq!(sheet.get_highest_column_and_row(), (0, 0));
}

#[test]
fn values_stand_under_their_headers() {
    let mut converter = Converter::new(None);
    let headers = vec![header("name", "Name", None), header("city", "City", None)];
    let data = vec![
        row(vec![("city", text("Oslo")), ("name", text("Ada"))]),
        row(vec![("name", text("Bo")), ("city", text("Rome"))]),
        row(vec![("name", text("Cy"))]),
    ];
    assert_eq!(converter.append(options(Some("People"), headers, data)), Ok(()));
    let book = read_back(&converter);
    let sheet = book.get_sheet_by_name("People").unwrap();
    assert_eq!(sheet.get_value((1, 1)), "Name");
    assert_eq!(sheet.get_value((2, 1)), "City");
    assert_eq!(sheet.get_value((1, 2)), "Ada");
    assert_eq!(sheet.get_value((2, 2)), "Oslo");
    assert_eq!(sheet.get_value((1, 3)), "Bo");
    assert_eq!(sheet.get_value((2, 3)), "Rome");
    assert_eq!(sheet.get_value((1, 4)), "Cy");
    assert_eq!(sheet.get_value((2, 4)), "");
    assert_eq!(sheet.get_highest_column_and_row(), (2, 4));
}

#[test]
fn one_key_can_fill_two_columns() {
    let mut converter = Converter::new(None);
    let headers = vec![header("k", "First", None), header("k", "Second", None)];
    let data = vec![row(vec![("k", text("v"))])];
    assert_eq!(converter.append(options(None, headers, data)), Ok(()));
    let book = read_back(&converter);
    let sheet = book.get_sheet(&0).unwrap();
    assert_eq!(sheet.get_value((1, 2)), "v");
    assert_eq!(sheet.get_value((2, 2)), "v");
}

#[test]
fn text_is_written_as_text() {
    let mut converter = Converter::new(None);
    let headers = vec![header("t", "T", None)];
    let data = vec![row(vec![("t", text("12"))]), row(vec![("t", text("TRUE"))])];
    assert_eq!(converter.append(options(None, headers, data)), Ok(()));
    let book = read_back(&converter);
    let sheet = book.get_sheet(&0).unwrap();
    let first = sheet.get_cell((1, 2)).unwrap();
    assert_eq!(first.get_value(), "12");
    assert_eq!(first.get_cell_value().get_data_type(), "s");
    assert_eq!(first.get_value_number(), None);
    let second = sheet.get_cell((1, 3)).unwrap();
    assert_eq!(second.get_value(), "TRUE");
    assert_eq!(second.get_cell_value().get_data_type(), "s");
}

#[test]
fn numbers_are_written_as_numbers() {
    let mut converter = Converter::new(None);
    let headers = vec![header("n", "N", None)];
    let data = vec![
        row(vec![("n", FieldValue::Number(Number::from(30u64)))]),
        row(vec![("n", FieldValue::Number(Number::from(-7i64)))]),
        row(vec![("n", FieldValue::Number(Number::from_f64(1.5).unwrap()))]),
        row(vec![("n", FieldValue::Number(Number::from(0u64)))]),
        row(vec![("n", FieldValue::Number(Number::from_f64(-0.25).unwrap()))]),
    ];
    assert_eq!(converter.append(options(None, headers, data)), Ok(()));
    let book = read_back(&converter);
    let sheet = book.get_sheet(&0).unwrap();
    assert_eq!(sheet.get_value_number((1, 2)), Some(30.0));
    assert_eq!(sheet.get_value_number((1, 3)), Some(-7.0));
    assert_eq!(sheet.get_value_number((1, 4)), Some(1.5));
    assert_eq!(sheet.get_value_number((1, 5)), Some(0.0));
    assert_eq!(sheet.get_value_number((1, 6)), Some(-0.25));
    assert_eq!(sheet.get_cell((1, 2)).unwrap().get_cell_value().get_data_type(), "n");
}

#[test]
fn other_values_are_written_as_empty_text() {
    let mut converter = Converter::new(None);
    let headers = vec![
        header("null", "Null", None),
        header("yes", "Yes", None),
        header("no", "No", None),
        header("list", "List", None),
        header("object", "Object", None),
        header("missing", "Missing", None),
        header("text", "Text", None),
    ];
    let data = vec![row(vec![
        ("null", FieldValue::Null),
        ("yes", FieldValue::Bool(true)),
        ("no", FieldValue::Bool(false)),
        ("list", FieldValue::Array),
        ("object", FieldValue::Object),
        ("text", text("kept")),
    ])];
    assert_eq!(converter.append(options(None, headers, data)), Ok(()));
    let book = read_back(&converter);
    let sheet = book.get_sheet(&0).unwrap();
    for column in 1..=6u32 {
        assert_eq!(sheet.get_value((column, 2)), "");
        assert_eq!(sheet.get_value_number((column, 2)), None);
    }
    assert_eq!(sheet.get_value((7, 2)), "kept");
}

#[test]
fn a_key_holds_what_was_inserted_last() {
    let mut converter = Converter::new(None);
    let headers = vec![header("k", "K", None)];
    let data = vec![row(vec![("k", text("old")), ("k", text("new"))])];
    assert_eq!(converter.append(options(None, headers, data)), Ok(()));
    let book = read_back(&converter);
    assert_eq!(book.get_sheet(&0).unwrap().get_value((1, 2)), "new");
}

#[test]
fn auto_width_follows_the_header() {
    let label = "a label that is much wider than a column is by default";
    let mut converter = Converter::new(None);
    let headers = vec![
        header("a", label, Some(true)),
        header("b", label, Some(false)),
        header("c", label, None),
    ];
    assert_eq!(converter.append(options(None, headers, vec![])), Ok(()));
    let book = read_back(&converter);
    let sheet = book.get_sheet(&0).unwrap();
    let sized = *sheet.get_column_dimension_by_number(&1).unwrap().get_width();
    let second = *sheet.get_column_dimension_by_number(&2).unwrap().get_width();
    let third = *sheet.get_column_dimension_by_number(&3).unwrap().get_width();
    assert!(sized > 20.0);
    assert!(second < 10.0);
    assert!(third < 10.0);
}

#[test]
fn sheets_keep_their_order_and_their_cells() {
    let mut converter = relaxed();
    let first = options(
        Some("One"),
        vec![header("v", "V1", None)],
        vec![row(vec![("v", text("first"))])],
    );
    let second = options(
        Some("Two"),
        vec![header("v", "V2", None)],
        vec![row(vec![("v", FieldValue::Number(Number::from(2u64)))])],
    );
    assert_eq!(converter.append(first), Ok(()));
    assert_eq!(converter.append(second), Ok(()));
    let book = read_back(&converter);
    assert_eq!(names_of(&book), vec!["One", "Two"]);
    assert_eq!(book.get_sheet(&0).unwrap().get_value((1, 1)), "V1");
    assert_eq!(book.get_sheet(&0).unwrap().get_value((1, 2)), "first");
    assert_eq!(book.get_sheet(&1).unwrap().get_value((1, 1)), "V2");
    assert_eq!(book.get_sheet(&1).unwrap().get_value_number((1, 2)), Some(2.0));
}

#[test]
fn data_can_be_read_twice() {
    let mut converter = Converter::new(None);
    let headers = vec![header("a", "A", None), header("n", "N", None)];
    let data = vec![row(vec![("a", text("x")), ("n", FieldValue::Number(Number::from(4u64)))])];
    assert_eq!(converter.append(options(None, headers, data)), Ok(()));
    let first = read_back(&converter);
    let second = read_back(&converter);
    assert_eq!(names_of(&first), names_of(&second));
    for at in [(1u32, 1u32), (2, 1), (1, 2), (2, 2)] {
        assert_eq!(
            first.get_sheet(&0).unwrap().get_value(at),
            second.get_sheet(&0).unwrap().get_value(at)
        );
    }
    assert_eq!(second.get_sheet(&0).unwrap().get_value((1, 2)), "x");
    assert_eq!(second.get_sheet(&0).unwrap().get_value_number((2, 2)), Some(4.0));
}

#[test]
fn data_can_be_read_between_appends() {
    let mut converter = Converter::new(None);
    assert_eq!(
        converter.append(options(None, vec![header("a", "A", None)], vec![])),
        Ok(())
    );
    assert_eq!(names_of(&read_back(&converter)), vec!["Sheet1"]);
    assert_eq!(
        converter.append(options(None, vec![header("b", "B", None)], vec![])),
        Ok(())
    );
    let book = read_back(&converter);
    assert_eq!(names_of(&book), vec!["Sheet1", "Sheet2"]);
    assert_eq!(book.get_sheet(&0).unwrap().get_value((1, 1)), "A");
    assert_eq!(book.get_sheet(&1).unwrap().get_value((1, 1)), "B");
}

#[test]
fn a_larger_grid_keeps_every_cell_in_place() {
    let mut converter = Converter::new(None);
    let headers: Vec<Header> = (0..7)
        .map(|c| header(&format!("k{}", c), &format!("Column {}", c), None))
        .collect();
    let data: Vec<Row> = (0..40u64)
        .map(|r| {
            let mut fields = Row::new();
            for c in 0..7u64 {
                if (r + c) % 3 == 0 {
                    fields.insert(format!("k{}", c), FieldValue::Number(Number::from(r * 10 + c)));
                } else if (r + c) % 3 == 1 {
                    fields.insert(format!("k{}", c), FieldValue::Text(format!("r{}c{}", r, c)));
                }
            }
            fields
        })
        .collect();
    assert_eq!(converter.append(options(Some("Grid"), headers, data)), Ok(()));
    let book = read_back(&converter);
    let sheet = book.get_sheet_by_name("Grid").unwrap();
    for c in 0..7u32 {
        assert_eq!(sheet.get_value((c + 1, 1)), format!("Column {}", c));
    }
    for r in 0..40u32 {
        for c in 0..7u32 {
            let at = (c + 1, r + 2);
            if (r + c) % 3 == 0 {
                assert_eq!(sheet.get_value_number(at), Some((r * 10 + c) as f64));
            } else if (r + c) % 3 == 1 {
                assert_eq!(sheet.get_value(at), format!("r{}c{}", r, c));
            } else {
                assert_eq!(sheet.get_value(at), "");
                assert_eq!(sheet.get_value_number(at), None);
            }
        }
    }
    assert_eq!(sheet.get_highest_column_and_row(), (7, 41));
}

#[test]
fn text_beyond_ascii_is_kept() {
    let mut converter = relaxed();
    let headers = vec![header("名前", "Größe", None)];
    let data = vec![row(vec![("名前", text("naïve — ünïcödé"))])];
    assert_eq!(converter.append(options(Some("Übersicht"), headers.clone(), data)), Ok(()));
    assert_eq!(converter.append(options(Some("Übersicht"), headers, vec![])), Ok(()));
    let book = read_back(&converter);
    assert_eq!(names_of(&book), vec!["Übersicht", "Übersicht (1)"]);
    let sheet = book.get_sheet(&0).unwrap();
    assert_eq!(sheet.get_value((1, 1)), "Größe");
    assert_eq!(sheet.get_value((1, 2)), "naïve — ünïcödé");
}

#[test]
fn cells_answer_to_their_addresses() {
    let mut converter = Converter::new(None);
    let headers = vec![header("a", "left", None), header("b", "right", None)];
    let data = vec![
        row(vec![("a", text("a2")), ("b", text("b2"))]),
        row(vec![("a", text("a3")), ("b", FieldValue::Number(Number::from(3u64)))]),
    ];
    assert_eq!(converter.append(options(None, headers, data)), Ok(()));
    let book = read_back(&converter);
    let sheet = book.get_sheet_by_name("Sheet1").unwrap();
    assert_eq!(sheet.get_value("A1"), "left");
    assert_eq!(sheet.get_value("B1"), "right");
    assert_eq!(sheet.get_value("A2"), "a2");
    assert_eq!(sheet.get_value("B2"), "b2");
    assert_eq!(sheet.get_value("A3"), "a3");
    assert_eq!(sheet.get_value_number("B3"), Some(3.0));
    assert_eq!(sheet.get_value("C1"), "");
    assert_eq!(sheet.get_value("A4"), "");
}

#[test]
fn every_package_begins_as_a_zip_archive() {
    let mut converter = relaxed();
    for step in 0..4u64 {
        let headers = vec![header("a", "A", Some(step % 2 == 0)), header("n", "N", None)];
        let data = vec![row(vec![
            ("a", text("x")),
            ("n", FieldValue::Number(Number::from(step))),
        ])];
        assert_eq!(converter.append(options(Some("Same"), headers, data)), Ok(()));
        for _ in 0..2 {
            let bytes = converter.data().unwrap();
            assert_eq!(&bytes[0..4], &[0x50, 0x4b, 0x03, 0x04][..]);
        }
    }
}
