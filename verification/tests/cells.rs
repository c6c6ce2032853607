use serde_json::Number;
use xlsx_converter::{cell_content, number_content, CellContent, FieldValue};

fn is_empty_text(content: CellContent) -> bool {
    matches!(content, CellContent::Text(""))
}

#[test]
fn text_stays_text() {
    let value = FieldValue::Text("hello".to_string());
    assert!(matches!(cell_content(Some(&value)), CellContent::Text("hello")));
    let digits = FieldValue::Text("42".to_string());
    assert!(matches!(cell_content(Some(&digits)), CellContent::Text("42")));
    let blank = FieldValue::Text(String::new());
    assert!(matches!(cell_content(Some(&blank)), CellContent::Text("")));
}

#[test]
fn whole_numbers_stay_numbers() {
    let numbers =
        [Number::from(0u64), Number::from(30u64), Number::from(-7i64), Number::from(u64::MAX)];
    for number in numbers {
        let value = FieldValue::Number(number.clone());
        match cell_content(Some(&value)) {
            CellContent::Number(kept) => assert_eq!(kept, &number),
            other => panic!("unexpected content {:?}", other),
        }
    }
}

#[test]
fn fractions_stay_numbers() {
    let number = Number::from_f64(1.5).unwrap();
    let value = FieldValue::Number(number.clone());
    match cell_content(Some(&value)) {
        CellContent::Number(kept) => {
            assert_eq!(kept, &number);
            assert_eq!(kept.as_f64(), Some(1.5));
        }
        other => panic!("unexpected content {:?}", other),
    }
}

#[test]
fn a_missing_value_becomes_empty_text() {
    assert!(is_empty_text(cell_content(None)));
}

#[test]
fn null_becomes_empty_text() {
    assert!(is_empty_text(cell_content(Some(&FieldValue::Null))));
}

#[test]
fn booleans_become_empty_text() {
    assert!(is_empty_text(cell_content(Some(&FieldValue::Bool(true)))));
    assert!(is_empty_text(cell_content(Some(&FieldValue::Bool(false)))));
}

#[test]
fn lists_and_objects_become_empty_text() {
    assert!(is_empty_text(cell_content(Some(&FieldValue::Array))));
    assert!(is_empty_text(cell_content(Some(&FieldValue::Object))));
}

#[test]
fn a_number_with_a_double_is_kept() {
    let number = Number::from(12u64);
    match number_content(&number, true) {
        CellContent::Number(kept) => assert_eq!(kept, &number),
        other => panic!("unexpected content {:?}", other),
    }
}

#[test]
fn a_number_without_a_double_becomes_zero() {
    let number = Number::from(12u64);
    assert!(matches!(number_content(&number, false), CellContent::Zero));
    let fraction = Number::from_f64(2.5).unwrap();
    assert!(matches!(number_content(&fraction, false), CellContent::Zero));
}
