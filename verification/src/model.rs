//! What callers hand to the converter: headers, rows and options.

use vstd::prelude::*;

verus! {

/// One column: the field that fills it, the title above it, and whether it
/// sizes itself.
#[derive(Clone, Debug)]
pub struct Header {
    pub key: String,
    pub label: String,
    pub auto_width: Option<bool>,
}

/// A header as plain values. `auto_width` is true only where the header asks
/// for it outright.
pub struct HeaderView {
    pub key: Seq<char>,
    pub label: Seq<char>,
    pub auto_width: bool,
}

impl View for Header {
    type V = HeaderView;

    open spec fn view(&self) -> HeaderView {
        HeaderView {
            key: self.key@,
            label: self.label@,
            auto_width: self.auto_width == Some(true),
        }
    }
}

impl Header {
    /// Whether the column is to size itself.
    pub fn wants_auto_width(&self) -> (wants: bool)
        ensures
            wants == self@.auto_width,
    {
        match self.auto_width {
            Some(auto_width) => auto_width,
            None => false,
        }
    }
}

/// A value of a row, by its kind. Of a list or an object only the kind is
/// kept: no cell shows what they hold.
#[derive(Debug)]
pub enum FieldValue {
    Null,
    Bool(bool),
    Number(serde_json::Number),
    Text(String),
    Array,
    Object,
}

/// A row's value as plain values.
pub enum FieldValueView {
    Null,
    Bool(bool),
    Number(serde_json::Number),
    Text(Seq<char>),
    Array,
    Object,
}

impl View for FieldValue {
    type V = FieldValueView;

    open spec fn view(&self) -> FieldValueView {
        match *self {
            FieldValue::Null => FieldValueView::Null,
            FieldValue::Bool(b) => FieldValueView::Bool(b),
            FieldValue::Number(number) => FieldValueView::Number(number),
            FieldValue::Text(text) => FieldValueView::Text(text@),
            FieldValue::Array => FieldValueView::Array,
            FieldValue::Object => FieldValueView::Object,
        }
    }
}

/// A row as plain values: a map from keys to values.
pub type RowView = Map<Seq<char>, FieldValueView>;

/// The value that `row` holds under `key`, if any.
pub open spec fn row_value(row: RowView, key: Seq<char>) -> Option<FieldValueView> {
    if row.contains_key(key) {
        Some(row[key])
    } else {
        None
    }
}

/// A value that was looked up, as plain values.
pub open spec fn found_view(value: Option<&FieldValue>) -> Option<FieldValueView> {
    match value {
        Some(found) => Some(found@),
        None => None,
    }
}

/// One value of a row, under its key.
#[derive(Debug)]
pub struct Field {
    pub key: String,
    pub value: FieldValue,
}

/// One row of data: values by key. Where a key stands twice among the fields,
/// it holds the value of the later field.
#[derive(Debug)]
pub struct Row {
    pub fields: Vec<Field>,
}

/// The map that `fields` make, each put into it in turn.
pub open spec fn fields_map(fields: Seq<Field>) -> RowView
    decreases fields.len(),
{
    if fields.len() == 0 {
        Map::empty()
    } else {
        fields_map(fields.drop_last()).insert(fields.last().key@, fields.last().value@)
    }
}

impl View for Row {
    type V = RowView;

    open spec fn view(&self) -> RowView {
        fields_map(self.fields@)
    }
}

impl Row {
    /// A row without values.
    pub fn new() -> (row: Row)
        ensures
            row@ == Map::<Seq<char>, FieldValueView>::empty(),
    {
        Row { fields: Vec::new() }
    }

    /// Puts `value` under `key`, in place of what the key held.
    pub fn insert(&mut self, key: String, value: FieldValue)
        ensures
            final(self)@ == old(self)@.insert(key@, value@),
    {
        let ghost before = self.fields@;
        self.fields.push(Field { key, value });
        assert(self.fields@.drop_last() == before);
    }

    /// The value under `key`, if the row holds one.
    pub fn get(&self, key: &String) -> (value: Option<&FieldValue>)
        ensures
            found_view(value) == row_value(self@, key@),
    {
        let mut i = self.fields.len();
        assert(self.fields@.take(i as int) == self.fields@);
        while i > 0
            invariant
                i <= self.fields.len(),
                fields_map(self.fields@).contains_key(key@) == fields_map(
                    self.fields@.take(i as int),
                ).contains_key(key@),
                fields_map(self.fields@).contains_key(key@) ==> fields_map(self.fields@)[key@]
                    == fields_map(self.fields@.take(i as int))[key@],
            decreases i,
        {
            i -= 1;
            assert(self.fields@.take(i + 1).drop_last() == self.fields@.take(i as int));
            if self.fields[i].key == *key {
                return Some(&self.fields[i].value);
            }
        }
        None
    }
}

/// What one append takes: the sheet's name, if the caller chose one, the rows
/// and the columns.
#[derive(Debug)]
pub struct AppendOptions {
    pub sheet_name: Option<String>,
    pub data: Vec<Row>,
    pub headers: Vec<Header>,
}

/// The options of one append as plain values.
pub struct AppendOptionsView {
    pub sheet_name: Option<Seq<char>>,
    pub data: Seq<RowView>,
    pub headers: Seq<HeaderView>,
}

impl View for AppendOptions {
    type V = AppendOptionsView;

    open spec fn view(&self) -> AppendOptionsView {
        AppendOptionsView {
            sheet_name: match self.sheet_name {
                Some(name) => Some(name@),
                None => None,
            },
            data: Seq::new(self.data.len() as nat, |i: int| self.data[i]@),
            headers: Seq::new(self.headers.len() as nat, |i: int| self.headers[i]@),
        }
    }
}

/// The policy on sheet names that a name would share with an earlier sheet:
/// the one that `GenerateOptions` has where the caller says nothing.
pub fn default_fail_on_duplicate() -> (fail: bool)
    ensures
        fail,
{
    true
}

/// What a converter is made with.
#[derive(Clone, Copy, Debug)]
pub struct GenerateOptions {
    /// Whether an append fails where its sheet name is taken. Where it is
    /// false, the name gets the first numbered suffix that makes it free.
    pub fail_on_duplicate: bool,
}

impl Default for GenerateOptions {
    fn default() -> (options: GenerateOptions)
        ensures
            options.fail_on_duplicate,
    {
        GenerateOptions { fail_on_duplicate: default_fail_on_duplicate() }
    }
}

} // verus!
