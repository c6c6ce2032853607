//! What holds of every append, stated over the model and proved.

use crate::converter::{append_outcome, ConverterView};
use crate::model::{row_value, AppendOptionsView, FieldValueView, HeaderView, RowView};
use crate::naming::{
    candidate, default_name, first_free, free_index, lemma_first_free_unique, lemma_free_index,
    lemma_resolved_free_name, requested_name, resolved_name, suffix,
};
use crate::sheet::{cell_for, grid_cells, names_distinct, sheet_for, sheet_names, CellView};
use crate::text::{
    decimal, has_xlsx_extension, lemma_decimal_injective, with_xlsx_extension, xlsx_extension,
};
use crate::workbook::number_double;
use vstd::prelude::*;

verus! {

/// A converter without sheets.
pub open spec fn empty_converter(fail_on_duplicate: bool) -> ConverterView {
    ConverterView { fail_on_duplicate, sheets: Seq::empty() }
}

/// What a run of appends makes of a converter: nothing, once one of them is
/// refused.
pub open spec fn after_appends(start: ConverterView, steps: Seq<AppendOptionsView>) -> Option<
    ConverterView,
>
    decreases steps.len(),
{
    if steps.len() == 0 {
        Some(start)
    } else {
        match after_appends(start, steps.drop_last()) {
            Some(reached) => append_outcome(reached, steps.last()),
            None => None,
        }
    }
}

/// A text value becomes a text cell that holds the same text.
pub proof fn law_text_becomes_text(text: Seq<char>)
    ensures
        cell_for(Some(FieldValueView::Text(text))) == CellView::Text(text),
{
}

/// A number becomes a numeric cell: one that holds the number's double where
/// the number has one, and zero where it has none.
pub proof fn law_number_becomes_number(number: serde_json::Number)
    ensures
        number_double(number) matches Some(bits) ==> cell_for(
            Some(FieldValueView::Number(number)),
        ) == CellView::Number(bits),
        number_double(number) is None ==> cell_for(Some(FieldValueView::Number(number)))
            == CellView::Number(0),
{
}

/// A value that is neither text nor a number, and a missing value, become an
/// empty text cell.
pub proof fn law_other_becomes_empty_text(value: Option<FieldValueView>)
    requires
        value matches Some(found) ==> !(found is Text) && !(found is Number),
    ensures
        cell_for(value) == CellView::Text(Seq::<char>::empty()),
{
}

/// The header at index `c` has column `c + 1`: its label stands in row 1 of
/// that column, whatever the rows are, and even where there are none.
pub proof fn law_label_position(
    name: Seq<char>,
    headers: Seq<HeaderView>,
    rows: Seq<RowView>,
    c: int,
)
    requires
        0 <= c < headers.len(),
    ensures
        sheet_for(name, headers, rows).cells.contains_key((c + 1, 1)),
        sheet_for(name, headers, rows).cells[(c + 1, 1)] == CellView::Text(headers[c].label),
        sheet_for(name, headers, rows).auto_width.contains(c + 1) == headers[c].auto_width,
{
}

/// The row at index `r` has sheet row `r + 2`, and in it the header at index
/// `c` has column `c + 1`: the cell there holds what the row has under the
/// header's key.
pub proof fn law_value_position(
    name: Seq<char>,
    headers: Seq<HeaderView>,
    rows: Seq<RowView>,
    c: int,
    r: int,
)
    requires
        0 <= c < headers.len(),
        0 <= r < rows.len(),
    ensures
        sheet_for(name, headers, rows).cells.contains_key((c + 1, r + 2)),
        sheet_for(name, headers, rows).cells[(c + 1, r + 2)] == cell_for(
            row_value(rows[r], headers[c].key),
        ),
{
}

/// A sheet has no cell but those of its headers and rows.
pub proof fn law_no_other_cells(
    name: Seq<char>,
    headers: Seq<HeaderView>,
    rows: Seq<RowView>,
    column: int,
    row: int,
)
    ensures
        sheet_for(name, headers, rows).cells.contains_key((column, row)) <==> (1 <= column
            <= headers.len() && 1 <= row <= rows.len() + 1),
{
}

/// An append that succeeds adds exactly one sheet, behind the others, and
/// leaves the others and the policy as they were.
pub proof fn law_append_adds_one_sheet(before: ConverterView, options: AppendOptionsView)
    requires
        append_outcome(before, options) is Some,
    ensures
        ({
            let after = append_outcome(before, options)->0;
            &&& after.fail_on_duplicate == before.fail_on_duplicate
            &&& after.sheets.len() == before.sheets.len() + 1
            &&& after.sheets.drop_last() == before.sheets
            &&& after.sheets.last().cells == grid_cells(options.headers, options.data)
            &&& !sheet_names(before.sheets).contains(after.sheets.last().name)
        }),
{
    let names = sheet_names(before.sheets);
    let requested = requested_name(before.sheets.len(), options.sheet_name);
    if !before.fail_on_duplicate {
        lemma_free_index(names, requested);
    }
    let after = append_outcome(before, options)->0;
    assert(after.sheets.drop_last() =~= before.sheets);
}

/// Sheet names stay unique: an append to a workbook of distinct names leaves a
/// workbook of distinct names.
pub proof fn law_append_keeps_names_distinct(before: ConverterView, options: AppendOptionsView)
    requires
        names_distinct(before.sheets),
        append_outcome(before, options) is Some,
    ensures
        names_distinct(append_outcome(before, options)->0.sheets),
{
    law_append_adds_one_sheet(before, options);
    let after = append_outcome(before, options)->0;
    crate::converter::lemma_push_keeps_names_distinct(before.sheets, after.sheets.last());
    assert(after.sheets =~= before.sheets.push(after.sheets.last()));
}

/// Under the strict policy an append fails exactly where a sheet has the name
/// that it asks for.
pub proof fn law_strict_policy(before: ConverterView, options: AppendOptionsView)
    requires
        before.fail_on_duplicate,
    ensures
        append_outcome(before, options) is None <==> sheet_names(before.sheets).contains(
            requested_name(before.sheets.len(), options.sheet_name),
        ),
        append_outcome(before, options) matches Some(after) ==> after.sheets.last().name
            == requested_name(before.sheets.len(), options.sheet_name),
{
}

/// Under the strict policy, two appends under one chosen name: the first adds
/// its sheet to the empty workbook, the second is refused.
pub proof fn law_strict_second_append_fails(
    name: Seq<char>,
    first: AppendOptionsView,
    second: AppendOptionsView,
)
    requires
        first.sheet_name == Some(name),
        second.sheet_name == Some(name),
    ensures
        append_outcome(empty_converter(true), first) matches Some(after) && after.sheets.len() == 1
            && after.sheets[0].name == name && append_outcome(after, second) is None,
{
    let start = empty_converter(true);
    assert(sheet_names(start.sheets) =~= Seq::<Seq<char>>::empty());
    let after = append_outcome(start, first)->0;
    assert(sheet_names(after.sheets)[0] == name);
}

/// Under the relaxed policy every append succeeds, and its sheet is named by
/// the first candidate that no sheet has: the name asked for, or else that
/// name with ` (1)` behind it, or else with ` (2)`, and so on.
pub proof fn law_relaxed_policy(before: ConverterView, options: AppendOptionsView)
    requires
        !before.fail_on_duplicate,
    ensures
        append_outcome(before, options) is Some,
        ({
            let names = sheet_names(before.sheets);
            let requested = requested_name(before.sheets.len(), options.sheet_name);
            let k = free_index(names, requested);
            &&& k <= before.sheets.len()
            &&& first_free(names, requested, k)
            &&& append_outcome(before, options)->0.sheets.last().name == candidate(requested, k)
        }),
{
    lemma_free_index(
        sheet_names(before.sheets),
        requested_name(before.sheets.len(), options.sheet_name),
    );
}

/// Under the relaxed policy a name that no sheet has is kept as it is.
pub proof fn law_relaxed_keeps_free_name(names: Seq<Seq<char>>, requested: Seq<char>)
    requires
        !names.contains(requested),
    ensures
        resolved_name(names, requested, false) == Some(requested),
{
    lemma_resolved_free_name(names, requested);
}

/// Under the relaxed policy a name that a sheet has, while no sheet has it
/// with ` (1)` behind it, gets ` (1)` behind it.
pub proof fn law_relaxed_first_suffix(names: Seq<Seq<char>>, requested: Seq<char>)
    requires
        names.contains(requested),
        !names.contains(requested + seq![' ', '(', '1', ')']),
    ensures
        resolved_name(names, requested, false) == Some(requested + seq![' ', '(', '1', ')']),
{
    assert(suffix(1) =~= seq![' ', '(', '1', ')']);
    assert(first_free(names, requested, 1)) by {
        assert forall|j: nat| j < 1 implies names.contains(#[trigger] candidate(requested, j)) by {
            assert(j == 0);
        }
    }
    lemma_free_index(names, requested);
    lemma_first_free_unique(names, requested, 1, free_index(names, requested));
}

/// Under the relaxed policy the number in the suffix counts up: a name that a
/// sheet has, and that a sheet has with ` (1)` behind it, gets ` (2)` behind
/// it where no sheet has that.
pub proof fn law_relaxed_second_suffix(names: Seq<Seq<char>>, requested: Seq<char>)
    requires
        names.contains(requested),
        names.contains(requested + seq![' ', '(', '1', ')']),
        !names.contains(requested + seq![' ', '(', '2', ')']),
    ensures
        resolved_name(names, requested, false) == Some(requested + seq![' ', '(', '2', ')']),
{
    assert(suffix(1) =~= seq![' ', '(', '1', ')']);
    assert(suffix(2) =~= seq![' ', '(', '2', ')']);
    assert(first_free(names, requested, 2)) by {
        assert forall|j: nat| j < 2 implies names.contains(#[trigger] candidate(requested, j)) by {
            assert(j == 0 || j == 1);
        }
    }
    lemma_free_index(names, requested);
    lemma_first_free_unique(names, requested, 2, free_index(names, requested));
}

/// Default names differ where the counts differ.
pub proof fn lemma_default_name_injective(a: nat, b: nat)
    requires
        default_name(a) == default_name(b),
    ensures
        a == b,
{
    let prefix = seq!['S', 'h', 'e', 'e', 't'];
    assert(default_name(a).subrange(5, default_name(a).len() as int) =~= decimal(a + 1));
    assert(default_name(b).subrange(5, default_name(b).len() as int) =~= decimal(b + 1));
    lemma_decimal_injective(a + 1, b + 1);
}

/// Appends that choose no name, to a converter without sheets, all succeed,
/// under either policy, and name their sheets `Sheet1`, `Sheet2`, `Sheet3`,
/// ... in the order of the calls.
pub proof fn law_default_names(fail_on_duplicate: bool, steps: Seq<AppendOptionsView>)
    requires
        forall|i: int| 0 <= i < steps.len() ==> (#[trigger] steps[i]).sheet_name is None,
    ensures
        after_appends(empty_converter(fail_on_duplicate), steps) matches Some(reached)
            && reached.fail_on_duplicate == fail_on_duplicate && reached.sheets.len()
            == steps.len() && forall|i: int|
            0 <= i < steps.len() ==> (#[trigger] reached.sheets[i]).name == default_name(i as nat),
    decreases steps.len(),
{
    if steps.len() > 0 {
        let earlier = steps.drop_last();
        law_default_names(fail_on_duplicate, earlier);
        let reached = after_appends(empty_converter(fail_on_duplicate), earlier)->0;
        let count = reached.sheets.len();
        let names = sheet_names(reached.sheets);
        let requested = default_name(count);
        assert(steps.last().sheet_name is None);
        assert(requested_name(count, steps.last().sheet_name) == requested);
        if names.contains(requested) {
            let i = choose|i: int| 0 <= i < names.len() && names[i] == requested;
            assert(reached.sheets[i].name == default_name(i as nat));
            lemma_default_name_injective(i as nat, count);
        }
        if !fail_on_duplicate {
            law_relaxed_keeps_free_name(names, requested);
        }
        let after = append_outcome(reached, steps.last())->0;
        assert forall|i: int| 0 <= i < steps.len() implies (#[trigger] after.sheets[i]).name
            == default_name(i as nat) by {
            if i < count {
                assert(after.sheets[i] == reached.sheets[i]);
            }
        }
    }
}

/// A file name that is given its extension ends with it, and giving it again
/// changes nothing.
pub proof fn law_file_name_extension(name: Seq<char>)
    ensures
        has_xlsx_extension(with_xlsx_extension(name)),
        with_xlsx_extension(with_xlsx_extension(name)) == with_xlsx_extension(name),
        has_xlsx_extension(name) ==> with_xlsx_extension(name) == name,
        !has_xlsx_extension(name) ==> with_xlsx_extension(name) == name + seq![
            '.',
            'x',
            'l',
            's',
            'x',
        ],
{
    if !has_xlsx_extension(name) {
        let full = name + xlsx_extension();
        assert(full.subrange(full.len() - 5, full.len() as int) =~= xlsx_extension());
    }
}

} // verus!
