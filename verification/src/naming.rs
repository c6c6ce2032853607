//! The name that a new sheet gets: the default name, and what becomes of a
//! name that an earlier sheet has.

use crate::sheet::sheet_names;
use crate::text::{decimal, decimal_string, lemma_decimal_injective};
use crate::workbook::{has_sheet_named, sheet_count, sheets_read, workbook_sheets};
use vstd::prelude::*;
use vstd::string::*;

verus! {

/// The name of a sheet whose caller chose none, in a workbook of `count`
/// sheets: `Sheet` and the number of the new sheet, counted from 1.
pub open spec fn default_name(count: nat) -> Seq<char> {
    seq!['S', 'h', 'e', 'e', 't'] + decimal(count + 1)
}

/// The name that an append asks for: the caller's, or the default name.
pub open spec fn requested_name(count: nat, chosen: Option<Seq<char>>) -> Seq<char> {
    match chosen {
        Some(name) => name,
        None => default_name(count),
    }
}

/// The `k`-th suffix: a space and `k` in brackets.
pub open spec fn suffix(k: nat) -> Seq<char> {
    seq![' ', '('] + decimal(k) + seq![')']
}

/// The `k`-th candidate for a sheet that asks for `name`: `name` itself, then
/// `name` with the first suffix behind it, with the second, and so on.
pub open spec fn candidate(name: Seq<char>, k: nat) -> Seq<char> {
    if k == 0 {
        name
    } else {
        name + suffix(k)
    }
}

/// `k` is the number of the first candidate that is not among `names`.
pub open spec fn first_free(names: Seq<Seq<char>>, name: Seq<char>, k: nat) -> bool {
    &&& !names.contains(candidate(name, k))
    &&& forall|j: nat| j < k ==> names.contains(#[trigger] candidate(name, j))
}

/// The number of the first candidate that is not among `names`.
pub open spec fn free_index(names: Seq<Seq<char>>, name: Seq<char>) -> nat {
    choose|k: nat| first_free(names, name, k)
}

/// The name that a new sheet gets beside sheets named `names`. Under the
/// strict policy a taken name gets none; else the first free candidate.
pub open spec fn resolved_name(names: Seq<Seq<char>>, requested: Seq<char>, strict: bool) -> Option<
    Seq<char>,
> {
    if strict {
        if names.contains(requested) {
            None
        } else {
            Some(requested)
        }
    } else {
        Some(candidate(requested, free_index(names, requested)))
    }
}

/// Different numbers have different suffixes.
pub proof fn lemma_suffix_injective(j: nat, k: nat)
    requires
        suffix(j) == suffix(k),
    ensures
        j == k,
{
    assert(suffix(j).subrange(2, suffix(j).len() - 1) =~= decimal(j));
    assert(suffix(k).subrange(2, suffix(k).len() - 1) =~= decimal(k));
    lemma_decimal_injective(j, k);
}

/// No two candidates are the same name.
pub proof fn lemma_candidates_differ(name: Seq<char>, j: nat, k: nat)
    requires
        j != k,
    ensures
        candidate(name, j) != candidate(name, k),
{
    let a = candidate(name, j);
    let b = candidate(name, k);
    if a == b {
        if j == 0 || k == 0 {
            assert(a.len() == b.len());
        } else {
            assert(a.subrange(name.len() as int, a.len() as int) =~= suffix(j));
            assert(b.subrange(name.len() as int, b.len() as int) =~= suffix(k));
            lemma_suffix_injective(j, k);
        }
    }
}

/// The candidates up to the `k`-th.
spec fn candidates(name: Seq<char>, k: nat) -> Set<Seq<char>>
    decreases k,
{
    if k == 0 {
        set![name]
    } else {
        candidates(name, (k - 1) as nat).insert(candidate(name, k))
    }
}

/// They are `k + 1` different names, and no others.
proof fn lemma_candidates(name: Seq<char>, k: nat)
    ensures
        candidates(name, k).finite(),
        candidates(name, k).len() == k + 1,
        forall|s: Seq<char>| #[trigger]
            candidates(name, k).contains(s) ==> exists|j: nat| j <= k && s == candidate(name, j),
        forall|j: nat| j <= k ==> candidates(name, k).contains(#[trigger] candidate(name, j)),
    decreases k,
{
    if k > 0 {
        let before = candidates(name, (k - 1) as nat);
        lemma_candidates(name, (k - 1) as nat);
        if before.contains(candidate(name, k)) {
            let j = choose|j: nat| j <= k - 1 && candidate(name, k) == candidate(name, j);
            lemma_candidates_differ(name, j, k);
        }
        assert forall|j: nat| j <= k implies candidates(name, k).contains(
            #[trigger] candidate(name, j),
        ) by {
            if j < k {
                assert(before.contains(candidate(name, j)));
            }
        }
        assert forall|s: Seq<char>| #[trigger] candidates(name, k).contains(s) implies (exists|
            j: nat,
        | j <= k && s == candidate(name, j)) by {
            if s != candidate(name, k) {
                assert(before.contains(s));
                let j = choose|j: nat| j <= k - 1 && s == candidate(name, j);
                assert(j <= k && s == candidate(name, j));
            }
        }
    } else {
        assert(candidate(name, 0) == name);
    }
}

/// Where the candidates up to the `k`-th are all among `names`, there are more
/// names than `k`.
pub proof fn lemma_taken_candidates_bounded(names: Seq<Seq<char>>, name: Seq<char>, k: nat)
    requires
        forall|j: nat| j <= k ==> names.contains(#[trigger] candidate(name, j)),
    ensures
        k < names.len(),
{
    lemma_candidates(name, k);
    let taken = candidates(name, k);
    assert forall|s: Seq<char>| taken.contains(s) implies names.to_set().contains(s) by {
        let j = choose|j: nat| j <= k && s == candidate(name, j);
        assert(names.contains(candidate(name, j)));
    }
    assert(taken.subset_of(names.to_set()));
    names.lemma_cardinality_of_set();
    vstd::set_lib::lemma_len_subset(taken, names.to_set());
}

/// Some candidate is free, and no later than there are names.
pub proof fn lemma_free_index(names: Seq<Seq<char>>, name: Seq<char>)
    ensures
        first_free(names, name, free_index(names, name)),
        free_index(names, name) <= names.len(),
{
    let k = lemma_free_from(names, name, 0);
    assert(first_free(names, name, k));
    let chosen = free_index(names, name);
    if chosen > names.len() {
        assert(names.contains(candidate(name, k))) by {
            assert(k < chosen);
        }
    }
}

/// Where the candidates before the `k`-th are all among `names`, the first
/// free candidate is the `k`-th or a later one.
proof fn lemma_free_from(names: Seq<Seq<char>>, name: Seq<char>, k: nat) -> (free: nat)
    requires
        forall|j: nat| j < k ==> names.contains(#[trigger] candidate(name, j)),
        k <= names.len(),
    ensures
        first_free(names, name, free),
        free <= names.len(),
    decreases names.len() - k,
{
    if names.contains(candidate(name, k)) {
        lemma_taken_candidates_bounded(names, name, k);
        lemma_free_from(names, name, k + 1)
    } else {
        k
    }
}

/// Only one candidate is the first free one.
pub proof fn lemma_first_free_unique(names: Seq<Seq<char>>, name: Seq<char>, a: nat, b: nat)
    requires
        first_free(names, name, a),
        first_free(names, name, b),
    ensures
        a == b,
{
    if a < b {
        assert(names.contains(candidate(name, a)));
    } else if b < a {
        assert(names.contains(candidate(name, b)));
    }
}

/// A name that no sheet has is the name of the new sheet, under either policy.
pub proof fn lemma_resolved_free_name(names: Seq<Seq<char>>, requested: Seq<char>)
    requires
        !names.contains(requested),
    ensures
        forall|strict: bool| #[trigger] resolved_name(names, requested, strict) == Some(requested),
{
    lemma_free_index(names, requested);
    assert(first_free(names, requested, 0));
    lemma_first_free_unique(names, requested, 0, free_index(names, requested));
}

/// The default name for a workbook of `count` sheets.
pub fn default_sheet_name(count: usize) -> (name: String)
    ensures
        name@ == default_name(count as nat),
{
    proof {
        reveal_strlit("Sheet");
    }
    let mut name = String::from_str("Sheet");
    let number = decimal_string(count as u128 + 1);
    name.append(number.as_str());
    assert(name@ =~= default_name(count as nat));
    name
}

/// `name` with the `k`-th suffix behind it.
fn with_suffix(name: &str, k: usize) -> (extended: String)
    ensures
        extended@ == name@ + suffix(k as nat),
{
    proof {
        reveal_strlit(" (");
        reveal_strlit(")");
    }
    let number = decimal_string(k as u128);
    let mut extended = String::from_str(name);
    extended.append(" (");
    extended.append(number.as_str());
    extended.append(")");
    assert(extended@ =~= name@ + suffix(k as nat));
    extended
}

/// Settles the name of a new sheet of `workbook`: `requested` where no sheet
/// has it; else, under the strict policy, none, and otherwise the first
/// candidate that no sheet has.
pub(crate) fn resolve_name(
    workbook: &umya_spreadsheet::Spreadsheet,
    requested: String,
    strict: bool,
) -> (name: Option<String>)
    requires
        sheets_read(*workbook),
    ensures
        match resolved_name(sheet_names(workbook_sheets(*workbook)), requested@, strict) {
            Some(resolved) => name matches Some(n) && n@ == resolved,
            None => name is None,
        },
        name matches Some(n) ==> !sheet_names(workbook_sheets(*workbook)).contains(n@),
{
    let ghost names = sheet_names(workbook_sheets(*workbook));
    if !has_sheet_named(workbook, requested.as_str()) {
        proof {
            lemma_resolved_free_name(names, requested@);
        }
        return Some(requested);
    }
    if strict {
        return None;
    }
    proof {
        assert forall|j: nat| j <= 0 implies names.contains(
            #[trigger] candidate(requested@, j),
        ) by {}
        lemma_taken_candidates_bounded(names, requested@, 0);
    }
    let count = sheet_count(workbook);
    let mut tried: usize = 1;
    let mut name = with_suffix(requested.as_str(), tried);
    while has_sheet_named(workbook, name.as_str())
        invariant
            sheets_read(*workbook),
            names == sheet_names(workbook_sheets(*workbook)),
            name@ == candidate(requested@, tried as nat),
            forall|j: nat| j < tried ==> names.contains(#[trigger] candidate(requested@, j)),
            1 <= tried <= names.len() == count,
        decreases names.len() - tried,
    {
        proof {
            lemma_taken_candidates_bounded(names, requested@, tried as nat);
        }
        tried += 1;
        name = with_suffix(requested.as_str(), tried);
    }
    proof {
        lemma_free_index(names, requested@);
        lemma_first_free_unique(names, requested@, tried as nat, free_index(names, requested@));
    }
    Some(name)
}

} // verus!
