//! Decimal numerals and file names, as sequences of characters.

use vstd::prelude::*;
use vstd::string::*;

verus! {

/// The character of one decimal digit.
pub open spec fn digit_char(d: nat) -> char {
    if d == 0 {
        '0'
    } else if d == 1 {
        '1'
    } else if d == 2 {
        '2'
    } else if d == 3 {
        '3'
    } else if d == 4 {
        '4'
    } else if d == 5 {
        '5'
    } else if d == 6 {
        '6'
    } else if d == 7 {
        '7'
    } else if d == 8 {
        '8'
    } else {
        '9'
    }
}

/// The decimal numeral of `n`, most significant digit first, without leading
/// zeros.
pub open spec fn decimal(n: nat) -> Seq<char>
    decreases n,
{
    if n < 10 {
        seq![digit_char(n)]
    } else {
        decimal(n / 10).push(digit_char(n % 10))
    }
}

/// A numeral has at least one digit.
pub proof fn lemma_decimal_len(n: nat)
    ensures
        decimal(n).len() >= 1,
        n >= 10 ==> decimal(n).len() >= 2,
    decreases n,
{
    if n >= 10 {
        lemma_decimal_len(n / 10);
    }
}

/// Different digits have different characters.
pub proof fn lemma_digit_char_injective(a: nat, b: nat)
    requires
        a < 10,
        b < 10,
        digit_char(a) == digit_char(b),
    ensures
        a == b,
{
}

/// Different numbers have different numerals.
pub proof fn lemma_decimal_injective(a: nat, b: nat)
    requires
        decimal(a) == decimal(b),
    ensures
        a == b,
    decreases a,
{
    lemma_decimal_len(a);
    lemma_decimal_len(b);
    if a < 10 && b < 10 {
        assert(decimal(a)[0] == digit_char(a));
        assert(decimal(b)[0] == digit_char(b));
        lemma_digit_char_injective(a, b);
    } else if a >= 10 && b >= 10 {
        let pa = decimal(a / 10);
        let pb = decimal(b / 10);
        assert(decimal(a).last() == digit_char(a % 10));
        assert(decimal(b).last() == digit_char(b % 10));
        lemma_digit_char_injective(a % 10, b % 10);
        assert(decimal(a).drop_last() == pa);
        assert(decimal(b).drop_last() == pb);
        lemma_decimal_injective(a / 10, b / 10);
    } else if a < 10 {
        assert(decimal(a).len() == 1);
    } else {
        assert(decimal(b).len() == 1);
    }
}

fn digit_str(d: u8) -> (s: &'static str)
    requires
        d < 10,
    ensures
        s@ == seq![digit_char(d as nat)],
{
    proof {
        reveal_strlit("0");
        reveal_strlit("1");
        reveal_strlit("2");
        reveal_strlit("3");
        reveal_strlit("4");
        reveal_strlit("5");
        reveal_strlit("6");
        reveal_strlit("7");
        reveal_strlit("8");
        reveal_strlit("9");
    }
    let s = match d {
        0 => "0",
        1 => "1",
        2 => "2",
        3 => "3",
        4 => "4",
        5 => "5",
        6 => "6",
        7 => "7",
        8 => "8",
        _ => "9",
    };
    assert(s@ =~= seq![digit_char(d as nat)]);
    s
}

/// Writes `n` in decimal.
pub fn decimal_string(n: u128) -> (s: String)
    ensures
        s@ == decimal(n as nat),
    decreases n,
{
    if n < 10 {
        String::from_str(digit_str(n as u8))
    } else {
        let mut s = decimal_string(n / 10);
        s.append(digit_str((n % 10) as u8));
        assert(s@ =~= decimal(n as nat));
        s
    }
}

/// The extension that a workbook's file name carries.
pub open spec fn xlsx_extension() -> Seq<char> {
    seq!['.', 'x', 'l', 's', 'x']
}

/// Whether `name` ends with the workbook extension.
pub open spec fn has_xlsx_extension(name: Seq<char>) -> bool {
    name.len() >= 5 && name.subrange(name.len() - 5, name.len() as int) == xlsx_extension()
}

/// `name` itself where it carries the workbook extension, else `name` followed
/// by the extension.
pub open spec fn with_xlsx_extension(name: Seq<char>) -> Seq<char> {
    if has_xlsx_extension(name) {
        name
    } else {
        name + xlsx_extension()
    }
}

fn ends_with_extension(name: &str) -> (b: bool)
    ensures
        b == has_xlsx_extension(name@),
{
    let n = name.unicode_len();
    if n < 5 {
        return false;
    }
    let start = n - 5;
    let b = name.get_char(start) == '.' && name.get_char(start + 1) == 'x' && name.get_char(
        start + 2,
    ) == 'l' && name.get_char(start + 3) == 's' && name.get_char(start + 4) == 'x';
    proof {
        let tail = name@.subrange(n - 5, n as int);
        if b {
            assert(tail =~= xlsx_extension());
        } else {
            assert(tail[0] == name@[start as int]);
            assert(tail[1] == name@[start + 1]);
            assert(tail[2] == name@[start + 2]);
            assert(tail[3] == name@[start + 3]);
            assert(tail[4] == name@[start + 4]);
        }
    }
    b
}

/// Gives a download its file name: `name`, completed by the workbook extension
/// where it lacks it.
pub fn file_name_with_extension(name: String) -> (file_name: String)
    ensures
        file_name@ == with_xlsx_extension(name@),
{
    if ends_with_extension(name.as_str()) {
        name
    } else {
        proof {
            reveal_strlit(".xlsx");
        }
        let file_name = name.concat(".xlsx");
        assert(file_name@ =~= with_xlsx_extension(name@));
        file_name
    }
}

} // verus!
