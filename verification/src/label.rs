//! Column labels of years: the canonical decimal form of an integer.

use vstd::prelude::*;
use vstd::string::StringExecFns;

verus! {

/// The character that writes the digit `digit`.
pub open spec fn digit_char(digit: int) -> char
    recommends
        0 <= digit < 10,
{
    seq!['0', '1', '2', '3', '4', '5', '6', '7', '8', '9'][digit]
}

/// The decimal digits of a natural number, most significant first, with no
/// leading zero (zero itself is the one digit `0`).
pub open spec fn decimal_digits(number: nat) -> Seq<char>
    decreases number,
{
    if number < 10 {
        seq![digit_char(number as int)]
    } else {
        decimal_digits(number / 10).push(digit_char((number % 10) as int))
    }
}

/// The canonical decimal form of an integer: a minus sign for a negative
/// number, then the digits of its magnitude, with no separators.
pub open spec fn decimal(number: int) -> Seq<char> {
    if number < 0 {
        seq!['-'] + decimal_digits((-number) as nat)
    } else {
        decimal_digits(number as nat)
    }
}

/// The digits of a number are decimal digits, at least one of them, and
/// the first is `0` for zero alone.
pub proof fn lemma_decimal_digits_canonical(number: nat)
    ensures
        decimal_digits(number).len() >= 1,
        forall|i: int|
            0 <= i < decimal_digits(number).len() ==> '0' <= #[trigger] decimal_digits(number)[i]
                <= '9',
        number > 0 ==> decimal_digits(number)[0] != '0',
    decreases number,
{
    if number >= 10 {
        lemma_decimal_digits_canonical(number / 10);
    }
}

/// The digits of a number name that number alone.
pub proof fn lemma_decimal_digits_distinct(first: nat, second: nat)
    requires
        decimal_digits(first) == decimal_digits(second),
    ensures
        first == second,
    decreases first,
{
    lemma_decimal_digits_canonical(first);
    lemma_decimal_digits_canonical(second);
    if first >= 10 && second >= 10 {
        let a = decimal_digits(first / 10);
        let b = decimal_digits(second / 10);
        assert(a =~= decimal_digits(first).drop_last());
        assert(b =~= decimal_digits(second).drop_last());
        assert(decimal_digits(first).last() == digit_char((first % 10) as int));
        assert(decimal_digits(second).last() == digit_char((second % 10) as int));
        lemma_decimal_digits_distinct(first / 10, second / 10);
    } else if first >= 10 {
        lemma_decimal_digits_canonical(first / 10);
    } else if second >= 10 {
        lemma_decimal_digits_canonical(second / 10);
    } else {
        assert(decimal_digits(first)[0] == digit_char(first as int));
        assert(decimal_digits(second)[0] == digit_char(second as int));
    }
}

/// Two integers have one decimal form only where they are equal, so a
/// label stands for one year.
pub proof fn lemma_decimal_distinct(first: int, second: int)
    requires
        decimal(first) == decimal(second),
    ensures
        first == second,
{
    let a = if first < 0 { (-first) as nat } else { first as nat };
    let b = if second < 0 { (-second) as nat } else { second as nat };
    lemma_decimal_digits_canonical(a);
    lemma_decimal_digits_canonical(b);
    if first < 0 && second < 0 {
        assert(decimal(first).subrange(1, decimal(first).len() as int) =~= decimal_digits(a));
        assert(decimal(second).subrange(1, decimal(second).len() as int) =~= decimal_digits(b));
        lemma_decimal_digits_distinct(a, b);
    } else if first >= 0 && second >= 0 {
        lemma_decimal_digits_distinct(a, b);
    } else if first < 0 {
        assert(decimal(first)[0] == '-');
        assert('0' <= decimal_digits(b)[0]);
    } else {
        assert(decimal(second)[0] == '-');
        assert('0' <= decimal_digits(a)[0]);
    }
}

/// The text of one decimal digit.
fn digit_text(digit: u64) -> (text: &'static str)
    requires
        digit < 10,
    ensures
        text@ == seq![digit_char(digit as int)],
{
    proof {
        reveal_strlit("0");
        reveal_strlit("1");
        reveal_strlit("2");
        reveal_strlit("3");
        reveal_strlit("4");
        reveal_strlit("5");
        reveal_strlit("6");
        reveal_strlit("7");
        reveal_strlit("8");
        reveal_strlit("9");
    }
    let text = if digit == 0 {
        "0"
    } else if digit == 1 {
        "1"
    } else if digit == 2 {
        "2"
    } else if digit == 3 {
        "3"
    } else if digit == 4 {
        "4"
    } else if digit == 5 {
        "5"
    } else if digit == 6 {
        "6"
    } else if digit == 7 {
        "7"
    } else if digit == 8 {
        "8"
    } else {
        "9"
    };
    assert(text@ =~= seq![digit_char(digit as int)]);
    text
}

/// Writes the digits of `number` at the end of `label`.
fn push_decimal(label: &mut String, number: u64)
    ensures
        final(label)@ == old(label)@ + decimal_digits(number as nat),
    decreases number,
{
    if number >= 10 {
        push_decimal(label, number / 10);
    }
    let ghost before = label@;
    label.append(digit_text(number % 10));
    proof {
        if number >= 10 {
            assert(before + seq![digit_char((number % 10) as int)] =~= old(label)@
                + decimal_digits(number as nat));
        }
    }
}

/// The label under which a year's column stands in a table's header.
pub fn year_label(year: i32) -> (label: String)
    ensures
        label@ == decimal(year as int),
{
    let wide: i64 = year as i64;
    let mut label = String::new();
    if wide < 0 {
        proof {
            reveal_strlit("-");
        }
        label.append("-");
        assert(label@ =~= seq!['-']);
        push_decimal(&mut label, (-wide) as u64);
    } else {
        push_decimal(&mut label, wide as u64);
        assert(label@ =~= decimal(year as int));
    }
    label
}

} // verus!
