//! Numbers as text.

use vstd::prelude::*;
use vstd::string::StringExecFns;

verus! {

/// The character of a digit.
pub open spec fn digit(value: nat) -> char {
    if value < 10 {
        ('0' as int + value) as char
    } else {
        ('a' as int + value - 10) as char
    }
}

/// The decimal digits of a number, without leading zeros.
pub open spec fn decimal_digits(value: nat) -> Seq<char>
    decreases value,
{
    if value < 10 {
        seq![digit(value)]
    } else {
        decimal_digits(value / 10).push(digit(value % 10))
    }
}

/// The lowercase hexadecimal digits of bytes, two for each.
pub open spec fn hex_digits(bytes: Seq<u8>) -> Seq<char>
    decreases bytes.len(),
{
    if bytes.len() == 0 {
        Seq::empty()
    } else {
        hex_digits(bytes.drop_last()).push(digit((bytes.last() / 16) as nat)).push(
            digit((bytes.last() % 16) as nat),
        )
    }
}

fn digit_text(value: u8) -> (text: &'static str)
    requires
        value < 16,
    ensures
        text@ == seq![digit(value as nat)],
{
    proof {
        reveal_strlit("0");
        reveal_strlit("1");
        reveal_strlit("2");
        reveal_strlit("3");
        reveal_strlit("4");
        reveal_strlit("5");
        reveal_strlit("6");
        reveal_strlit("7");
        reveal_strlit("8");
        reveal_strlit("9");
        reveal_strlit("a");
        reveal_strlit("b");
        reveal_strlit("c");
        reveal_strlit("d");
        reveal_strlit("e");
        reveal_strlit("f");
    }
    let text: &'static str = match value {
        0 => "0",
        1 => "1",
        2 => "2",
        3 => "3",
        4 => "4",
        5 => "5",
        6 => "6",
        7 => "7",
        8 => "8",
        9 => "9",
        10 => "a",
        11 => "b",
        12 => "c",
        13 => "d",
        14 => "e",
        _ => "f",
    };
    assert(text@ =~= seq![digit(value as nat)]);
    text
}

/// Writes a number in decimal.
pub fn decimal(value: u64) -> (text: String)
    ensures
        text@ == decimal_digits(value as nat),
        is_number(text@),
        number_in(text@) == value,
    decreases value,
{
    proof {
        law_decimal_reads_back(value as nat);
    }
    if value < 10 {
        String::from_str(digit_text(value as u8))
    } else {
        let mut text = decimal(value / 10);
        text.append(digit_text((value % 10) as u8));
        assert(text@ =~= decimal_digits(value as nat));
        text
    }
}

/// A decimal number holds no colon.
pub proof fn lemma_decimal_has_no_colon(value: nat)
    ensures
        !decimal_digits(value).contains(':'),
    decreases value,
{
    let text = decimal_digits(value);
    if value >= 10 {
        lemma_decimal_has_no_colon(value / 10);
        let rest = decimal_digits(value / 10);
        assert forall|i: int| 0 <= i < text.len() implies text[i] != ':' by {
            if i < rest.len() {
                assert(text[i] == rest[i]);
                assert(rest.contains(rest[i]));
            }
        }
    }
}

/// Different numbers have different digits.
pub proof fn lemma_decimal_is_injective(a: nat, b: nat)
    requires
        decimal_digits(a) == decimal_digits(b),
    ensures
        a == b,
    decreases a,
{
    let (x, y) = (decimal_digits(a), decimal_digits(b));
    lemma_decimal_nonempty(a / 10);
    lemma_decimal_nonempty(b / 10);
    assert(x.last() == y.last());
    assert(digit(a % 10) == x.last());
    assert(digit(b % 10) == y.last());
    if a >= 10 && b >= 10 {
        assert(decimal_digits(a / 10) =~= x.drop_last());
        assert(decimal_digits(b / 10) =~= y.drop_last());
        lemma_decimal_is_injective(a / 10, b / 10);
    }
}

proof fn lemma_decimal_nonempty(value: nat)
    ensures
        decimal_digits(value).len() > 0,
    decreases value,
{
    if value >= 10 {
        lemma_decimal_nonempty(value / 10);
    }
}

/// The decimal digits of a number, with a minus sign where it is negative.
pub open spec fn signed_digits(value: int) -> Seq<char> {
    if value < 0 {
        "-"@ + decimal_digits((-value) as nat)
    } else {
        decimal_digits(value as nat)
    }
}

/// Writes a number in decimal, with a minus sign where it is negative.
pub fn signed_decimal(value: i32) -> (text: String)
    ensures
        text@ == signed_digits(value as int),
        signed_number_in(text@) == value,
{
    proof {
        law_signed_reads_back(value as int);
    }
    if value < 0 {
        let mut text = String::from_str("-");
        let magnitude: i64 = -(value as i64);
        text.append(decimal(magnitude as u64).as_str());
        text
    } else {
        decimal(value as u64)
    }
}

/// Writes bytes in lowercase hexadecimal, two digits for each.
pub fn hex(bytes: &Vec<u8>) -> (text: String)
    ensures
        text@ == hex_digits(bytes@),
        text@.len() == 2 * bytes@.len(),
        forall|i: int|
            0 <= i < bytes@.len() ==> #[trigger] bytes@[i] == 16 * hex_value(text@[2 * i])
                + hex_value(text@[2 * i + 1]),
{
    proof {
        law_hex_reads_back(bytes@);
    }
    let mut text = String::new();
    let mut index: usize = 0;
    while index < bytes.len()
        invariant
            index <= bytes.len(),
            text@ == hex_digits(bytes@.take(index as int)),
        decreases bytes.len() - index,
    {
        let byte: u8 = bytes[index];
        text.append(digit_text(byte / 16));
        text.append(digit_text(byte % 16));
        proof {
            let next = bytes@.take(index + 1);
            assert(next.drop_last() =~= bytes@.take(index as int));
            assert(text@ =~= hex_digits(next));
        }
        index = index + 1;
    }
    assert(bytes@.take(index as int) =~= bytes@);
    text
}

/// A character is a decimal digit.
pub open spec fn is_digit(c: char) -> bool {
    '0' as int <= c as int <= '9' as int
}

/// A text is a number without leading zeros.
pub open spec fn is_number(text: Seq<char>) -> bool {
    &&& text.len() > 0
    &&& forall|i: int| 0 <= i < text.len() ==> is_digit(#[trigger] text[i])
    &&& text.len() > 1 ==> text[0] != '0'
}

/// The number that decimal digits stand for.
pub open spec fn number_in(text: Seq<char>) -> int
    decreases text.len(),
{
    if text.len() == 0 {
        0
    } else {
        10 * number_in(text.drop_last()) + (text.last() as int - '0' as int)
    }
}

/// The number that decimal digits stand for, after a minus sign its opposite.
pub open spec fn signed_number_in(text: Seq<char>) -> int {
    if text.len() > 0 && text[0] == '-' {
        -number_in(text.skip(1))
    } else {
        number_in(text)
    }
}

/// The value of a hexadecimal digit, if it is a lowercase one.
pub open spec fn hex_value(c: char) -> int {
    if is_digit(c) {
        c as int - '0' as int
    } else if 'a' as int <= c as int <= 'f' as int {
        c as int - 'a' as int + 10
    } else {
        -1
    }
}

/// Reading the digits of a number gives the number back; they are digits only, and the first is
/// zero for nothing but zero.
pub proof fn law_decimal_reads_back(value: nat)
    ensures
        is_number(decimal_digits(value)),
        number_in(decimal_digits(value)) == value,
        value > 0 ==> decimal_digits(value)[0] != '0',
    decreases value,
{
    let text = decimal_digits(value);
    if value >= 10 {
        law_decimal_reads_back(value / 10);
        assert(text.drop_last() =~= decimal_digits(value / 10));
        assert(text[0] == decimal_digits(value / 10)[0]);
        assert forall|i: int| 0 <= i < text.len() implies is_digit(#[trigger] text[i]) by {
            if i < text.len() - 1 {
                assert(text[i] == decimal_digits(value / 10)[i]);
            }
        }
    } else {
        reveal_with_fuel(number_in, 2);
        assert(text.drop_last() =~= Seq::<char>::empty());
    }
}

/// Reading a signed number gives it back.
pub proof fn law_signed_reads_back(value: int)
    ensures
        signed_number_in(signed_digits(value)) == value,
        signed_digits(value)[0] == '-' <==> value < 0,
        signed_digits(value).len() > 0,
        forall|i: int|
            0 <= i < signed_digits(value).len() ==> is_digit(#[trigger] signed_digits(value)[i])
                || signed_digits(value)[i] == '-',
{
    reveal_strlit("-");
    if value < 0 {
        law_decimal_reads_back((-value) as nat);
        assert(signed_digits(value).skip(1) =~= decimal_digits((-value) as nat));
        assert forall|i: int| 0 <= i < signed_digits(value).len() implies is_digit(
            #[trigger] signed_digits(value)[i],
        ) || signed_digits(value)[i] == '-' by {
            if i > 0 {
                assert(signed_digits(value)[i] == decimal_digits((-value) as nat)[i - 1]);
            }
        }
    } else {
        law_decimal_reads_back(value as nat);
    }
}

/// Reading two hexadecimal digits at a time gives the bytes back.
pub proof fn law_hex_reads_back(bytes: Seq<u8>)
    ensures
        hex_digits(bytes).len() == 2 * bytes.len(),
        forall|i: int|
            0 <= i < bytes.len() ==> #[trigger] bytes[i] == 16 * hex_value(hex_digits(bytes)[2 * i])
                + hex_value(hex_digits(bytes)[2 * i + 1]),
        forall|i: int|
            0 <= i < hex_digits(bytes).len() ==> 0 <= hex_value(#[trigger] hex_digits(bytes)[i])
                < 16,
    decreases bytes.len(),
{
    if bytes.len() > 0 {
        let rest = bytes.drop_last();
        let text = hex_digits(bytes);
        law_hex_reads_back(rest);
        assert forall|i: int| 0 <= i < bytes.len() implies #[trigger] bytes[i] == 16 * hex_value(
            text[2 * i],
        ) + hex_value(text[2 * i + 1]) by {
            if i < rest.len() {
                assert(rest[i] == bytes[i]);
                assert(text[2 * i] == hex_digits(rest)[2 * i]);
                assert(text[2 * i + 1] == hex_digits(rest)[2 * i + 1]);
            } else {
                assert(text[2 * i] == digit((bytes.last() / 16) as nat));
                assert(text[2 * i + 1] == digit((bytes.last() % 16) as nat));
            }
        }
        assert forall|i: int| 0 <= i < text.len() implies 0 <= hex_value(#[trigger] text[i])
            < 16 by {
            if i < 2 * rest.len() {
                assert(text[i] == hex_digits(rest)[i]);
            } else if i == 2 * rest.len() {
                assert(text[i] == digit((bytes.last() / 16) as nat));
            } else {
                assert(text[i] == digit((bytes.last() % 16) as nat));
            }
        }
    }
}

/// Different bytes have different hexadecimal digits.
pub proof fn lemma_hex_is_injective(a: Seq<u8>, b: Seq<u8>)
    requires
        hex_digits(a) == hex_digits(b),
    ensures
        a == b,
{
    law_hex_reads_back(a);
    law_hex_reads_back(b);
    assert(a =~= b);
}

/// Where two texts end in a number after the same label, and the label does not end in a digit,
/// equal texts have equal numbers, and what is before the labels is equal.
pub proof fn lemma_cut_number(x: Seq<char>, y: Seq<char>, label: Seq<char>, a: nat, b: nat)
    requires
        x + label + decimal_digits(a) == y + label + decimal_digits(b),
        label.len() > 0,
        !is_digit(label.last()),
    ensures
        a == b,
        x == y,
{
    let (whole, other) = (x + label + decimal_digits(a), y + label + decimal_digits(b));
    let (m, n) = (decimal_digits(a).len(), decimal_digits(b).len());
    law_decimal_reads_back(a);
    law_decimal_reads_back(b);
    assert(whole[whole.len() - m - 1] == label.last());
    assert(other[other.len() - n - 1] == label.last());
    if m < n {
        assert(other[other.len() - m - 1] == decimal_digits(b)[n - m - 1]);
    } else if n < m {
        assert(whole[whole.len() - n - 1] == decimal_digits(a)[m - n - 1]);
    }
    assert(decimal_digits(a) =~= whole.skip(whole.len() - m));
    assert(decimal_digits(b) =~= other.skip(other.len() - n));
    lemma_decimal_is_injective(a, b);
    assert(x =~= whole.take(x.len() as int));
    assert(y =~= other.take(y.len() as int));
}

/// Where two texts begin with a number, and no digit follows it, equal texts have equal numbers,
/// and what follows is equal.
pub proof fn lemma_cut_first_number(a: nat, b: nat, x: Seq<char>, y: Seq<char>)
    requires
        decimal_digits(a) + x == decimal_digits(b) + y,
        x.len() > 0 ==> !is_digit(x[0]),
        y.len() > 0 ==> !is_digit(y[0]),
    ensures
        a == b,
        x == y,
{
    let (whole, other) = (decimal_digits(a) + x, decimal_digits(b) + y);
    let (m, n) = (decimal_digits(a).len(), decimal_digits(b).len());
    law_decimal_reads_back(a);
    law_decimal_reads_back(b);
    if m < n {
        assert(other[m as int] == decimal_digits(b)[m as int]);
        assert(whole[m as int] == x[0]);
    } else if n < m {
        assert(whole[n as int] == decimal_digits(a)[n as int]);
        assert(other[n as int] == y[0]);
    }
    assert(decimal_digits(a) =~= whole.take(m as int));
    assert(decimal_digits(b) =~= other.take(n as int));
    lemma_decimal_is_injective(a, b);
    assert(x =~= whole.skip(m as int));
    assert(y =~= other.skip(n as int));
}

/// A text holds a label with a number after it, and no digit follows the number.
pub open spec fn shows(text: Seq<char>, label: Seq<char>, number: nat) -> bool {
    exists|before: Seq<char>| #[trigger] is_shown_after(text, before, label, number)
}

/// A text begins with some text, a label and a number, and no digit follows the number.
pub open spec fn is_shown_after(
    text: Seq<char>,
    before: Seq<char>,
    label: Seq<char>,
    number: nat,
) -> bool {
    let shown = before + label + decimal_digits(number);
    &&& shown.is_prefix_of(text)
    &&& shown.len() < text.len() ==> !is_digit(text[shown.len() as int])
}

/// A number at the end of what a text begins with is shown after its label, and what is before the
/// label is at the start of the text too, with no digit after it.
pub proof fn lemma_shown(
    text: Seq<char>,
    before: Seq<char>,
    label: Seq<char>,
    number: nat,
    whole: Seq<char>,
)
    requires
        whole == before + label + decimal_digits(number),
        whole.is_prefix_of(text),
        whole.len() < text.len() ==> !is_digit(text[whole.len() as int]),
        label.len() > 0,
        !is_digit(label[0]),
    ensures
        shows(text, label, number),
        before.is_prefix_of(text),
        before.len() < text.len() ==> !is_digit(text[before.len() as int]),
{
    assert(is_shown_after(text, before, label, number));
    assert(before =~= text.take(before.len() as int));
    assert(whole[before.len() as int] == label[0]);
    assert(text.take(whole.len() as int)[before.len() as int] == label[0]);
}

/// The same of a second number, with a number and a label before it.
pub proof fn lemma_second_shown(
    text: Seq<char>,
    before: Seq<char>,
    label: Seq<char>,
    number: nat,
    second_label: Seq<char>,
    second: nat,
    whole: Seq<char>,
)
    requires
        whole == before + label + decimal_digits(number) + second_label + decimal_digits(second),
        whole.is_prefix_of(text),
        whole.len() < text.len() ==> !is_digit(text[whole.len() as int]),
    ensures
        shows(text, label + decimal_digits(number) + second_label, second),
{
    let longer = label + decimal_digits(number) + second_label;
    assert(before + longer + decimal_digits(second) =~= whole);
    assert(is_shown_after(text, before, longer, second));
}

/// The same of a third number.
pub proof fn lemma_third_shown(
    text: Seq<char>,
    before: Seq<char>,
    label: Seq<char>,
    number: nat,
    second_label: Seq<char>,
    second: nat,
    third_label: Seq<char>,
    third: nat,
    whole: Seq<char>,
)
    requires
        whole == before + label + decimal_digits(number) + second_label + decimal_digits(second)
            + third_label + decimal_digits(third),
        whole.is_prefix_of(text),
        whole.len() < text.len() ==> !is_digit(text[whole.len() as int]),
    ensures
        shows(
            text,
            label + decimal_digits(number) + second_label + decimal_digits(second) + third_label,
            third,
        ),
{
    let longer = label + decimal_digits(number) + second_label + decimal_digits(second)
        + third_label;
    assert(before + longer + decimal_digits(third) =~= whole);
    assert(is_shown_after(text, before, longer, third));
}

} // verus!
