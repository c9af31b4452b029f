//! Decimal numbers in text, written and read.

use vstd::prelude::*;
use vstd::string::*;

verus! {

/// The decimal digit for a value below ten.
pub open spec fn digit_char(value: nat) -> char {
    (('0' as u32) + value) as char
}

/// A number in decimal, without leading zeros.
pub open spec fn decimal(value: nat) -> Seq<char>
    decreases value,
{
    if value < 10 {
        seq![digit_char(value)]
    } else {
        decimal(value / 10).push(digit_char(value % 10))
    }
}

/// A signed number in decimal, a minus sign before a negative one.
pub open spec fn signed_decimal(value: int) -> Seq<char> {
    if value < 0 {
        seq!['-'] + decimal((-value) as nat)
    } else {
        decimal(value as nat)
    }
}

/// The executable form of [`digit_char`].
fn digit(value: u8) -> (ch: char)
    requires
        value < 10,
    ensures
        ch == digit_char(value as nat),
{
    (48u8 + value) as char
}

/// Appends `value` in decimal to `text`.
pub fn append_decimal(text: &mut String, value: u128)
    ensures
        final(text)@ == old(text)@ + decimal(value as nat),
    decreases value,
{
    if value >= 10 {
        append_decimal(text, value / 10);
    }
    text.push(digit((value % 10) as u8));
}

/// `value` in decimal.
pub fn decimal_text(value: u128) -> (text: String)
    ensures
        text@ == decimal(value as nat),
{
    let mut text = String::new();
    append_decimal(&mut text, value);
    text
}

/// Appends a signed `value` in decimal to `text`.
pub fn append_signed(text: &mut String, value: i32)
    ensures
        final(text)@ == old(text)@ + signed_decimal(value as int),
{
    if value < 0 {
        text.push('-');
        append_decimal(text, (-(value as i64)) as u128);
    } else {
        append_decimal(text, value as u128);
    }
}

/// Whether a character is an ASCII decimal digit.
pub open spec fn is_digit(ch: char) -> bool {
    '0' <= ch <= '9'
}

/// The value of a digit.
pub open spec fn digit_value(ch: char) -> nat {
    (ch as u32 - '0' as u32) as nat
}

/// The value of a row of decimal digits.
pub open spec fn digits_value(digits: Seq<char>) -> nat
    decreases digits.len(),
{
    if digits.len() == 0 {
        0
    } else {
        digits_value(digits.drop_last()) * 10 + digit_value(digits.last())
    }
}

/// The digits of an unsigned number: what follows an optional plus sign.
pub open spec fn unsigned_digits(text: Seq<char>) -> Seq<char> {
    if text.len() > 0 && text[0] == '+' {
        text.drop_first()
    } else {
        text
    }
}

/// The number that `text` writes, if it is an optional plus sign and one or
/// more decimal digits, and the number is at most `max`.
pub open spec fn parsed_unsigned(text: Seq<char>, max: nat) -> Option<nat> {
    let digits = unsigned_digits(text);
    if digits.len() > 0 && (forall|i: int| 0 <= i < digits.len() ==> #[trigger] is_digit(digits[i]))
        && digits_value(digits) <= max {
        Some(digits_value(digits))
    } else {
        None
    }
}

/// More digits never make a smaller number.
proof fn lemma_prefix_value(digits: Seq<char>, n: int)
    requires
        0 <= n <= digits.len(),
        forall|i: int| 0 <= i < digits.len() ==> #[trigger] is_digit(digits[i]),
    ensures
        digits_value(digits.take(n)) <= digits_value(digits),
    decreases digits.len() - n,
{
    if n == digits.len() {
        assert(digits.take(n) == digits);
    } else {
        assert(digits.take(n + 1).drop_last() == digits.take(n));
        lemma_prefix_value(digits, n + 1);
    }
}

/// Reads an unsigned decimal number of at most `max`.
pub fn parse_unsigned(chars: &[char], max: u32) -> (number: Option<u32>)
    ensures
        match number {
            Some(number) => parsed_unsigned(chars@, max as nat) == Some(number as nat),
            None => parsed_unsigned(chars@, max as nat) is None,
        },
{
    let start: usize = if chars.len() > 0 && chars[0] == '+' { 1 } else { 0 };
    let ghost digits = unsigned_digits(chars@);
    assert(digits == chars@.skip(start as int));
    if start == chars.len() {
        return None;
    }
    let mut value: u32 = 0;
    let mut i: usize = start;
    while i < chars.len()
        invariant
            start <= i <= chars@.len(),
            start < chars@.len(),
            digits == chars@.skip(start as int),
            digits == unsigned_digits(chars@),
            value == digits_value(digits.take(i - start)),
            value <= max,
            forall|j: int| 0 <= j < i - start ==> #[trigger] is_digit(digits[j]),
        decreases chars@.len() - i,
    {
        let ch: char = chars[i];
        if ch < '0' || ch > '9' {
            assert(!is_digit(digits[i - start]));
            return None;
        }
        assert(digits.take(i - start + 1).drop_last() == digits.take(i - start));
        assert(digits[i - start] == ch);
        let next: u64 = value as u64 * 10 + (ch as u32 - 48) as u64;
        assert(next == digits_value(digits.take(i - start + 1)));
        if next > max as u64 {
            proof {
                if forall|j: int| 0 <= j < digits.len() ==> #[trigger] is_digit(digits[j]) {
                    lemma_prefix_value(digits, i - start + 1);
                }
            }
            return None;
        }
        value = next as u32;
        i += 1;
    }
    assert(digits.take(i - start) == digits);
    Some(value)
}

/// Writing a number and reading it back gives the number.
pub proof fn law_decimal_reads_back(value: nat, max: nat)
    requires
        value <= max,
    ensures
        parsed_unsigned(decimal(value), max) == Some(value),
{
    lemma_decimal_digits(value);
}

/// A number in decimal is one or more digits of its value.
pub proof fn lemma_decimal_digits(value: nat)
    ensures
        decimal(value).len() > 0,
        forall|i: int| 0 <= i < decimal(value).len() ==> #[trigger] is_digit(decimal(value)[i]),
        digits_value(decimal(value)) == value,
        unsigned_digits(decimal(value)) == decimal(value),
    decreases value,
{
    if value >= 10 {
        lemma_decimal_digits(value / 10);
        assert(decimal(value).drop_last() == decimal(value / 10));
        assert(is_digit(digit_char(value % 10)));
        assert forall|i: int| 0 <= i < decimal(value).len() implies #[trigger] is_digit(
            decimal(value)[i],
        ) by {
            if i < decimal(value / 10).len() {
                assert(is_digit(decimal(value / 10)[i]));
            }
        }
    } else {
        assert(decimal(value).drop_last() == Seq::<char>::empty());
        assert(is_digit(digit_char(value)));
        assert(digits_value(Seq::<char>::empty()) == 0);
    }
    assert(is_digit(decimal(value)[0]));
}

/// A row of zeros.
pub open spec fn zero_row(zeros: nat) -> Seq<char> {
    Seq::new(zeros, |i: int| '0')
}

/// A way to write a number: a plus sign or none, any number of zeros, and the
/// number in decimal.
pub open spec fn number_text(plus: bool, zeros: nat, value: nat) -> Seq<char> {
    (if plus {
        seq!['+']
    } else {
        Seq::empty()
    }) + zero_row(zeros) + decimal(value)
}

/// A number in decimal starts with a zero only if it is zero.
pub proof fn law_decimal_has_no_leading_zero(value: nat)
    ensures
        decimal(value)[0] == '0' <==> value == 0,
        decimal(value).len() == 1 <==> value < 10,
    decreases value,
{
    if value >= 10 {
        law_decimal_has_no_leading_zero(value / 10);
        lemma_decimal_digits(value / 10);
        assert(decimal(value)[0] == decimal(value / 10)[0]);
    }
}

/// A signed number is its decimal form, after a minus sign if it is negative.
pub proof fn law_signed_decimal(value: nat)
    ensures
        signed_decimal(value as int) == decimal(value),
        value > 0 ==> signed_decimal(-value) == seq!['-'] + decimal(value),
{
}

proof fn lemma_leading_zero(digits: Seq<char>)
    ensures
        digits_value(seq!['0'] + digits) == digits_value(digits),
    decreases digits.len(),
{
    let longer = seq!['0'] + digits;
    if digits.len() == 0 {
        assert(longer.drop_last() =~= Seq::empty());
        assert(digits_value(Seq::<char>::empty()) == 0);
    } else {
        assert(longer.drop_last() =~= seq!['0'] + digits.drop_last());
        lemma_leading_zero(digits.drop_last());
    }
}

proof fn lemma_leading_zeros(zeros: nat, value: nat)
    ensures
        digits_value(zero_row(zeros) + decimal(value)) == value,
        forall|i: int|
            0 <= i < zeros + decimal(value).len() ==> is_digit(
                #[trigger] (zero_row(zeros) + decimal(value))[i],
            ),
    decreases zeros,
{
    let row = zero_row(zeros);
    lemma_decimal_digits(value);
    if zeros == 0 {
        assert(row + decimal(value) =~= decimal(value));
    } else {
        let fewer = zero_row((zeros - 1) as nat);
        lemma_leading_zeros((zeros - 1) as nat, value);
        lemma_leading_zero(fewer + decimal(value));
        assert(row + decimal(value) =~= seq!['0'] + (fewer + decimal(value)));
    }
    assert forall|i: int| 0 <= i < zeros + decimal(value).len() implies is_digit(
        #[trigger] (row + decimal(value))[i],
    ) by {
        if i >= zeros {
            assert(is_digit(decimal(value)[i - zeros]));
        }
    }
}

/// However a number is written, it is read back if it is not too large, and
/// refused if it is.
pub proof fn law_written_number_is_read(plus: bool, zeros: nat, value: nat, max: nat)
    ensures
        parsed_unsigned(number_text(plus, zeros, value), max) == if value <= max {
            Some(value)
        } else {
            None
        },
{
    let text = number_text(plus, zeros, value);
    let digits = zero_row(zeros) + decimal(value);
    lemma_leading_zeros(zeros, value);
    lemma_decimal_digits(value);
    if plus {
        assert(text.drop_first() =~= digits);
    } else {
        assert(text =~= digits);
        assert(is_digit(digits[0]));
    }
    assert(unsigned_digits(text) == digits);
    assert forall|i: int| 0 <= i < digits.len() implies #[trigger] is_digit(digits[i]) by {
        assert(is_digit((zero_row(zeros) + decimal(value))[i]));
    }
}

proof fn lemma_digits_write_their_value(digits: Seq<char>) -> (zeros: nat)
    requires
        digits.len() > 0,
        forall|i: int| 0 <= i < digits.len() ==> #[trigger] is_digit(digits[i]),
    ensures
        digits == zero_row(zeros) + decimal(digits_value(digits)),
    decreases digits.len(),
{
    let before = digits.drop_last();
    let last = digits.last();
    assert(is_digit(digits[digits.len() - 1]));
    assert(digit_char(digit_value(last)) == last);
    if before.len() == 0 {
        assert(digits_value(before) == 0);
        assert(digits =~= zero_row(0) + decimal(digits_value(digits)));
        0
    } else {
        assert forall|i: int| 0 <= i < before.len() implies #[trigger] is_digit(before[i]) by {
            assert(is_digit(digits[i]));
        }
        let zeros = lemma_digits_write_their_value(before);
        let value = digits_value(before);
        if value == 0 {
            assert(decimal(value) =~= seq!['0']);
            assert(decimal(digits_value(digits)) =~= seq![last]);
            assert(digits =~= before + seq![last]);
            assert(before =~= zero_row((zeros + 1) as nat));
            assert(digits =~= zero_row((zeros + 1) as nat) + decimal(
                digits_value(digits),
            ));
            zeros + 1
        } else {
            assert(decimal(digits_value(digits)) == decimal(value).push(last));
            assert(digits =~= before.push(last));
            assert(before == zero_row(zeros) + decimal(value));
            assert(digits =~= zero_row(zeros) + decimal(digits_value(digits)));
            zeros
        }
    }
}

/// What is read as a number is the number, written in one way or another, and
/// not too large.
pub proof fn law_only_numbers_are_read(text: Seq<char>, max: nat)
    ensures
        parsed_unsigned(text, max) matches Some(value) ==> {
            &&& value <= max
            &&& exists|plus: bool, zeros: nat| #[trigger] number_text(plus, zeros, value) == text
        },
{
    if let Some(value) = parsed_unsigned(text, max) {
        let digits = unsigned_digits(text);
        let zeros = lemma_digits_write_their_value(digits);
        let plus = text[0] == '+';
        if plus {
            assert(text =~= seq!['+'] + digits);
        }
        assert(number_text(plus, zeros, value) =~= text);
    }
}

/// One more digit makes ten times the value, and its own.
pub proof fn law_digits_in_a_row(digits: Seq<char>, ch: char)
    requires
        '0' <= ch <= '9',
    ensures
        digits_value(Seq::empty()) == 0,
        digits_value(digits.push(ch)) == 10 * digits_value(digits) + (ch as u32 - 48),
{
    assert(digits.push(ch).drop_last() =~= digits);
}

} // verus!
