//! Decimal numbers as text.
use vstd::prelude::*;

verus! {

/// The character of a decimal digit.
pub open spec fn digit(value: nat) -> char
    recommends
        value < 10,
{
    (value + 48) as char
}

/// `value` in decimal, without leading zeros.
pub open spec fn decimal(value: nat) -> Seq<char>
    decreases value,
{
    if value < 10 {
        seq![digit(value)]
    } else {
        decimal(value / 10).push(digit(value % 10))
    }
}

/// `value` in decimal, without leading zeros.
pub fn decimal_text(value: u64) -> (text: String)
    ensures
        text@ == decimal(value as nat),
    decreases value,
{
    if value < 10 {
        let mut text = String::new();
        text.push(((value as u8) + 48) as char);
        assert(text@ == seq![digit(value as nat)]);
        text
    } else {
        let mut text = decimal_text(value / 10);
        text.push((((value % 10) as u8) + 48) as char);
        text
    }
}

/// Whether `c` is an ASCII decimal digit.
pub open spec fn is_digit(c: char) -> bool {
    '0' <= c <= '9'
}

/// The number that a row of decimal digits writes.
pub open spec fn digits_value(digits: Seq<char>) -> nat
    decreases digits.len(),
{
    if digits.len() == 0 {
        0
    } else {
        digits_value(digits.drop_last()) * 10 + (digits.last() as u32 - 48) as nat
    }
}

/// `text` without the plus sign that it may begin with.
pub open spec fn without_plus(text: Seq<char>) -> Seq<char> {
    if text.len() > 0 && text.first() == '+' {
        text.drop_first()
    } else {
        text
    }
}

/// Whether `text` holds nothing but decimal digits, and at least one.
pub open spec fn all_digits(text: Seq<char>) -> bool {
    text.len() > 0 && forall|i: int| 0 <= i < text.len() ==> is_digit(#[trigger] text[i])
}

/// The 32-bit number that `text` writes: decimal digits, at least one, behind an
/// optional plus sign.
pub open spec fn parsed_u32(text: Seq<char>) -> Option<u32> {
    let digits = without_plus(text);
    if all_digits(digits) && digits_value(digits) <= u32::MAX {
        Some(digits_value(digits) as u32)
    } else {
        None
    }
}

/// A longer row of digits does not write a smaller number.
proof fn digits_value_grows(digits: Seq<char>, count: nat)
    requires
        count <= digits.len(),
    ensures
        digits_value(digits.take(count as int)) <= digits_value(digits),
    decreases digits.len() - count,
{
    if count < digits.len() {
        digits_value_grows(digits, count + 1);
        assert(digits.take(count as int + 1).drop_last() == digits.take(count as int));
    } else {
        assert(digits.take(count as int) == digits);
    }
}

/// The 32-bit number that `text` writes, if it writes one.
pub fn parse_u32(text: &[char]) -> (value: Option<u32>)
    ensures
        value == parsed_u32(text@),
{
    let skip: usize = if text.len() > 0 && text[0] == '+' { 1 } else { 0 };
    let ghost digits = without_plus(text@);
    assert(digits == text@.skip(skip as int));
    if skip == text.len() {
        return None;
    }
    let mut value: u64 = 0;
    for i in skip..text.len()
        invariant
            skip <= text@.len(),
            digits == text@.skip(skip as int),
            forall|j: int| 0 <= j < i - skip ==> is_digit(#[trigger] digits[j]),
            value == digits_value(digits.take(i - skip)),
            value <= u32::MAX,
            digits == without_plus(text@),
    {
        let c = text[i];
        assert(c == digits[i - skip]);
        if !('0' <= c && c <= '9') {
            return None;
        }
        assert(digits.take(i - skip + 1).drop_last() == digits.take(i - skip));
        value = value * 10 + (c as u64 - 48);
        if value > u32::MAX as u64 {
            proof {
                digits_value_grows(digits, (i - skip + 1) as nat);
            }
            return None;
        }
    }
    assert(digits.take(digits.len() as int) == digits);
    Some(value as u32)
}

/// A number in decimal is a row of digits that writes it.
proof fn decimal_is_digits(value: nat)
    ensures
        all_digits(decimal(value)),
        digits_value(decimal(value)) == value,
    decreases value,
{
    if value < 10 {
        let text = seq![digit(value)];
        assert(text.drop_last() =~= Seq::<char>::empty());
        assert(digits_value(text.drop_last()) == 0);
    } else {
        decimal_is_digits(value / 10);
        assert(decimal(value).drop_last() =~= decimal(value / 10));
    }
}

/// A number in decimal reads back.
pub proof fn decimal_reads_back(value: u32)
    ensures
        parsed_u32(decimal(value as nat)) == Some(value),
        all_digits(decimal(value as nat)),
{
    decimal_is_digits(value as nat);
    assert(is_digit(decimal(value as nat)[0]));
}

} // verus!
