//! Unsigned numbers as text: decimal and hexadecimal digits, and reading
//! decimal digits back.
use vstd::prelude::*;

use crate::text::chars_of;

verus! {

/// The character of a decimal digit.
pub open spec fn digit_char(digit: int) -> char {
    ('0' as int + digit) as char
}

/// The decimal digits of a number, without leading zeros.
pub open spec fn decimal(n: nat) -> Seq<char>
    decreases n,
{
    if n < 10 {
        seq![digit_char(n as int)]
    } else {
        decimal(n / 10).push(digit_char((n % 10) as int))
    }
}

/// The character of a decimal digit.
fn digit_to_char(digit: u8) -> (c: char)
    requires
        digit < 10,
    ensures
        c == digit_char(digit as int),
{
    (48 + digit) as char
}

/// Writes a number in decimal digits.
pub fn decimal_text(n: u64) -> (text: String)
    ensures
        text@ == decimal(n as nat),
    decreases n,
{
    let mut text = if n < 10 {
        String::new()
    } else {
        decimal_text(n / 10)
    };
    text.push(digit_to_char((n % 10) as u8));
    assert(n < 10 ==> text@ =~= seq![digit_char(n as int)]);
    text
}

/// A decimal digit.
pub open spec fn is_digit(c: char) -> bool {
    '0' <= c <= '9'
}

/// The number that decimal digits stand for.
pub open spec fn digits_value(digits: Seq<char>) -> nat
    decreases digits.len(),
{
    if digits.len() == 0 {
        0
    } else {
        digits_value(digits.drop_last()) * 10 + (digits.last() as nat - '0' as nat) as nat
    }
}

/// The digits of a text that may start with a plus sign.
pub open spec fn unsigned_digits(s: Seq<char>) -> Seq<char> {
    if s.len() > 0 && s[0] == '+' {
        s.drop_first()
    } else {
        s
    }
}

/// The number that a text stands for: digits, at least one, perhaps behind a
/// plus sign, with a value of at most `max`.
pub open spec fn unsigned_value(s: Seq<char>, max: nat) -> Option<nat> {
    let digits = unsigned_digits(s);
    if digits.len() > 0 && (forall|i: int| 0 <= i < digits.len() ==> is_digit(#[trigger] digits[i]))
        && digits_value(digits) <= max {
        Some(digits_value(digits))
    } else {
        None
    }
}

/// A number as the spec functions of this file hold it.
pub open spec fn nat_of(n: Option<u64>) -> Option<nat> {
    match n {
        Some(value) => Some(value as nat),
        None => None,
    }
}

proof fn lemma_digits_value_prefix(digits: Seq<char>, i: int)
    requires
        0 <= i <= digits.len(),
        forall|j: int| 0 <= j < digits.len() ==> is_digit(#[trigger] digits[j]),
    ensures
        digits_value(digits.take(i)) <= digits_value(digits),
    decreases digits.len() - i,
{
    if i < digits.len() {
        assert(digits.take(i + 1).drop_last() =~= digits.take(i));
        lemma_digits_value_prefix(digits, i + 1);
    } else {
        assert(digits.take(i) =~= digits);
    }
}

/// Reads a number of at most `max`.
pub fn parse_unsigned(s: &str, max: u64) -> (result: Option<u64>)
    ensures
        nat_of(result) == unsigned_value(s@, max as nat),
{
    let chars = chars_of(s);
    let start: usize = if chars.len() > 0 && chars[0] == '+' {
        1
    } else {
        0
    };
    let ghost digits = unsigned_digits(s@);
    assert(digits =~= chars@.skip(start as int));
    if start == chars.len() {
        return None;
    }
    let mut value: u64 = 0;
    let mut i: usize = start;
    assert(digits.take(0) =~= Seq::empty());
    while i < chars.len()
        invariant
            start <= i <= chars@.len(),
            digits == unsigned_digits(s@),
            digits == chars@.skip(start as int),
            value == digits_value(digits.take(i - start)),
            value <= max,
            forall|j: int| 0 <= j < i - start ==> is_digit(#[trigger] digits[j]),
        decreases chars@.len() - i,
    {
        let c = chars[i];
        assert(digits[i - start] == c);
        if c < '0' || c > '9' {
            return None;
        }
        let digit: u64 = (c as u64) - 48;
        proof {
            let k = i - start;
            assert(digits.take(k + 1).drop_last() =~= digits.take(k));
            if forall|j: int| 0 <= j < digits.len() ==> is_digit(#[trigger] digits[j]) {
                lemma_digits_value_prefix(digits, k + 1);
            }
        }
        if value > max / 10 || digit > max - value * 10 {
            return None;
        }
        value = value * 10 + digit;
        i += 1;
    }
    assert(digits.take(i - start) =~= digits);
    Some(value)
}

/// Reads a number of 16 bits.
pub fn parse_u16(s: &str) -> (result: Option<u16>)
    ensures
        match result {
            Some(value) => unsigned_value(s@, u16::MAX as nat) == Some(value as nat),
            None => unsigned_value(s@, u16::MAX as nat) is None,
        },
{
    match parse_unsigned(s, u16::MAX as u64) {
        Some(value) => Some(value as u16),
        None => None,
    }
}

/// Reads a number of 32 bits.
pub fn parse_u32(s: &str) -> (result: Option<u32>)
    ensures
        match result {
            Some(value) => unsigned_value(s@, u32::MAX as nat) == Some(value as nat),
            None => unsigned_value(s@, u32::MAX as nat) is None,
        },
{
    match parse_unsigned(s, u32::MAX as u64) {
        Some(value) => Some(value as u32),
        None => None,
    }
}

/// Reads a number of the machine's word size.
pub fn parse_usize(s: &str) -> (result: Option<usize>)
    ensures
        match result {
            Some(value) => unsigned_value(s@, usize::MAX as nat) == Some(value as nat),
            None => unsigned_value(s@, usize::MAX as nat) is None,
        },
{
    match parse_unsigned(s, usize::MAX as u64) {
        Some(value) => Some(value as usize),
        None => None,
    }
}

pub proof fn lemma_decimal_digits(n: nat)
    ensures
        decimal(n).len() > 0,
        forall|i: int| 0 <= i < decimal(n).len() ==> is_digit(#[trigger] decimal(n)[i]),
        digits_value(decimal(n)) == n,
    decreases n,
{
    if n < 10 {
        assert(seq![digit_char(n as int)].drop_last() =~= Seq::empty());
        reveal_with_fuel(digits_value, 2);
    } else {
        lemma_decimal_digits(n / 10);
        assert(decimal(n).drop_last() =~= decimal(n / 10));
    }
}

/// A number that was written in decimal digits is read back as it was.
pub proof fn decimal_reads_back(n: nat, max: nat)
    requires
        n <= max,
    ensures
        unsigned_value(decimal(n), max) == Some(n),
{
    lemma_decimal_digits(n);
    assert(is_digit(decimal(n)[0]));
}

/// Two numbers with the same decimal digits are equal.
pub proof fn decimal_is_injective(a: nat, b: nat)
    requires
        decimal(a) == decimal(b),
    ensures
        a == b,
{
    lemma_decimal_digits(a);
    lemma_decimal_digits(b);
}

/// The decimal digits of a number, the last `width` of them, with leading zeros.
pub open spec fn decimal_padded(n: nat, width: nat) -> Seq<char>
    decreases width,
{
    if width == 0 {
        Seq::empty()
    } else {
        decimal_padded(n / 10, (width - 1) as nat).push(digit_char((n % 10) as int))
    }
}

/// Writes the last `width` decimal digits of a number.
pub fn decimal_padded_text(n: u64, width: usize) -> (text: String)
    ensures
        text@ == decimal_padded(n as nat, width as nat),
    decreases width,
{
    if width == 0 {
        String::new()
    } else {
        let mut text = decimal_padded_text(n / 10, width - 1);
        text.push(digit_to_char((n % 10) as u8));
        text
    }
}

pub proof fn lemma_decimal_padded(n: nat, width: nat)
    ensures
        decimal_padded(n, width).len() == width,
        forall|i: int| 0 <= i < width ==> is_digit(#[trigger] decimal_padded(n, width)[i]),
    decreases width,
{
    if width > 0 {
        lemma_decimal_padded(n / 10, (width - 1) as nat);
    }
}

/// The lower-case character of a hexadecimal digit.
pub open spec fn hex_char(digit: int) -> char {
    if digit < 10 {
        ('0' as int + digit) as char
    } else {
        ('a' as int + digit - 10) as char
    }
}

/// The upper-case character of a hexadecimal digit.
pub open spec fn upper_hex_char(digit: int) -> char {
    if digit < 10 {
        ('0' as int + digit) as char
    } else {
        ('A' as int + digit - 10) as char
    }
}

/// The lower-case character of a hexadecimal digit.
pub fn hex_to_char(digit: u8) -> (c: char)
    requires
        digit < 16,
    ensures
        c == hex_char(digit as int),
{
    if digit < 10 {
        (48 + digit) as char
    } else {
        (97 + (digit - 10)) as char
    }
}

/// The upper-case character of a hexadecimal digit.
pub fn upper_hex_to_char(digit: u8) -> (c: char)
    requires
        digit < 16,
    ensures
        c == upper_hex_char(digit as int),
{
    if digit < 10 {
        (48 + digit) as char
    } else {
        (65 + (digit - 10)) as char
    }
}

/// The last `width` hexadecimal digits of a number, with leading zeros.
pub open spec fn hex_padded(n: nat, width: nat) -> Seq<char>
    decreases width,
{
    if width == 0 {
        Seq::empty()
    } else {
        hex_padded(n / 16, (width - 1) as nat).push(hex_char((n % 16) as int))
    }
}

/// Writes the last `width` hexadecimal digits of a number.
pub fn hex_padded_text(n: u64, width: usize) -> (text: String)
    ensures
        text@ == hex_padded(n as nat, width as nat),
    decreases width,
{
    if width == 0 {
        String::new()
    } else {
        let mut text = hex_padded_text(n / 16, width - 1);
        text.push(hex_to_char((n % 16) as u8));
        text
    }
}

/// How many numbers a width of digits tells apart.
pub open spec fn numbers_of_width(base: nat, width: nat) -> nat
    decreases width,
{
    if width == 0 {
        1
    } else {
        base * numbers_of_width(base, (width - 1) as nat)
    }
}

/// The last digits of a number give it back, where it needs no more of them.
pub proof fn padded_digits_read_back(n: nat, width: nat)
    requires
        n < numbers_of_width(10, width),
    ensures
        digits_value(decimal_padded(n, width)) == n,
        decimal_padded(n, width).len() == width,
    decreases width,
{
    lemma_decimal_padded(n, width);
    if width > 0 {
        let front = (width - 1) as nat;
        padded_digits_read_back(n / 10, front);
        let digits = decimal_padded(n, width);
        assert(digits.drop_last() =~= decimal_padded(n / 10, front));
        assert(digits.last() == digit_char((n % 10) as int));
    }
}

/// The digits of a number that has more than are shown are those of what is left of
/// it.
pub proof fn padded_digits_are_the_last(n: nat, width: nat)
    ensures
        decimal_padded(n, width) == decimal_padded(n % numbers_of_width(10, width), width),
    decreases width,
{
    if width > 0 {
        let front = (width - 1) as nat;
        let limit = numbers_of_width(10, front) as int;
        let number = n as int;
        padded_digits_are_the_last(n / 10, front);
        lemma_limit_is_positive(front);
        let rest = (n % numbers_of_width(10, width)) as int;
        assert(rest == number % (10 * limit));
        assert(rest % 10 == number % 10 && rest / 10 == (number / 10) % limit)
            by (nonlinear_arith)
            requires
                rest == number % (10 * limit),
                limit > 0,
                number >= 0,
        {
            let q = number / (10 * limit);
            assert(number == (10 * limit) * q + rest);
            assert(0 <= rest < 10 * limit);
            assert((10 * limit) * q == 10 * (limit * q));
            assert(number % 10 == rest % 10);
            assert(number / 10 == limit * q + rest / 10);
            assert(0 <= rest / 10 < limit);
            assert((limit * q + rest / 10) % limit == rest / 10) by {
                vstd::arithmetic::div_mod::lemma_fundamental_div_mod_converse(
                    limit * q + rest / 10,
                    limit,
                    q,
                    rest / 10,
                );
            }
        }
        padded_digits_are_the_last((rest / 10) as nat, front);
    }
}

proof fn lemma_limit_is_positive(width: nat)
    ensures
        numbers_of_width(10, width) > 0,
        numbers_of_width(16, width) > 0,
    decreases width,
{
    if width > 0 {
        lemma_limit_is_positive((width - 1) as nat);
    }
}

/// The digit of a lower-case hexadecimal character.
pub open spec fn hex_digit(c: char) -> int {
    if '0' <= c <= '9' {
        c as int - '0' as int
    } else {
        c as int - 'a' as int + 10
    }
}

/// The number that hexadecimal digits stand for.
pub open spec fn hex_value(digits: Seq<char>) -> int
    decreases digits.len(),
{
    if digits.len() == 0 {
        0
    } else {
        hex_value(digits.drop_last()) * 16 + hex_digit(digits.last())
    }
}

/// Hexadecimal digits give the number back, where it needs no more of them.
pub proof fn padded_hex_reads_back(n: nat, width: nat)
    requires
        n < numbers_of_width(16, width),
    ensures
        hex_value(hex_padded(n, width)) == n,
        hex_padded(n, width).len() == width,
    decreases width,
{
    if width > 0 {
        let front = (width - 1) as nat;
        padded_hex_reads_back(n / 16, front);
        let digits = hex_padded(n, width);
        assert(digits.drop_last() =~= hex_padded(n / 16, front));
        assert(digits.last() == hex_char((n % 16) as int));
    }
}

/// Two numbers of 64 bits with the same sixteen hexadecimal digits are equal.
pub proof fn sixteen_hex_digits_are_injective(a: u64, b: u64)
    requires
        hex_padded(a as nat, 16) == hex_padded(b as nat, 16),
    ensures
        a == b,
{
    reveal_with_fuel(numbers_of_width, 17);
    assert(numbers_of_width(16, 16) == 0x1_0000_0000_0000_0000);
    padded_hex_reads_back(a as nat, 16);
    padded_hex_reads_back(b as nat, 16);
}

/// Digits are the characters from 0 to 9, in their order.
pub proof fn digits_follow_one_another(digit: int)
    requires
        0 <= digit < 10,
    ensures
        is_digit(digit_char(digit)),
        digit_char(digit) as int == '0' as int + digit,
        decimal(digit as nat) == seq![digit_char(digit)],
{
}

/// A number ends with the digit of its last place, and starts with the digits of
/// what is in front of it.
pub proof fn decimals_grow_at_their_end(n: nat, digit: nat)
    requires
        n > 0,
        digit < 10,
    ensures
        decimal(n * 10 + digit) == decimal(n).push(digit_char(digit as int)),
{
    assert((n * 10 + digit) / 10 == n);
    assert((n * 10 + digit) % 10 == digit);
}

/// A plus sign in front of a number makes no difference; a text that holds anything
/// but digits otherwise is no number, and nor is one that is too large.
pub proof fn numbers_are_made_of_digits(digits: Seq<char>, max: nat)
    ensures
        unsigned_value(digits, max) matches Some(value) ==> value <= max && digits.len() > 0,
        digits.len() == 0 ==> unsigned_value(digits, max) is None,
        digits.len() > 0 && digits[0] != '+' ==> unsigned_value(seq!['+'] + digits, max)
            == unsigned_value(digits, max),
        forall|i: int|
            0 < i < digits.len() && !is_digit(#[trigger] digits[i]) ==> unsigned_value(
                digits,
                max,
            ) is None,
{
    let signed = seq!['+'] + digits;
    assert(signed.drop_first() =~= digits);
    assert forall|i: int| 0 < i < digits.len() && !is_digit(#[trigger] digits[i]) implies
        unsigned_value(digits, max) is None by {
        let kept = unsigned_digits(digits);
        if digits[0] == '+' {
            assert(kept[i - 1] == digits[i]);
        } else {
            assert(kept[i] == digits[i]);
        }
    }
}

} // verus!
