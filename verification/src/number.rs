//! Decimal numerals.
use vstd::prelude::*;

use crate::text;

verus! {

/// `c` is a decimal digit.
pub open spec fn is_digit(c: char) -> bool {
    '0' <= c <= '9'
}

/// The number that a decimal digit stands for.
pub open spec fn digit_value(c: char) -> int {
    c as int - '0' as int
}

/// `s` holds decimal digits only.
pub open spec fn all_digits(s: Seq<char>) -> bool {
    forall|i: int| 0 <= i < s.len() ==> is_digit(#[trigger] s[i])
}

/// The number that a sequence of decimal digits stands for.
pub open spec fn value_of(s: Seq<char>) -> int
    decreases s.len(),
{
    if s.len() == 0 {
        0
    } else {
        10 * value_of(s.drop_last()) + digit_value(s.last())
    }
}

/// A numeral without the plus sign that it may begin with.
pub open spec fn without_plus(s: Seq<char>) -> Seq<char> {
    if s.len() > 0 && s[0] == '+' {
        s.drop_first()
    } else {
        s
    }
}

/// The number that a text denotes: an optional plus sign and at least one decimal digit, with a
/// value that fits in 32 bits.
pub open spec fn denoted(s: Seq<char>) -> Option<u32> {
    let digits = without_plus(s);
    if digits.len() > 0 && all_digits(digits) && value_of(digits) <= u32::MAX {
        Some(value_of(digits) as u32)
    } else {
        None
    }
}

/// The beginning of a sequence of digits stands for no greater number than the whole.
pub proof fn lemma_value_grows(s: Seq<char>, n: int)
    requires
        all_digits(s),
        0 <= n <= s.len(),
    ensures
        0 <= value_of(s.take(n)) <= value_of(s),
    decreases s.len(),
{
    if n < s.len() {
        assert(s.take(n) =~= s.drop_last().take(n));
        assert forall|i: int| 0 <= i < s.drop_last().len() implies is_digit(
            #[trigger] s.drop_last()[i],
        ) by {
            assert(is_digit(s[i]));
        }
        lemma_value_grows(s.drop_last(), n);
        assert(is_digit(s[s.len() - 1]));
    } else {
        assert(s.take(n) =~= s);
        if s.len() > 0 {
            assert forall|i: int| 0 <= i < s.drop_last().len() implies is_digit(
                #[trigger] s.drop_last()[i],
            ) by {
                assert(is_digit(s[i]));
            }
            lemma_value_grows(s.drop_last(), s.len() - 1);
            assert(s.drop_last().take(s.len() - 1) =~= s.drop_last());
            assert(is_digit(s[s.len() - 1]));
        }
    }
}

/// Parse a 32-bit number.
pub fn parse_u32(numeral: &str) -> (number: Option<u32>)
    ensures
        number == denoted(numeral@),
{
    let chars = text::chars_of(numeral);
    let start: usize = if chars.len() > 0 && chars[0] == '+' {
        1
    } else {
        0
    };
    let ghost digits = without_plus(numeral@);
    assert(digits =~= chars@.skip(start as int));
    if chars.len() == start {
        return None;
    }
    let mut i: usize = start;
    let mut number: u64 = 0;
    assert(digits.take(0) =~= Seq::empty());
    while i < chars.len()
        invariant
            start <= i <= chars@.len(),
            start < chars@.len(),
            digits == chars@.skip(start as int),
            digits == without_plus(numeral@),
            forall|j: int| 0 <= j < i - start ==> is_digit(#[trigger] digits[j]),
            number == value_of(digits.take(i - start)),
            number <= u32::MAX,
        decreases chars.len() - i,
    {
        let c = chars[i];
        assert(digits[i - start] == c);
        if c < '0' || '9' < c {
            return None;
        }
        let digit: u64 = (c as u32 - '0' as u32) as u64;
        assert(digits.take(i - start + 1).drop_last() =~= digits.take(i - start));
        number = 10 * number + digit;
        if number > u32::MAX as u64 {
            proof {
                if all_digits(digits) {
                    lemma_value_grows(digits, i - start + 1);
                }
            }
            return None;
        }
        i = i + 1;
    }
    assert(digits.take(i - start) =~= digits);
    Some(number as u32)
}

/// The character of a number below ten.
pub open spec fn digit_char(n: int) -> char {
    ('0' as u32 + n) as char
}

/// The decimal numeral of `n`, without leading zeros.
pub open spec fn decimal(n: nat) -> Seq<char>
    decreases n,
{
    if n < 10 {
        seq![digit_char(n as int)]
    } else {
        decimal(n / 10).push(digit_char((n % 10) as int))
    }
}

/// `s` with as many zeros before it as make it `width` characters long.
pub open spec fn zero_padded(s: Seq<char>, width: nat) -> Seq<char> {
    if s.len() >= width {
        s
    } else {
        Seq::new((width - s.len()) as nat, |i: int| '0') + s
    }
}

/// The character of a number below ten.
fn char_of_digit(n: u32) -> (c: char)
    requires
        n < 10,
    ensures
        c == digit_char(n as int),
{
    if n == 0 {
        '0'
    } else if n == 1 {
        '1'
    } else if n == 2 {
        '2'
    } else if n == 3 {
        '3'
    } else if n == 4 {
        '4'
    } else if n == 5 {
        '5'
    } else if n == 6 {
        '6'
    } else if n == 7 {
        '7'
    } else if n == 8 {
        '8'
    } else {
        '9'
    }
}

/// The decimal numeral of `n`.
pub fn decimal_chars(n: u32) -> (chars: Vec<char>)
    ensures
        chars@ == decimal(n as nat),
    decreases n,
{
    if n < 10 {
        let mut chars: Vec<char> = Vec::new();
        chars.push(char_of_digit(n));
        chars
    } else {
        let mut chars = decimal_chars(n / 10);
        chars.push(char_of_digit(n % 10));
        chars
    }
}

/// The numeral of a passkey: six digits, or as many as it takes.
pub fn six_digits(n: u32) -> (numeral: String)
    ensures
        numeral@ == zero_padded(decimal(n as nat), 6),
{
    let digits = decimal_chars(n);
    let mut chars: Vec<char> = Vec::new();
    while chars.len() + digits.len() < 6
        invariant
            chars@.len() + digits@.len() <= 6 || chars@.len() == 0,
            chars@ =~= Seq::new(chars@.len(), |i: int| '0'),
        decreases 6 - chars.len() - digits.len(),
    {
        chars.push('0');
    }
    let mut padded = text::text_of(chars.as_slice());
    padded.append(text::text_of(digits.as_slice()).as_str());
    assert(padded@ =~= zero_padded(decimal(n as nat), 6));
    padded
}

} // verus!
