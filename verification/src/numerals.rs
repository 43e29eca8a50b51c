//! Decimal numerals as text.
//!
//! Numbers are written the way the phrases need them: in the shortest form,
//! or padded with leading zeros to a minimum width.

use vstd::prelude::*;

verus! {

/// The character that stands for the decimal digit `d`.
pub open spec fn digit_char(d: nat) -> char {
    (48 + d) as char
}

/// Whether `c` is one of the characters `0` to `9`.
pub open spec fn is_digit(c: char) -> bool {
    '0' <= c <= '9'
}

/// The shortest decimal numeral of `n`.
pub open spec fn decimal(n: nat) -> Seq<char>
    decreases n,
{
    if n < 10 {
        seq![digit_char(n)]
    } else {
        decimal(n / 10).push(digit_char(n % 10))
    }
}

/// A run of `count` zeros.
pub open spec fn zeros(count: nat) -> Seq<char> {
    Seq::new(count, |i: int| '0')
}

/// The decimal numeral of `n`, with zeros in front until it has at least
/// `width` digits.
pub open spec fn zero_padded(n: nat, width: nat) -> Seq<char> {
    let digits = decimal(n);
    if digits.len() >= width {
        digits
    } else {
        zeros((width - digits.len()) as nat) + digits
    }
}

/// The number that a sequence of digits denotes; the empty sequence denotes 0.
pub open spec fn numeral_value(digits: Seq<char>) -> nat
    decreases digits.len(),
{
    if digits.len() == 0 {
        0
    } else {
        (numeral_value(digits.drop_last()) * 10 + (digits.last() as nat - 48)) as nat
    }
}

/// Whether every character of `text` is a decimal digit.
pub open spec fn all_digits(text: Seq<char>) -> bool {
    forall|i: int| 0 <= i < text.len() ==> is_digit(#[trigger] text[i])
}

/// A numeral is never empty and holds digits only.
pub proof fn lemma_decimal_is_numeral(n: nat)
    ensures
        decimal(n).len() >= 1,
        all_digits(decimal(n)),
    decreases n,
{
    if n >= 10 {
        lemma_decimal_is_numeral(n / 10);
    }
}

/// Reading a numeral back gives the number it was written from.
pub proof fn lemma_decimal_value(n: nat)
    ensures
        numeral_value(decimal(n)) == n,
    decreases n,
{
    if n < 10 {
        let d = decimal(n);
        assert(d.drop_last() =~= Seq::<char>::empty());
        assert(numeral_value(d.drop_last()) == 0);
    } else {
        lemma_decimal_value(n / 10);
        let d = decimal(n);
        assert(d.drop_last() =~= decimal(n / 10));
    }
}

/// Different numbers have different numerals.
pub proof fn lemma_decimal_injective(a: nat, b: nat)
    requires
        decimal(a) == decimal(b),
    ensures
        a == b,
{
    lemma_decimal_value(a);
    lemma_decimal_value(b);
}

/// Zeros in front of a sequence of digits do not change its value.
pub proof fn lemma_leading_zeros(count: nat, digits: Seq<char>)
    ensures
        numeral_value(zeros(count) + digits) == numeral_value(digits),
    decreases digits.len(),
{
    let padded = zeros(count) + digits;
    if digits.len() == 0 {
        assert(padded =~= zeros(count));
        lemma_zeros_value(count);
    } else {
        assert(padded.drop_last() =~= zeros(count) + digits.drop_last());
        lemma_leading_zeros(count, digits.drop_last());
    }
}

/// A run of zeros denotes 0.
pub proof fn lemma_zeros_value(count: nat)
    ensures
        numeral_value(zeros(count)) == 0,
    decreases count,
{
    if count > 0 {
        assert(zeros(count).drop_last() =~= zeros((count - 1) as nat));
        lemma_zeros_value((count - 1) as nat);
    }
}

/// A padded numeral holds digits only, is at least as long as asked and
/// denotes the number it was written from.
pub proof fn lemma_zero_padded(n: nat, width: nat)
    ensures
        zero_padded(n, width).len() >= width,
        zero_padded(n, width).len() >= 1,
        zero_padded(n, width).len() == if decimal(n).len() >= width {
            decimal(n).len()
        } else {
            width
        },
        all_digits(zero_padded(n, width)),
        numeral_value(zero_padded(n, width)) == n,
{
    lemma_decimal_is_numeral(n);
    lemma_decimal_value(n);
    let digits = decimal(n);
    if digits.len() < width {
        lemma_leading_zeros((width - digits.len()) as nat, digits);
    }
}

/// The number of digits in the numerals of numbers below ten thousand.
pub proof fn lemma_decimal_len(n: nat)
    ensures
        n < 10 ==> decimal(n).len() == 1,
        10 <= n < 100 ==> decimal(n).len() == 2,
        100 <= n < 1000 ==> decimal(n).len() == 3,
        1000 <= n < 10000 ==> decimal(n).len() == 4,
{
    reveal_with_fuel(decimal, 4);
}

/// A number below one hundred, padded to two places, is its tens digit and
/// its units digit.
pub proof fn lemma_two_places(n: nat)
    requires
        n < 100,
    ensures
        zero_padded(n, 2) =~= seq![digit_char(n / 10), digit_char(n % 10)],
{
    reveal_with_fuel(decimal, 2);
}

/// A number below one thousand, padded to three places, is its hundreds,
/// tens and units digits.
pub proof fn lemma_three_places(n: nat)
    requires
        n < 1000,
    ensures
        zero_padded(n, 3) =~= seq![
            digit_char(n / 100),
            digit_char((n / 10) % 10),
            digit_char(n % 10),
        ],
{
    reveal_with_fuel(decimal, 3);
}

/// The character of a digit below ten.
pub fn digit(d: u32) -> (c: char)
    requires
        d < 10,
    ensures
        c == digit_char(d as nat),
        is_digit(c),
{
    (48u8 + d as u8) as char
}

/// The number of digits in the numeral of `n`.
pub fn digit_count(n: u32) -> (count: usize)
    ensures
        count == decimal(n as nat).len(),
        1 <= count <= 10,
    decreases n,
{
    if n < 10 {
        1
    } else {
        let rest = digit_count(n / 10);
        proof {
            lemma_digit_count_bound(n as nat);
        }
        rest + 1
    }
}

/// A number below two to the thirty-second has at most ten digits.
proof fn lemma_digit_count_bound(n: nat)
    requires
        n <= u32::MAX,
    ensures
        decimal(n).len() <= 10,
{
    reveal_with_fuel(decimal, 11);
}

/// Appends the shortest decimal numeral of `n` to `out`.
pub fn push_decimal(out: &mut String, n: u32)
    ensures
        final(out)@ == old(out)@ + decimal(n as nat),
    decreases n,
{
    if n >= 10 {
        push_decimal(out, n / 10);
    }
    out.push(digit(n % 10));
}

/// Appends the decimal numeral of `n` to `out`, with zeros in front until it
/// has at least `width` digits.
pub fn push_zero_padded(out: &mut String, n: u32, width: usize)
    ensures
        final(out)@ == old(out)@ + zero_padded(n as nat, width as nat),
{
    let count = digit_count(n);
    let mut written: usize = count;
    while written < width
        invariant
            count <= written,
            count == decimal(n as nat).len(),
            written <= width || written == count,
            out@ == old(out)@ + zeros((written - count) as nat),
        decreases width - written,
    {
        out.push('0');
        written += 1;
    }
    push_decimal(out, n);
}

/// The shortest decimal numeral of `n`.
pub fn decimal_text(n: u32) -> (text: String)
    ensures
        text@ == decimal(n as nat),
{
    let mut text = String::new();
    push_decimal(&mut text, n);
    text
}

/// The decimal numeral of `n`, with zeros in front until it has at least
/// `width` digits.
pub fn zero_padded_text(n: u32, width: usize) -> (text: String)
    ensures
        text@ == zero_padded(n as nat, width as nat),
{
    let mut text = String::new();
    push_zero_padded(&mut text, n, width);
    text
}

} // verus!
