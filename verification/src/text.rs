//! Building text with known contents: decimal and hexadecimal numerals.
use vstd::prelude::*;

verus! {

/// Character of a decimal digit.
pub open spec fn digit_char(d: int) -> char {
    if d == 0 { '0' }
    else if d == 1 { '1' }
    else if d == 2 { '2' }
    else if d == 3 { '3' }
    else if d == 4 { '4' }
    else if d == 5 { '5' }
    else if d == 6 { '6' }
    else if d == 7 { '7' }
    else if d == 8 { '8' }
    else { '9' }
}

/// Character of a lower-case hexadecimal digit.
pub open spec fn hex_digit_char(d: int) -> char {
    if d < 10 { digit_char(d) }
    else if d == 10 { 'a' }
    else if d == 11 { 'b' }
    else if d == 12 { 'c' }
    else if d == 13 { 'd' }
    else if d == 14 { 'e' }
    else { 'f' }
}

/// Two lower-case hexadecimal digits of a byte.
pub open spec fn hex_byte_chars(b: u8) -> Seq<char> {
    seq![hex_digit_char(b as int / 16), hex_digit_char(b as int % 16)]
}

/// Value of a lower-case hexadecimal digit; -1 for any other character.
pub open spec fn hex_value(c: char) -> int {
    if '0' <= c && c <= '9' { c as int - '0' as int }
    else if 'a' <= c && c <= 'f' { c as int - 'a' as int + 10 }
    else { -1 }
}

/// The digit character of `d` reads back as `d`.
pub proof fn lemma_hex_digit_round_trip(d: int)
    requires
        0 <= d < 16,
    ensures
        hex_value(hex_digit_char(d)) == d,
{
}

/// The two digits of a byte read back as the byte: the high digit times
/// sixteen plus the low digit.
pub proof fn lemma_hex_byte_round_trip(b: u8)
    ensures
        hex_byte_chars(b).len() == 2,
        hex_value(hex_byte_chars(b)[0]) * 16 + hex_value(hex_byte_chars(b)[1]) == b,
{
    lemma_hex_digit_round_trip(b as int / 16);
    lemma_hex_digit_round_trip(b as int % 16);
}

/// Decimal numeral of a natural number, without leading zeros.
pub open spec fn decimal_chars(n: nat) -> Seq<char>
    decreases n,
{
    if n < 10 {
        seq![digit_char(n as int)]
    } else {
        decimal_chars(n / 10) + seq![digit_char((n % 10) as int)]
    }
}

/// Appends one hexadecimal digit.
pub fn push_hex_digit(s: &mut String, d: u8)
    requires
        d < 16,
    ensures
        final(s)@ == old(s)@.push(hex_digit_char(d as int)),
{
    let lit = match d {
        0 => "0",
        1 => "1",
        2 => "2",
        3 => "3",
        4 => "4",
        5 => "5",
        6 => "6",
        7 => "7",
        8 => "8",
        9 => "9",
        10 => "a",
        11 => "b",
        12 => "c",
        13 => "d",
        14 => "e",
        _ => "f",
    };
    proof {
        reveal_strlit("0");
        reveal_strlit("1");
        reveal_strlit("2");
        reveal_strlit("3");
        reveal_strlit("4");
        reveal_strlit("5");
        reveal_strlit("6");
        reveal_strlit("7");
        reveal_strlit("8");
        reveal_strlit("9");
        reveal_strlit("a");
        reveal_strlit("b");
        reveal_strlit("c");
        reveal_strlit("d");
        reveal_strlit("e");
        reveal_strlit("f");
    }
    s.append(lit);
    assert(lit@ =~= seq![hex_digit_char(d as int)]);
}

/// Appends a byte as two lower-case hexadecimal digits.
pub fn push_hex_byte(s: &mut String, b: u8)
    ensures
        final(s)@ == old(s)@ + hex_byte_chars(b),
{
    push_hex_digit(s, b / 16);
    push_hex_digit(s, b % 16);
    assert(final(s)@ =~= old(s)@ + hex_byte_chars(b));
}

/// Appends the decimal numeral of `n`.
pub fn push_decimal(s: &mut String, n: u64)
    ensures
        final(s)@ == old(s)@ + decimal_chars(n as nat),
    decreases n,
{
    if n >= 10 {
        push_decimal(s, n / 10);
    }
    let d = (n % 10) as u8;
    push_hex_digit(s, d);
    assert(final(s)@ =~= old(s)@ + decimal_chars(n as nat));
}

/// Decimal numeral of `n` as a new string.
pub fn decimal_string(n: u64) -> (s: String)
    ensures
        s@ == decimal_chars(n as nat),
{
    let mut s = String::new();
    push_decimal(&mut s, n);
    assert(s@ =~= decimal_chars(n as nat));
    s
}

} // verus!
