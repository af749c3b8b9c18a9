//! Numbers as text: decimal digits, and hexadecimal digits behind `0x`.

use vstd::prelude::*;

verus! {

/// `String::push` of the standard library: appends one character to the
/// end of the string.
pub assume_specification[ String::push ](s: &mut String, ch: char)
    ensures
        final(s)@ == old(s)@.push(ch),
;

/// The character that writes the digit `d`, lower case from ten on.
pub open spec fn digit_char(d: int) -> char {
    if d == 0 {
        '0'
    } else if d == 1 {
        '1'
    } else if d == 2 {
        '2'
    } else if d == 3 {
        '3'
    } else if d == 4 {
        '4'
    } else if d == 5 {
        '5'
    } else if d == 6 {
        '6'
    } else if d == 7 {
        '7'
    } else if d == 8 {
        '8'
    } else if d == 9 {
        '9'
    } else if d == 10 {
        'a'
    } else if d == 11 {
        'b'
    } else if d == 12 {
        'c'
    } else if d == 13 {
        'd'
    } else if d == 14 {
        'e'
    } else {
        'f'
    }
}

/// The decimal digits of `n`, without leading zeros.
pub open spec fn decimal_digits(n: nat) -> Seq<char>
    decreases n,
{
    if n < 10 {
        seq![digit_char(n as int)]
    } else {
        decimal_digits(n / 10).push(digit_char((n % 10) as int))
    }
}

/// The hexadecimal digits of `n`, without leading zeros.
pub open spec fn hex_digits(n: nat) -> Seq<char>
    decreases n,
{
    if n < 16 {
        seq![digit_char(n as int)]
    } else {
        hex_digits(n / 16).push(digit_char((n % 16) as int))
    }
}

/// `digits` with zeros put before them until they are `width` long.
pub open spec fn zero_padded(digits: Seq<char>, width: nat) -> Seq<char> {
    if digits.len() >= width {
        digits
    } else {
        Seq::new((width - digits.len()) as nat, |i: int| '0') + digits
    }
}

/// `n` as a hexadecimal number: `0x` and behind it the digits, with
/// leading zeros where there are fewer than `width` of them.
pub open spec fn hex_number(n: nat, width: nat) -> Seq<char> {
    seq!['0', 'x'] + zero_padded(hex_digits(n), width)
}

/// The character that writes a digit.
fn digit(d: u64) -> (c: char)
    requires
        d < 16,
    ensures
        c == digit_char(d as int),
{
    match d {
        0 => '0',
        1 => '1',
        2 => '2',
        3 => '3',
        4 => '4',
        5 => '5',
        6 => '6',
        7 => '7',
        8 => '8',
        9 => '9',
        10 => 'a',
        11 => 'b',
        12 => 'c',
        13 => 'd',
        14 => 'e',
        _ => 'f',
    }
}

/// Writes `n` as a decimal number.
pub fn decimal_text(n: u64) -> (s: String)
    ensures
        s@ == decimal_digits(n as nat),
    decreases n,
{
    if n < 10 {
        let mut s = String::new();
        s.push(digit(n));
        s
    } else {
        let mut s = decimal_text(n / 10);
        s.push(digit(n % 10));
        s
    }
}

/// The hexadecimal digits of `n`.
fn hex_digit_list(n: u64) -> (digits: Vec<char>)
    ensures
        digits@ == hex_digits(n as nat),
    decreases n,
{
    if n < 16 {
        let mut digits: Vec<char> = Vec::new();
        digits.push(digit(n));
        digits
    } else {
        let mut digits = hex_digit_list(n / 16);
        digits.push(digit(n % 16));
        digits
    }
}

/// Writes `n` as a hexadecimal number of at least `width` digits behind `0x`.
pub fn hex_text(n: u64, width: usize) -> (s: String)
    ensures
        s@ == hex_number(n as nat, width as nat),
{
    let digits = hex_digit_list(n);
    let mut s = String::new();
    s.push('0');
    s.push('x');
    let mut len: usize = digits.len();
    while len < width
        invariant
            digits@.len() <= len,
            len <= width || len == digits@.len(),
            s@ == seq!['0', 'x'] + Seq::new((len - digits@.len()) as nat, |i: int| '0'),
        decreases width - len,
    {
        s.push('0');
        len += 1;
    }
    let ghost head = s@;
    let mut i: usize = 0;
    while i < digits.len()
        invariant
            i <= digits@.len(),
            s@ == head + digits@.take(i as int),
        decreases digits@.len() - i,
    {
        s.push(digits[i]);
        i += 1;
    }
    s
}

} // verus!
