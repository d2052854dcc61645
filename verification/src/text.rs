//! Small string builders shared by the other modules.

use vstd::prelude::*;

verus! {

/// The digit character for `d` (`0..16`) in base sixteen; letters upper- or lowercase.
pub open spec fn hex_digit(d: int, upper: bool) -> char {
    if d < 10 {
        ((0x30 + d) as u32) as char
    } else if upper {
        ((0x41 + d - 10) as u32) as char
    } else {
        ((0x61 + d - 10) as u32) as char
    }
}

/// The `n` lowest base-sixteen digits of `v`, most significant first, zero padded.
pub open spec fn hex_digits(v: nat, n: nat, upper: bool) -> Seq<char>
    decreases n,
{
    if n == 0 {
        Seq::empty()
    } else {
        hex_digits(v / 16, (n - 1) as nat, upper).push(hex_digit((v % 16) as int, upper))
    }
}

/// Appends one character to a `String` (std's `String::push`).
#[verifier::external_body]
pub fn push_char(s: &mut String, c: char)
    ensures
        final(s)@ == old(s)@.push(c),
{
    s.push(c);
}

/// The base-sixteen digit character for `d`.
pub fn hex_digit_char(d: u8, upper: bool) -> (c: char)
    requires
        d < 16,
    ensures
        c == hex_digit(d as int, upper),
{
    match d {
        0 => '0',
        1 => '1',
        2 => '2',
        3 => '3',
        4 => '4',
        5 => '5',
        6 => '6',
        7 => '7',
        8 => '8',
        9 => '9',
        10 => if upper { 'A' } else { 'a' },
        11 => if upper { 'B' } else { 'b' },
        12 => if upper { 'C' } else { 'c' },
        13 => if upper { 'D' } else { 'd' },
        14 => if upper { 'E' } else { 'e' },
        _ => if upper { 'F' } else { 'f' },
    }
}

/// Appends the `n` lowest base-sixteen digits of `v` to `s`, most significant first.
pub fn push_hex(s: &mut String, v: u64, n: u32, upper: bool)
    requires
        n <= 16,
    ensures
        final(s)@ == old(s)@ + hex_digits(v as nat, n as nat, upper),
    decreases n,
{
    if n > 0 {
        push_hex(s, v / 16, n - 1, upper);
        let d = (v % 16) as u8;
        push_char(s, hex_digit_char(d, upper));
        proof {
            assert(old(s)@ + hex_digits(v as nat, n as nat, upper) =~= old(s)@ + hex_digits(
                (v / 16) as nat,
                (n - 1) as nat,
                upper,
            ) + seq![hex_digit((v % 16) as int, upper)]);
        }
    } else {
        assert(old(s)@ + hex_digits(v as nat, 0, upper) =~= old(s)@);
    }
}

/// The decimal digits of `n`, without leading zeros.
pub open spec fn decimal(n: nat) -> Seq<char>
    decreases n,
{
    if n < 10 {
        seq![((0x30 + n) as u32) as char]
    } else {
        decimal(n / 10).push(((0x30 + n % 10) as u32) as char)
    }
}

/// The decimal digit character for `d` (`0..10`).
fn decimal_digit_char(d: u8) -> (c: char)
    requires
        d < 10,
    ensures
        c == ((0x30 + d) as u32) as char,
{
    match d {
        0 => '0',
        1 => '1',
        2 => '2',
        3 => '3',
        4 => '4',
        5 => '5',
        6 => '6',
        7 => '7',
        8 => '8',
        _ => '9',
    }
}

/// Appends the decimal digits of `v` to `s` (as `{}` formats an unsigned integer).
pub fn push_decimal(s: &mut String, v: u64)
    ensures
        final(s)@ == old(s)@ + decimal(v as nat),
    decreases v,
{
    if v >= 10 {
        push_decimal(s, v / 10);
    }
    push_char(s, decimal_digit_char((v % 10) as u8));
    proof {
        if v >= 10 {
            assert(old(s)@ + decimal(v as nat) =~= old(s)@ + decimal((v / 10) as nat) + seq![
                ((0x30 + v % 10) as u32) as char,
            ]);
        } else {
            assert(old(s)@ + decimal(v as nat) =~= old(s)@ + seq![((0x30 + v % 10) as u32) as char]);
        }
    }
}

} // verus!
