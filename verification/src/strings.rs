//! Numeric-to-text formatting: decimal and hexadecimal renderings of
//! unsigned chain quantities, with an optional fixed minimum width.

use vstd::prelude::*;

verus! {

use vstd::string::StringExecFns;

/// The decimal digit character for `d` (`0 <= d <= 9`).
pub open spec fn dec_digit(d: int) -> char {
    if d == 0 {
        '0'
    } else if d == 1 {
        '1'
    } else if d == 2 {
        '2'
    } else if d == 3 {
        '3'
    } else if d == 4 {
        '4'
    } else if d == 5 {
        '5'
    } else if d == 6 {
        '6'
    } else if d == 7 {
        '7'
    } else if d == 8 {
        '8'
    } else {
        '9'
    }
}

/// The lower-case hexadecimal digit character for `d` (`0 <= d <= 15`).
pub open spec fn hex_digit(d: int) -> char {
    if d < 10 {
        dec_digit(d)
    } else if d == 10 {
        'a'
    } else if d == 11 {
        'b'
    } else if d == 12 {
        'c'
    } else if d == 13 {
        'd'
    } else if d == 14 {
        'e'
    } else {
        'f'
    }
}

/// The decimal digits of `n`, most significant first; empty for zero.
pub open spec fn dec_digits(n: int) -> Seq<char>
    decreases n,
{
    if n <= 0 {
        Seq::empty()
    } else {
        dec_digits(n / 10).push(dec_digit(n % 10))
    }
}

/// The decimal rendering of `n`: its digits, or `"0"` for zero.
pub open spec fn spec_decimal(n: int) -> Seq<char> {
    if n == 0 {
        seq!['0']
    } else {
        dec_digits(n)
    }
}

/// The hexadecimal digits of `n`, most significant first; empty for zero.
pub open spec fn hex_digits(n: int) -> Seq<char>
    decreases n,
{
    if n <= 0 {
        Seq::empty()
    } else {
        hex_digits(n / 16).push(hex_digit(n % 16))
    }
}

/// The hexadecimal rendering of `n` without prefix: its digits, or `"0"`.
pub open spec fn spec_hex(n: int) -> Seq<char> {
    if n == 0 {
        seq!['0']
    } else {
        hex_digits(n)
    }
}

/// `k` zero characters (none for a non-positive `k`).
pub open spec fn zeros(k: int) -> Seq<char> {
    Seq::new(if k >= 0 { k as nat } else { 0 }, |i: int| '0')
}

/// How many zeros pad the hexadecimal rendering of `n` to `width` digits.
pub open spec fn hex_pad(n: int, width: int) -> int {
    if width > spec_hex(n).len() {
        width - spec_hex(n).len()
    } else {
        0
    }
}

/// The fixed-width hexadecimal rendering: `0x`, left-padding zeros, digits.
pub open spec fn spec_hex_fixed(n: int, width: int) -> Seq<char> {
    seq!['0', 'x'] + zeros(hex_pad(n, width)) + spec_hex(n)
}

/// The one-character string for the decimal digit `d`.
fn dec_digit_str(d: u128) -> (s: &'static str)
    requires
        d < 10,
    ensures
        s@ == seq![dec_digit(d as int)],
{
    proof {
        reveal_strlit("0");
        reveal_strlit("1");
        reveal_strlit("2");
        reveal_strlit("3");
        reveal_strlit("4");
        reveal_strlit("5");
        reveal_strlit("6");
        reveal_strlit("7");
        reveal_strlit("8");
        reveal_strlit("9");
    }
    match d {
        0 => "0",
        1 => "1",
        2 => "2",
        3 => "3",
        4 => "4",
        5 => "5",
        6 => "6",
        7 => "7",
        8 => "8",
        _ => "9",
    }
}

/// The one-character string for the hexadecimal digit `d`.
fn hex_digit_str(d: u128) -> (s: &'static str)
    requires
        d < 16,
    ensures
        s@ == seq![hex_digit(d as int)],
{
    if d < 10 {
        dec_digit_str(d)
    } else {
        proof {
            reveal_strlit("a");
            reveal_strlit("b");
            reveal_strlit("c");
            reveal_strlit("d");
            reveal_strlit("e");
            reveal_strlit("f");
        }
        match d {
            10 => "a",
            11 => "b",
            12 => "c",
            13 => "d",
            14 => "e",
            _ => "f",
        }
    }
}

/// The decimal digits of a positive `v`, most significant first.
fn dec_digits_string(v: u128) -> (r: String)
    requires
        v > 0,
    ensures
        r@ == dec_digits(v as int),
    decreases v,
{
    let digit = dec_digit_str(v % 10);
    if v >= 10 {
        let mut s = dec_digits_string(v / 10);
        s.append(digit);
        proof {
            assert(s@ =~= dec_digits(v as int));
        }
        s
    } else {
        let s = digit.to_owned();
        proof {
            assert(dec_digits(v as int / 10) =~= Seq::<char>::empty());
            assert(s@ =~= dec_digits(v as int));
        }
        s
    }
}

/// The hexadecimal digits of a positive `v`, most significant first.
fn hex_digits_string(v: u128) -> (r: String)
    requires
        v > 0,
    ensures
        r@ == hex_digits(v as int),
    decreases v,
{
    let digit = hex_digit_str(v % 16);
    if v >= 16 {
        let mut s = hex_digits_string(v / 16);
        s.append(digit);
        proof {
            assert(s@ =~= hex_digits(v as int));
        }
        s
    } else {
        let s = digit.to_owned();
        proof {
            assert(hex_digits(v as int / 16) =~= Seq::<char>::empty());
            assert(s@ =~= hex_digits(v as int));
        }
        s
    }
}

/// Render `value` in decimal.
pub fn to_string(value: u128) -> (r: String)
    ensures
        r@ == spec_decimal(value as int),
{
    if value == 0 {
        let r = "0".to_owned();
        proof {
            reveal_strlit("0");
            assert(r@ =~= spec_decimal(value as int));
        }
        r
    } else {
        dec_digits_string(value)
    }
}

/// Render `value` in hexadecimal with a `0x` prefix and no padding.
pub fn to_hex_string(value: u128) -> (r: String)
    ensures
        r@ == seq!['0', 'x'] + spec_hex(value as int),
{
    let mut s = "0x".to_owned();
    proof {
        reveal_strlit("0x");
    }
    if value == 0 {
        s.append("0");
        proof {
            reveal_strlit("0");
            assert(s@ =~= seq!['0', 'x'] + spec_hex(value as int));
        }
    } else {
        let digits = hex_digits_string(value);
        s.append(digits.as_str());
        proof {
            assert(s@ =~= seq!['0', 'x'] + spec_hex(value as int));
        }
    }
    s
}

/// The hexadecimal digits of `v`, left-padded with zeros to at least `width`
/// digits (never truncated).
fn hex_digits_fixed_string(v: u128, width: usize) -> (r: String)
    ensures
        r@ == zeros(hex_pad(v as int, width as int)) + spec_hex(v as int),
    decreases v,
{
    if v >= 16 {
        let inner_width: usize = if width > 0 {
            width - 1
        } else {
            0
        };
        let mut s = hex_digits_fixed_string(v / 16, inner_width);
        s.append(hex_digit_str(v % 16));
        proof {
            assert(spec_hex(v as int) =~= spec_hex(v as int / 16).push(
                hex_digit(v as int % 16),
            ));
            assert(hex_pad(v as int / 16, inner_width as int) == hex_pad(v as int, width as int));
            assert(s@ =~= zeros(hex_pad(v as int, width as int)) + spec_hex(v as int));
        }
        s
    } else {
        let mut s = String::new();
        let mut j: usize = 0;
        while j + 1 < width
            invariant
                width > 0 ==> j < width,
                width == 0 ==> j == 0,
                s@ =~= zeros(j as int),
            decreases width - j,
        {
            s.append("0");
            proof {
                reveal_strlit("0");
                assert(s@ =~= zeros(j as int + 1));
            }
            j += 1;
        }
        s.append(hex_digit_str(v));
        proof {
            assert(hex_digits(v as int / 16) =~= Seq::<char>::empty());
            assert(spec_hex(v as int) =~= seq![hex_digit(v as int)]);
            assert(j as int == hex_pad(v as int, width as int));
            assert(s@ =~= zeros(hex_pad(v as int, width as int)) + spec_hex(v as int));
        }
        s
    }
}

/// Render `value` in hexadecimal with a `0x` prefix, zero-padded on the left
/// to at least `length` digits.
pub fn to_hex_string_fixed(value: u128, length: usize) -> (r: String)
    ensures
        r@ == spec_hex_fixed(value as int, length as int),
{
    let mut s = "0x".to_owned();
    proof {
        reveal_strlit("0x");
    }
    let digits = hex_digits_fixed_string(value, length);
    s.append(digits.as_str());
    proof {
        assert(s@ =~= spec_hex_fixed(value as int, length as int));
    }
    s
}

} // verus!
