//! Numbers and bytes as text: hexadecimal and decimal digits, padding to a
//! width, and the printable form of a byte.

use vstd::prelude::*;
use vstd::string::{StrSliceExecFns, StringExecFns};

verus! {

/// The lowercase hexadecimal digit for `d`, which is below 16.
pub open spec fn hex_digit(d: int) -> char {
    if d == 0 {
        '0'
    } else if d == 1 {
        '1'
    } else if d == 2 {
        '2'
    } else if d == 3 {
        '3'
    } else if d == 4 {
        '4'
    } else if d == 5 {
        '5'
    } else if d == 6 {
        '6'
    } else if d == 7 {
        '7'
    } else if d == 8 {
        '8'
    } else if d == 9 {
        '9'
    } else if d == 10 {
        'a'
    } else if d == 11 {
        'b'
    } else if d == 12 {
        'c'
    } else if d == 13 {
        'd'
    } else if d == 14 {
        'e'
    } else {
        'f'
    }
}

/// The hexadecimal digits of `n`, most significant first, without leading
/// zeros; zero is the single digit `0`.
pub open spec fn hex_digits(n: nat) -> Seq<char>
    decreases n,
{
    if n < 16 {
        seq![hex_digit(n as int)]
    } else {
        hex_digits(n / 16) + seq![hex_digit((n % 16) as int)]
    }
}

/// The decimal digits of `n`, most significant first, without leading
/// zeros; zero is the single digit `0`.
pub open spec fn dec_digits(n: nat) -> Seq<char>
    decreases n,
{
    if n < 10 {
        seq![hex_digit(n as int)]
    } else {
        dec_digits(n / 10) + seq![hex_digit((n % 10) as int)]
    }
}

/// `count` times the character `fill`.
pub open spec fn repeat(fill: char, count: int) -> Seq<char> {
    Seq::new(
        if count > 0 {
            count as nat
        } else {
            0
        },
        |i: int| fill,
    )
}

/// `s` moved to the right end of a field of `width` characters, the room in
/// front of it taken by `fill`; a longer `s` is left as it is.
pub open spec fn padded_left(s: Seq<char>, width: int, fill: char) -> Seq<char> {
    repeat(fill, width - s.len()) + s
}

/// `s` at the left end of a field of `width` characters, the room behind it
/// taken by `fill`; a longer `s` is left as it is.
pub open spec fn padded_right(s: Seq<char>, width: int, fill: char) -> Seq<char> {
    s + repeat(fill, width - s.len())
}

/// `n` in hexadecimal, filled with zeros in front up to `width` digits.
pub open spec fn hex_fixed(n: nat, width: int) -> Seq<char> {
    padded_left(hex_digits(n), width, '0')
}

/// `n` in hexadecimal behind the prefix `0x`.
pub open spec fn hex_prefixed(n: nat) -> Seq<char> {
    seq!['0', 'x'] + hex_digits(n)
}

/// `n` in hexadecimal behind the prefix `0x`, with zeros between the two up
/// to `width` digits.
pub open spec fn hex_prefixed_fixed(n: nat, width: int) -> Seq<char> {
    seq!['0', 'x'] + hex_fixed(n, width)
}

/// The character shown for a byte beside its hexadecimal form: the byte
/// itself where it is printable ASCII, a dot otherwise.
pub open spec fn printable(b: u8) -> char {
    if 0x20 <= b <= 0x7e {
        b as char
    } else {
        '.'
    }
}

/// Trusted: `String::push`, which appends one character to the string.
#[verifier::external_body]
pub(crate) fn push_char(s: &mut String, c: char)
    ensures
        final(s)@ == old(s)@.push(c),
{
    s.push(c)
}

/// The lowercase hexadecimal digit for `d`.
pub fn hex_digit_char(d: u8) -> (c: char)
    requires
        d < 16,
    ensures
        c == hex_digit(d as int),
{
    match d {
        0 => '0',
        1 => '1',
        2 => '2',
        3 => '3',
        4 => '4',
        5 => '5',
        6 => '6',
        7 => '7',
        8 => '8',
        9 => '9',
        10 => 'a',
        11 => 'b',
        12 => 'c',
        13 => 'd',
        14 => 'e',
        _ => 'f',
    }
}

/// Appends `n` in hexadecimal.
pub fn push_hex(out: &mut String, n: u64)
    ensures
        final(out)@ == old(out)@ + hex_digits(n as nat),
    decreases n,
{
    if n >= 16 {
        push_hex(out, n / 16);
    }
    push_char(out, hex_digit_char((n % 16) as u8));
    proof {
        assert(final(out)@ =~= old(out)@ + hex_digits(n as nat));
    }
}

/// Appends `n` in decimal.
pub fn push_dec(out: &mut String, n: u64)
    ensures
        final(out)@ == old(out)@ + dec_digits(n as nat),
    decreases n,
{
    if n >= 10 {
        push_dec(out, n / 10);
    }
    push_char(out, hex_digit_char((n % 10) as u8));
    proof {
        assert(final(out)@ =~= old(out)@ + dec_digits(n as nat));
    }
}

/// Appends `count` times the character `fill`.
pub fn push_repeat(out: &mut String, fill: char, count: usize)
    ensures
        final(out)@ == old(out)@ + repeat(fill, count as int),
{
    let mut i: usize = 0;
    while i < count
        invariant
            i <= count,
            out@ == old(out)@ + repeat(fill, i as int),
        decreases count - i,
    {
        push_char(out, fill);
        i = i + 1;
        proof {
            assert(out@ =~= old(out)@ + repeat(fill, i as int));
        }
    }
}

/// `n` in hexadecimal, without leading zeros.
pub fn hex(n: u64) -> (r: String)
    ensures
        r@ == hex_digits(n as nat),
{
    let mut out = String::new();
    push_hex(&mut out, n);
    proof {
        assert(out@ =~= hex_digits(n as nat));
    }
    out
}

/// `n` in decimal, without leading zeros.
pub fn dec(n: u64) -> (r: String)
    ensures
        r@ == dec_digits(n as nat),
{
    let mut out = String::new();
    push_dec(&mut out, n);
    proof {
        assert(out@ =~= dec_digits(n as nat));
    }
    out
}

/// `s` moved to the right end of a field of `width` characters.
pub fn pad_left(s: &str, width: usize, fill: char) -> (r: String)
    ensures
        r@ == padded_left(s@, width as int, fill),
{
    let len = s.unicode_len();
    let mut out = String::new();
    if len < width {
        push_repeat(&mut out, fill, width - len);
    }
    out.append(s);
    proof {
        assert(out@ =~= padded_left(s@, width as int, fill));
    }
    out
}

/// `s` at the left end of a field of `width` characters.
pub fn pad_right(s: &str, width: usize, fill: char) -> (r: String)
    ensures
        r@ == padded_right(s@, width as int, fill),
{
    let len = s.unicode_len();
    let mut out = String::from_str(s);
    if len < width {
        push_repeat(&mut out, fill, width - len);
    }
    proof {
        assert(out@ =~= padded_right(s@, width as int, fill));
    }
    out
}

/// `n` in hexadecimal, filled with zeros in front up to `width` digits.
pub fn hex_padded(n: u64, width: usize) -> (r: String)
    ensures
        r@ == hex_fixed(n as nat, width as int),
{
    let digits = hex(n);
    pad_left(digits.as_str(), width, '0')
}

/// `n` in hexadecimal behind `0x`.
pub fn hex_with_prefix(n: u64) -> (r: String)
    ensures
        r@ == hex_prefixed(n as nat),
{
    let mut out = String::new();
    push_char(&mut out, '0');
    push_char(&mut out, 'x');
    push_hex(&mut out, n);
    proof {
        assert(out@ =~= hex_prefixed(n as nat));
    }
    out
}

/// `n` in hexadecimal behind `0x`, with zeros between the two up to `width`
/// digits.
pub fn hex_with_prefix_padded(n: u64, width: usize) -> (r: String)
    ensures
        r@ == hex_prefixed_fixed(n as nat, width as int),
{
    let digits = hex_padded(n, width);
    let mut out = String::new();
    push_char(&mut out, '0');
    push_char(&mut out, 'x');
    out.append(digits.as_str());
    proof {
        assert(out@ =~= hex_prefixed_fixed(n as nat, width as int));
    }
    out
}

/// The character shown for a byte beside its hexadecimal form.
pub fn printable_char(b: u8) -> (c: char)
    ensures
        c == printable(b),
{
    if 0x20 <= b && b <= 0x7e {
        b as char
    } else {
        '.'
    }
}

} // verus!
